//! What the operations at the edge of this library return, stated on their arguments and results.
use crate::catalog::{oauth2_from_request, OAuth2Client, RestCatalog};
use crate::catalog_http::bearer_of;
use crate::catalog_laws::{
    asks_for_oauth2, client_ids_are_resolved_in_order, credential_id, credential_secret,
    secrets_are_resolved_in_order,
};
use crate::json::{items_model, Json};
use crate::listing::{PageStep, Pager};
use crate::listing_laws::{
    address_of_page, address_of_resource, each_page_names_the_next, items_on,
    resources_have_addresses, token_after,
};
use crate::metadata::{
    load_metadata, lookup, objects_view, table_rows, with_columns, LoadAction, LoadEvent, TableRow,
};
use crate::metadata_laws::{last_row_about, the_type_of_a_row_decides_the_kind};
use crate::query::is_query;
use crate::query_laws::{nine_words_begin_statements_with_rows, other_statements_are_executed};
use crate::request::option_of;
use crate::request_laws::{counts, holds_none};
use crate::session::{install_statement, load_statement, plan_table, view_of, TablePlan};
use crate::session_laws::{plan_scans, six_options_give_a_path, the_database_gives_a_path};
use crate::text::{blank, joined, lowered, optional, texts, white_space};
use crate::url::encoded;
use vstd::prelude::*;

verus! {

/// After a page that names the next, the next is fetched, at the address with the token of that page;
/// the items of the page go to the end of those collected.
pub proof fn the_next_page_is_fetched(
    pager: Pager,
    page: Json,
    token: Seq<char>,
    step: PageStep,
    next: Pager,
    url: String,
)
    requires
        call_ensures(Pager::paged, (pager, Ok(page)), step),
        token_after(page@) == Some(token),
        pager.pages + 1 < 50,
        step is Fetch ==> step == PageStep::Fetch(next),
        call_ensures(Pager::url, (&next,), url),
    ensures
        step == PageStep::Fetch(next),
        url@ == address_of_page(pager.base_url@, pager.has_query, Some(token)),
        items_model(next.entries@) == items_model(pager.entries@) + items_on(
            page@,
            pager.field@,
        ),
        next.pages == pager.pages + 1,
{
    each_page_names_the_next(
        pager@,
        page@,
        pager.base_url@,
        pager.has_query,
        pager.field@,
        seq![],
    );
}

/// After a page that names no other, or the fiftieth, everything that was collected is handed out; a
/// page that could not be fetched is reported.
pub proof fn the_last_page_ends_a_listing(
    pager: Pager,
    page: Json,
    step: PageStep,
    error: String,
    failed: PageStep,
)
    requires
        call_ensures(Pager::paged, (pager, Ok(page)), step),
        token_after(page@) is None || pager.pages + 1 >= 50,
        call_ensures(Pager::paged, (pager, Err(error)), failed),
    ensures
        step matches PageStep::Done(Ok(entries)) && items_model(entries@) == items_model(
            pager.entries@,
        ) + items_on(page@, pager.field@),
        failed matches PageStep::Done(Err(message)) && message@ == error@,
{
    each_page_names_the_next(
        pager@,
        page@,
        pager.base_url@,
        pager.has_query,
        pager.field@,
        error@,
    );
}

/// The first page of the tables of a namespace stands at the address of the tables.
pub proof fn tables_are_listed_under_their_namespace(
    catalog: RestCatalog,
    namespace: &[String],
    pager: Pager,
    url: String,
)
    requires
        call_ensures(RestCatalog::tables_pager, (&catalog, namespace), pager),
        call_ensures(Pager::url, (&pager,), url),
    ensures
        url@ == address_of_resource(
            catalog@,
            "namespaces/"@ + joined(
                Seq::new(namespace@.len(), |i: int| encoded(namespace@[i]@)),
                catalog.namespace_separator@,
            ) + "/tables"@,
        ),
        pager.field@ == "identifiers"@,
        !pager.has_query,
        pager.pages == 0,
        pager.entries@.len() == 0,
{
    let levels = texts(namespace@);
    resources_have_addresses(catalog@, seq![], levels, seq![]);
    assert(Seq::new(levels.len(), |i: int| encoded(levels[i])) =~= Seq::new(
        namespace@.len(),
        |i: int| encoded(namespace@[i]@),
    ));
    assert(items_model(pager.entries@).len() == pager.entries@.len());
}

/// Requests are sent with the token in their header, and without a header where there is no token.
pub proof fn tokens_stand_in_the_header(
    catalog: RestCatalog,
    header: Option<String>,
    token: Seq<char>,
)
    requires
        call_ensures(RestCatalog::authorization, (&catalog,), header),
    ensures
        bearer_of(catalog@.auth) is None ==> header is None,
        bearer_of(catalog@.auth) == Some(token) ==> (header matches Some(value) && value@
            == "Bearer "@ + token),
{
}

/// A request without an option of the OAuth2 flow describes no client. In another, the client secret is
/// that of the credential; else the separate option, whatever the password; else the password; and
/// without any of these, there is an error.
pub proof fn clients_have_the_secret_of_the_request(
    request: Json,
    base: &str,
    result: Result<Option<OAuth2Client>, String>,
    i: int,
    secret: Seq<char>,
)
    requires
        call_ensures(oauth2_from_request, (&request, base), result),
    ensures
        !asks_for_oauth2(request@) ==> (result matches Ok(found) && found is None),
        asks_for_oauth2(request@) && credential_secret(request@) == Some(secret) ==> (result
            matches Ok(Some(client)) && client.client_secret@ == secret),
        asks_for_oauth2(request@) && credential_secret(request@) is None && counts(
            request@,
            seq!["oauth2ClientSecret"@, "clientSecret"@],
            i,
            secret,
        ) ==> (result matches Ok(Some(client)) && client.client_secret@ == secret),
        asks_for_oauth2(request@) && credential_secret(request@) is None && holds_none(
            request@,
            seq!["oauth2ClientSecret"@, "clientSecret"@],
        ) ==> match option_of(request@, seq!["password"@]) {
            Some(password) => result matches Ok(Some(client)) && client.client_secret@ == password,
            None => result is Err,
        },
{
    if asks_for_oauth2(request@) {
        secrets_are_resolved_in_order(request@, base@, i, secret);
    }
}

/// The client id is that of the credential; else the separate option; else the user, if there is one.
pub proof fn clients_have_the_id_of_the_request(
    request: Json,
    base: &str,
    client: OAuth2Client,
    i: int,
    id: Seq<char>,
)
    requires
        call_ensures(
            oauth2_from_request,
            (&request, base),
            Ok::<Option<OAuth2Client>, String>(Some(client)),
        ),
    ensures
        credential_id(request@) == Some(id) ==> (client.client_id matches Some(found) && found@
            == id),
        credential_id(request@) is None && counts(
            request@,
            seq!["oauth2ClientId"@, "clientId"@],
            i,
            id,
        ) ==> (client.client_id matches Some(found) && found@ == id),
        credential_id(request@) is None && holds_none(
            request@,
            seq!["oauth2ClientId"@, "clientId"@],
        ) ==> optional(client.client_id) == option_of(request@, seq!["user"@]),
{
    client_ids_are_resolved_in_order(request@, base@, i, id, client@);
}

/// The table that the rows of a session tell of is kept as a view exactly when the type in the last row
/// about it is VIEW in any case, and as a table for every other type.
pub proof fn rows_tell_views_from_tables(rows: Vec<TableRow>, action: LoadAction, k: int)
    requires
        call_ensures(load_metadata, (LoadEvent::Tables(Ok(rows)),), action),
        0 <= k < rows@.len(),
        forall|j: int|
            k < j < rows@.len() ==> !((#[trigger] rows@[j]).schema@ == rows@[k].schema@
                && rows@[j].name@ == rows@[k].name@),
    ensures
        action matches LoadAction::QueryColumns(objects, _) && (lookup(
            objects_view(objects@),
            rows@[k].schema@,
            rows@[k].name@,
        ) matches Some(object) && (object.kind == "view"@ <==> lowered(rows@[k].table_type@)
            == seq!['v', 'i', 'e', 'w']) && (object.kind == "table"@ <==> lowered(
            rows@[k].table_type@,
        ) != seq!['v', 'i', 'e', 'w'])),
{
    let tables = table_rows(rows@);
    let schema = rows@[k].schema@;
    let name = rows@[k].name@;
    assert(last_row_about(tables, schema, name, k)) by {
        assert forall|j: int| k < j < tables.len() implies !((#[trigger] tables[j]).schema == schema
            && tables[j].name == name) by {
            assert(tables[j] == rows@[j]@);
        }
    }
    the_type_of_a_row_decides_the_kind(tables, seq![], schema, name, k);
    assert(with_columns(crate::metadata::objects_of(tables), seq![])
        == crate::metadata::objects_of(tables));
}

/// A statement is one with rows when it begins, after white space, with one of nine words in any case.
pub proof fn nine_words_are_found(
    sql: &str,
    before: Seq<char>,
    word: Seq<char>,
    rest: Seq<char>,
    found: bool,
)
    requires
        call_ensures(is_query, (sql,), found),
        sql@ == before + (word + rest),
        blank(before),
        ({
            ||| lowered(word) == seq!['s', 'e', 'l', 'e', 'c', 't']
            ||| lowered(word) == seq!['w', 'i', 't', 'h']
            ||| lowered(word) == seq!['s', 'h', 'o', 'w']
            ||| lowered(word) == seq!['p', 'r', 'a', 'g', 'm', 'a']
            ||| lowered(word) == seq!['e', 'x', 'p', 'l', 'a', 'i', 'n']
            ||| lowered(word) == seq!['d', 'e', 's', 'c', 'r', 'i', 'b', 'e']
            ||| lowered(word) == seq!['v', 'a', 'l', 'u', 'e', 's']
            ||| lowered(word) == seq!['t', 'a', 'b', 'l', 'e']
            ||| lowered(word) == seq!['c', 'a', 'l', 'l']
        }),
    ensures
        found,
{
    nine_words_begin_statements_with_rows(before, word, rest, 0);
}

/// A statement that begins, after white space, with none of the nine words is not one with rows.
pub proof fn no_other_word_is_found(sql: &str, before: Seq<char>, s: Seq<char>, found: bool)
    requires
        call_ensures(is_query, (sql,), found),
        sql@ == before + s,
        blank(before),
        s.len() > 0 ==> !white_space(s[0]),
        !seq!['s', 'e', 'l', 'e', 'c', 't'].is_prefix_of(lowered(s)),
        !seq!['w', 'i', 't', 'h'].is_prefix_of(lowered(s)),
        !seq!['s', 'h', 'o', 'w'].is_prefix_of(lowered(s)),
        !seq!['p', 'r', 'a', 'g', 'm', 'a'].is_prefix_of(lowered(s)),
        !seq!['e', 'x', 'p', 'l', 'a', 'i', 'n'].is_prefix_of(lowered(s)),
        !seq!['d', 'e', 's', 'c', 'r', 'i', 'b', 'e'].is_prefix_of(lowered(s)),
        !seq!['v', 'a', 'l', 'u', 'e', 's'].is_prefix_of(lowered(s)),
        !seq!['t', 'a', 'b', 'l', 'e'].is_prefix_of(lowered(s)),
        !seq!['c', 'a', 'l', 'l'].is_prefix_of(lowered(s)),
    ensures
        !found,
{
    other_statements_are_executed(before, s, 0);
}

/// The table of a request is planned at the path that one of six options gives, or at the database of
/// the profile; and not at all without either.
pub proof fn tables_are_planned_at_their_path(
    engine: &str,
    request: Json,
    database: Option<String>,
    plan: Option<TablePlan>,
    i: int,
    path: Seq<char>,
)
    requires
        call_ensures(plan_table, (engine, &request, &database), plan),
        engine@ == "deltaLake"@ || engine@ == "iceberg"@ || engine@ == "s3Tables"@ || engine@
            == "hudi"@ || engine@ == "hive"@,
    ensures
        counts(
            request@,
            seq!["tablePath"@, "path"@, "location"@, "uri"@, "url"@, "connectionString"@],
            i,
            path,
        ) ==> (plan matches Some(found) && plan_scans(
            found@,
            engine@,
            view_of(request@),
            path,
        )),
        holds_none(
            request@,
            seq!["tablePath"@, "path"@, "location"@, "uri"@, "url"@, "connectionString"@],
        ) ==> match database {
            Some(place) => plan matches Some(found) && plan_scans(
                found@,
                engine@,
                view_of(request@),
                place@,
            ),
            None => plan is None,
        },
{
    let names = seq!["tablePath"@, "path"@, "location"@, "uri"@, "url"@, "connectionString"@];
    if counts(request@, names, i, path) {
        six_options_give_a_path(engine@, request@, optional(database), i, path);
    }
    if holds_none(request@, names) {
        the_database_gives_a_path(engine@, request@, optional(database));
    }
}

/// An extension is installed and loaded by its name.
pub proof fn extensions_are_installed_and_loaded(
    extension: &str,
    installing: String,
    loading: String,
)
    requires
        call_ensures(install_statement, (extension,), installing),
        call_ensures(load_statement, (extension,), loading),
    ensures
        installing@ == "install "@ + extension@ + ";"@,
        loading@ == "load "@ + extension@ + ";"@,
{
}

} // verus!

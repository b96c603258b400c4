//! What the description of a catalog promises, stated on the options of the request.
use crate::catalog::{
    auth_of, base_of, catalog_of, credential_parts, endpoint_of, filled_parts, filter_of,
    http_address, oauth2_of, table_of, AuthView, CatalogView, OAuth2View,
};
use crate::json::JsonView;
use crate::request::option_of;
use crate::request_laws::{
    counts, holds_none, nothing_held_is_nothing_read, the_value_that_counts_is_read,
};
use crate::text::{
    joined, lemma_first_between, lowered, splitting_undoes_joining, tight, trimmed,
    trimming_leaves_tight_texts,
};
use vstd::prelude::*;

verus! {

/// An address is one of HTTP when it begins with `http://` or `https://`, and only then.
pub proof fn http_addresses_have_a_scheme(address: Seq<char>, rest: Seq<char>)
    ensures
        http_address(seq!['h', 't', 't', 'p', ':', '/', '/'] + rest),
        http_address(seq!['h', 't', 't', 'p', 's', ':', '/', '/'] + rest),
        http_address(address) ==> seq!['h', 't', 't', 'p', ':', '/', '/'].is_prefix_of(address)
            || seq!['h', 't', 't', 'p', 's', ':', '/', '/'].is_prefix_of(address),
{
    reveal_strlit("http://");
    reveal_strlit("https://");
    let plain = seq!['h', 't', 't', 'p', ':', '/', '/'];
    let secure = seq!['h', 't', 't', 'p', 's', ':', '/', '/'];
    assert("http://"@ =~= plain);
    assert("https://"@ =~= secure);
    assert((plain + rest).subrange(0, 7) =~= plain);
    assert((secure + rest).subrange(0, 8) =~= secure);
}

/// A relative address of a token endpoint stands under the address of the catalog.
pub proof fn relative_endpoints_stand_under_the_catalog(base: Seq<char>, uri: Seq<char>)
    requires
        tight(uri),
        !http_address(uri),
        uri.len() > 0 ==> uri[0] != '/',
    ensures
        endpoint_of(base, uri) == base + "/"@ + uri,
{
    trimming_leaves_tight_texts(uri);
}

/// A credential is the client id and the client secret around its first colon, each without the white
/// space around it, and each there where anything is left of it; without a colon it is the secret
/// alone.
pub proof fn credentials_have_two_parts(id: Seq<char>, secret: Seq<char>)
    requires
        !id.contains(':'),
    ensures
        ({
            let parts = credential_parts(id + seq![':'] + secret);
            &&& parts.0 == if trimmed(id).len() > 0 {
                Some(trimmed(id))
            } else {
                None
            }
            &&& parts.1 == if trimmed(secret).len() > 0 {
                Some(trimmed(secret))
            } else {
                None
            }
        }),
        ({
            let parts = credential_parts(id);
            &&& parts.0 is None
            &&& parts.1 == if trimmed(id).len() > 0 {
                Some(trimmed(id))
            } else {
                None
            }
        }),
{
    let whole = id + seq![':'] + secret;
    lemma_first_between(id, ':', secret);
    lemma_first_between(id, ':', seq![]);
    assert(whole.take(id.len() as int) =~= id);
    assert(whole.skip(id.len() as int + 1) =~= secret);
}

/// Whether a request holds an option of the OAuth2 flow.
pub open spec fn asks_for_oauth2(request: JsonView) -> bool {
    ||| option_of(request, seq!["credential"@, "oauth2Credential"@, "catalogCredential"@]) is Some
    ||| option_of(request, seq!["oauth2ClientId"@, "clientId"@]) is Some
    ||| option_of(request, seq!["oauth2ClientSecret"@, "clientSecret"@]) is Some
    ||| option_of(request, seq!["oauth2ServerUri"@, "oauthServerUri"@]) is Some
}

/// Where the options of the OAuth2 flow are looked for: each under its names, the first of which
/// counts.
pub proof fn oauth2_options_have_names(request: JsonView, i: int, value: Seq<char>)
    ensures
        counts(request, seq!["credential"@, "oauth2Credential"@, "catalogCredential"@], i, value)
            || counts(request, seq!["oauth2ClientId"@, "clientId"@], i, value) || counts(
            request,
            seq!["oauth2ClientSecret"@, "clientSecret"@],
            i,
            value,
        ) || counts(request, seq!["oauth2ServerUri"@, "oauthServerUri"@], i, value)
            ==> asks_for_oauth2(request),
        holds_none(request, seq!["credential"@, "oauth2Credential"@, "catalogCredential"@])
            && holds_none(request, seq!["oauth2ClientId"@, "clientId"@]) && holds_none(
            request,
            seq!["oauth2ClientSecret"@, "clientSecret"@],
        ) && holds_none(request, seq!["oauth2ServerUri"@, "oauthServerUri"@]) ==> !asks_for_oauth2(
            request,
        ),
{
    let credential = seq!["credential"@, "oauth2Credential"@, "catalogCredential"@];
    let id = seq!["oauth2ClientId"@, "clientId"@];
    let secret = seq!["oauth2ClientSecret"@, "clientSecret"@];
    let server = seq!["oauth2ServerUri"@, "oauthServerUri"@];
    if counts(request, credential, i, value) {
        the_value_that_counts_is_read(request, credential, i, value);
    }
    if counts(request, id, i, value) {
        the_value_that_counts_is_read(request, id, i, value);
    }
    if counts(request, secret, i, value) {
        the_value_that_counts_is_read(request, secret, i, value);
    }
    if counts(request, server, i, value) {
        the_value_that_counts_is_read(request, server, i, value);
    }
    if holds_none(request, credential) && holds_none(request, id) && holds_none(request, secret)
        && holds_none(request, server) {
        nothing_held_is_nothing_read(request, credential);
        nothing_held_is_nothing_read(request, id);
        nothing_held_is_nothing_read(request, secret);
        nothing_held_is_nothing_read(request, server);
    }
}

/// The client secret that the credential of a request gives, if it gives one.
pub open spec fn credential_secret(request: JsonView) -> Option<Seq<char>> {
    match option_of(request, seq!["credential"@, "oauth2Credential"@, "catalogCredential"@]) {
        Some(credential) => credential_parts(credential).1,
        None => None,
    }
}

/// The client id that the credential of a request gives, if it gives one.
pub open spec fn credential_id(request: JsonView) -> Option<Seq<char>> {
    match option_of(request, seq!["credential"@, "oauth2Credential"@, "catalogCredential"@]) {
        Some(credential) => credential_parts(credential).0,
        None => None,
    }
}

/// The client secret is that of the credential; where the credential gives none, it is the separate
/// option, whatever the password; where that is not there either, it is the password; and without any
/// of these it is an error, with OAuth2 asked for.
pub proof fn secrets_are_resolved_in_order(
    request: JsonView,
    base: Seq<char>,
    i: int,
    secret: Seq<char>,
)
    requires
        asks_for_oauth2(request),
    ensures
        credential_secret(request) == Some(secret) ==> (oauth2_of(request, base)
            matches Ok(Some(client)) && client.client_secret == secret),
        credential_secret(request) is None && counts(
            request,
            seq!["oauth2ClientSecret"@, "clientSecret"@],
            i,
            secret,
        ) ==> (oauth2_of(request, base) matches Ok(Some(client)) && client.client_secret == secret),
        credential_secret(request) is None && holds_none(
            request,
            seq!["oauth2ClientSecret"@, "clientSecret"@],
        ) ==> match option_of(request, seq!["password"@]) {
            Some(password) => oauth2_of(request, base) matches Ok(Some(client))
                && client.client_secret == password,
            None => oauth2_of(request, base) == Err::<Option<OAuth2View>, Seq<char>>(
                "OAuth2 catalog authentication is configured but no client secret was found. Set the credential option (clientId:clientSecret), or set oauth2ClientId and put the client secret in the connection password field (which is kept out of saved settings)."@,
            ),
        },
{
    let names = seq!["oauth2ClientSecret"@, "clientSecret"@];
    if counts(request, names, i, secret) {
        the_value_that_counts_is_read(request, names, i, secret);
    }
    if holds_none(request, names) {
        nothing_held_is_nothing_read(request, names);
    }
}

/// The client id is that of the credential; where the credential gives none, it is the separate option;
/// and where that is not there either, it is the user, if there is one.
pub proof fn client_ids_are_resolved_in_order(
    request: JsonView,
    base: Seq<char>,
    i: int,
    id: Seq<char>,
    client: OAuth2View,
)
    requires
        oauth2_of(request, base) == Ok::<Option<OAuth2View>, Seq<char>>(Some(client)),
    ensures
        credential_id(request) == Some(id) ==> client.client_id == Some(id),
        credential_id(request) is None && counts(
            request,
            seq!["oauth2ClientId"@, "clientId"@],
            i,
            id,
        ) ==> client.client_id == Some(id),
        credential_id(request) is None && holds_none(request, seq!["oauth2ClientId"@, "clientId"@])
            ==> client.client_id == option_of(request, seq!["user"@]),
{
    let names = seq!["oauth2ClientId"@, "clientId"@];
    if counts(request, names, i, id) {
        the_value_that_counts_is_read(request, names, i, id);
    }
    if holds_none(request, names) {
        nothing_held_is_nothing_read(request, names);
    }
}

/// The token endpoint is the one that the user set, which then stays, or else that of the catalog; the
/// scope is the one that is asked for, or else that of catalogs; and no token is held yet.
pub proof fn clients_have_an_endpoint_and_a_scope(
    request: JsonView,
    base: Seq<char>,
    i: int,
    value: Seq<char>,
    client: OAuth2View,
)
    requires
        oauth2_of(request, base) == Ok::<Option<OAuth2View>, Seq<char>>(Some(client)),
    ensures
        counts(request, seq!["oauth2ServerUri"@, "oauthServerUri"@], i, value)
            ==> client.token_endpoint == endpoint_of(base, value) && client.endpoint_pinned,
        holds_none(request, seq!["oauth2ServerUri"@, "oauthServerUri"@]) ==> client.token_endpoint
            == base + "/v1/oauth/tokens"@ && !client.endpoint_pinned,
        counts(request, seq!["scope"@, "oauth2Scope"@], i, value) ==> client.scope == value,
        holds_none(request, seq!["scope"@, "oauth2Scope"@]) ==> client.scope == "catalog"@,
        client.access_token is None,
{
    let server = seq!["oauth2ServerUri"@, "oauthServerUri"@];
    let scope = seq!["scope"@, "oauth2Scope"@];
    if counts(request, server, i, value) {
        the_value_that_counts_is_read(request, server, i, value);
    }
    if holds_none(request, server) {
        nothing_held_is_nothing_read(request, server);
    }
    if counts(request, scope, i, value) {
        the_value_that_counts_is_read(request, scope, i, value);
    }
    if holds_none(request, scope) {
        nothing_held_is_nothing_read(request, scope);
    }
}

/// A catalog is asked with the bearer token that one of four options gives; without one, with OAuth2
/// where it is asked for; and otherwise without authentication.
pub proof fn catalogs_are_authenticated(
    request: JsonView,
    base: Seq<char>,
    i: int,
    token: Seq<char>,
)
    ensures
        counts(
            request,
            seq!["catalogToken"@, "catalogBearerToken"@, "bearerToken"@, "token"@],
            i,
            token,
        ) ==> auth_of(request, base) == Ok::<AuthView, Seq<char>>(AuthView::StaticBearer(token)),
        holds_none(
            request,
            seq!["catalogToken"@, "catalogBearerToken"@, "bearerToken"@, "token"@],
        ) ==> if asks_for_oauth2(request) {
            match oauth2_of(request, base) {
                Ok(Some(client)) => auth_of(request, base) == Ok::<AuthView, Seq<char>>(
                    AuthView::OAuth2(client),
                ),
                Ok(None) => false,
                Err(message) => auth_of(request, base) == Err::<AuthView, Seq<char>>(message),
            }
        } else {
            auth_of(request, base) == Ok::<AuthView, Seq<char>>(AuthView::NoAuth)
        },
{
    let names = seq!["catalogToken"@, "catalogBearerToken"@, "bearerToken"@, "token"@];
    if counts(request, names, i, token) {
        the_value_that_counts_is_read(request, names, i, token);
    }
    if holds_none(request, names) {
        nothing_held_is_nothing_read(request, names);
    }
}

/// A request without any of the three options for an address describes no catalog.
pub proof fn three_options_give_an_address(request: JsonView, i: int, uri: Seq<char>)
    ensures
        holds_none(request, seq!["catalogUri"@, "catalogUrl"@, "catalogEndpoint"@]) ==> catalog_of(
            request,
        ) == Ok::<Option<CatalogView>, Seq<char>>(None),
        counts(request, seq!["catalogUri"@, "catalogUrl"@, "catalogEndpoint"@], i, uri) ==> (
        catalog_of(request) matches Ok(found) ==> (found matches Some(catalog) && catalog.base
            == base_of(uri))),
{
    let names = seq!["catalogUri"@, "catalogUrl"@, "catalogEndpoint"@];
    if counts(request, names, i, uri) {
        the_value_that_counts_is_read(request, names, i, uri);
    }
    if holds_none(request, names) {
        nothing_held_is_nothing_read(request, names);
    }
}

/// Whether a request asks for a catalog of the type that is served: it says so in any case, or does not
/// say.
pub open spec fn asks_for_rest(request: JsonView) -> bool {
    match option_of(request, seq!["catalogType"@]) {
        Some(catalog_type) => lowered(catalog_type) == seq!['r', 'e', 's', 't'],
        None => true,
    }
}

/// A request with an address describes a catalog exactly when it asks for the type that is served, the
/// address is one of HTTP, the authentication can be made, and the one table to show, if it names one,
/// is qualified; otherwise the first of these that fails is told.
pub proof fn catalogs_are_described_by_requests(request: JsonView, i: int, uri: Seq<char>)
    requires
        counts(request, seq!["catalogUri"@, "catalogUrl"@, "catalogEndpoint"@], i, uri),
    ensures
        !asks_for_rest(request) ==> (option_of(request, seq!["catalogType"@]) matches Some(
            catalog_type,
        ) && catalog_of(request) == Err::<Option<CatalogView>, Seq<char>>(
            "catalogType '"@ + lowered(catalog_type)
                + "' is not supported yet; only 'rest' catalogs are implemented. Clear catalogUri to scan a single table path instead."@,
        )),
        asks_for_rest(request) && !http_address(base_of(uri)) ==> catalog_of(request) == Err::<
            Option<CatalogView>,
            Seq<char>,
        >(
            "catalogUri must be an http(s) URL, got '"@ + uri
                + "'. For a direct table path, use the table path field instead."@,
        ),
        asks_for_rest(request) && http_address(base_of(uri)) ==> match auth_of(
            request,
            base_of(uri),
        ) {
            Err(message) => catalog_of(request) == Err::<Option<CatalogView>, Seq<char>>(message),
            Ok(auth) => match filter_of(request) {
                Err(message) => catalog_of(request) == Err::<Option<CatalogView>, Seq<char>>(
                    message,
                ),
                Ok(filter) => catalog_of(request) matches Ok(Some(catalog)) && catalog.base
                    == base_of(uri) && catalog.prefix.len() == 0 && catalog.namespace_separator
                    == "%1F"@ && catalog.auth == auth && catalog.table_filter == filter
                    && catalog.warehouse == option_of(
                    request,
                    seq!["warehouse"@, "warehousePath"@],
                ),
            },
        },
{
    let names = seq!["catalogUri"@, "catalogUrl"@, "catalogEndpoint"@];
    the_value_that_counts_is_read(request, names, i, uri);
    reveal_strlit("rest");
    assert("rest"@ =~= seq!['r', 'e', 's', 't']);
    assert(lowered("rest"@) =~= seq!['r', 'e', 's', 't']);
}

/// A catalog whose request has no bearer token, and whose credential gives no secret, is asked with the
/// client secret that the request holds under one of two names, whatever the password is; with the
/// password where it holds neither and asks for OAuth2 otherwise; and where there is no password
/// either, there is no catalog but an error.
pub proof fn catalogs_use_the_secret_of_the_request(
    request: JsonView,
    i: int,
    uri: Seq<char>,
    j: int,
    secret: Seq<char>,
)
    requires
        counts(request, seq!["catalogUri"@, "catalogUrl"@, "catalogEndpoint"@], i, uri),
        asks_for_rest(request),
        http_address(base_of(uri)),
        filter_of(request) is Ok,
        holds_none(
            request,
            seq!["catalogToken"@, "catalogBearerToken"@, "bearerToken"@, "token"@],
        ),
        credential_secret(request) is None,
    ensures
        counts(request, seq!["oauth2ClientSecret"@, "clientSecret"@], j, secret) ==> (catalog_of(
            request,
        ) matches Ok(Some(catalog)) && (catalog.auth matches AuthView::OAuth2(client)
            && client.client_secret == secret)),
        holds_none(request, seq!["oauth2ClientSecret"@, "clientSecret"@]) && asks_for_oauth2(
            request,
        ) ==> match option_of(request, seq!["password"@]) {
            Some(password) => catalog_of(request) matches Ok(Some(catalog)) && (catalog.auth
                matches AuthView::OAuth2(client) && client.client_secret == password),
            None => catalog_of(request) is Err,
        },
{
    catalogs_are_described_by_requests(request, i, uri);
    catalogs_are_authenticated(request, base_of(uri), 0, seq![]);
    oauth2_options_have_names(request, j, secret);
    if asks_for_oauth2(request) {
        secrets_are_resolved_in_order(request, base_of(uri), j, secret);
    }
}

/// The one table that a request names is the one that its identifier gives, and an identifier that
/// gives none is refused.
pub proof fn the_identifier_names_the_table(request: JsonView, identifier: Seq<char>)
    ensures
        option_of(request, seq!["tableIdentifier"@]) is None ==> filter_of(request) == Ok::<
            Option<(Seq<Seq<char>>, Seq<char>)>,
            Seq<char>,
        >(None),
        option_of(request, seq!["tableIdentifier"@]) == Some(identifier) ==> match table_of(
            identifier,
        ) {
            Ok(table) => filter_of(request) == Ok::<
                Option<(Seq<Seq<char>>, Seq<char>)>,
                Seq<char>,
            >(Some(table)),
            Err(message) => filter_of(request) == Err::<
                Option<(Seq<Seq<char>>, Seq<char>)>,
                Seq<char>,
            >(message),
        },
{
}

/// The parts of a list of which something is left without white space, in order.
pub open spec fn parts_left(written: Seq<Seq<char>>) -> Seq<Seq<char>>
    decreases written.len(),
{
    if written.len() == 0 {
        seq![]
    } else if trimmed(written[0]).len() > 0 {
        seq![trimmed(written[0])] + parts_left(written.drop_first())
    } else {
        parts_left(written.drop_first())
    }
}

proof fn lemma_first_part(written: Seq<Seq<char>>)
    requires
        written.len() > 0,
    ensures
        filled_parts(written) == if trimmed(written[0]).len() > 0 {
            seq![trimmed(written[0])] + filled_parts(written.drop_first())
        } else {
            filled_parts(written.drop_first())
        },
    decreases written.len(),
{
    let rest = written.drop_first();
    if written.len() == 1 {
        assert(written.drop_last() =~= rest);
        assert(filled_parts(rest) =~= seq![]);
        assert(filled_parts(written) =~= if trimmed(written[0]).len() > 0 {
            seq![trimmed(written[0])] + filled_parts(rest)
        } else {
            filled_parts(rest)
        });
    } else {
        let front = written.drop_last();
        lemma_first_part(front);
        assert(front.drop_first() =~= rest.drop_last());
        assert(rest.last() == written.last());
        assert(filled_parts(written) =~= if trimmed(written[0]).len() > 0 {
            seq![trimmed(written[0])] + filled_parts(rest)
        } else {
            filled_parts(rest)
        });
    }
}

proof fn lemma_parts_left(written: Seq<Seq<char>>)
    ensures
        filled_parts(written) == parts_left(written),
    decreases written.len(),
{
    if written.len() > 0 {
        lemma_first_part(written);
        lemma_parts_left(written.drop_first());
    }
}

/// A table identifier is the levels of a namespace and a name, with points between them; levels that
/// are blank are left out, and with fewer than two parts it is refused.
pub proof fn identifiers_have_two_parts_at_least(written: Seq<Seq<char>>)
    requires
        written.len() > 0,
        forall|i: int| 0 <= i < written.len() ==> !(#[trigger] written[i]).contains('.'),
    ensures
        ({
            let identifier = joined(written, seq!['.']);
            let parts = parts_left(written);
            if parts.len() < 2 {
                table_of(identifier) == Err::<(Seq<Seq<char>>, Seq<char>), Seq<char>>(
                    "tableIdentifier '"@ + identifier
                        + "' must be qualified as namespace.table"@,
                )
            } else {
                table_of(identifier) == Ok::<(Seq<Seq<char>>, Seq<char>), Seq<char>>(
                    (parts.take(parts.len() - 1), parts[parts.len() - 1]),
                )
            }
        }),
{
    splitting_undoes_joining(written, seq!['.'], '.');
    lemma_parts_left(written);
    let parts = parts_left(written);
    if parts.len() >= 2 {
        assert(parts.drop_last() =~= parts.take(parts.len() - 1));
    }
}

} // verus!

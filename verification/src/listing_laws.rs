//! What listing a catalog promises, stated on the addresses asked for and the pages that come back.
use crate::catalog::CatalogView;
use crate::catalog_http::resource_url;
use crate::json::{member, JsonView};
use crate::listing::{
    first_page, page_step, page_url, table_address, table_outcome, tables_address, tables_outcome,
    taken_namespaces, walk_step, NamespaceEventView, NamespaceStepView, PageStepView, PagerView,
    WalkView,
};
use crate::schema::{columns_of, levels_of, strings_in};
use crate::text::joined;
use crate::url::{encoded, encoded_namespace};
use vstd::prelude::*;

verus! {

/// The address of a page: that of the listing, and for a page with a token the token besides.
pub open spec fn address_of_page(
    base_url: Seq<char>,
    has_query: bool,
    token: Option<Seq<char>>,
) -> Seq<char> {
    match token {
        None => base_url,
        Some(token) => if has_query || base_url.contains('?') {
            base_url + "&"@ + "pageToken="@ + encoded(token)
        } else {
            base_url + "?"@ + "pageToken="@ + encoded(token)
        },
    }
}

/// The token of the page that follows a page: its `next-page-token`, unless that is no text or empty.
pub open spec fn token_after(page: JsonView) -> Option<Seq<char>> {
    match member(page, "next-page-token"@) {
        Some(JsonView::Text(token)) => if token.len() > 0 {
            Some(token)
        } else {
            None
        },
        _ => None,
    }
}

/// The items that a page holds under a name.
pub open spec fn items_on(page: JsonView, field: Seq<char>) -> Seq<JsonView> {
    match member(page, field) {
        Some(JsonView::Array(items)) => items,
        _ => seq![],
    }
}

/// A listing is first asked for at its own address. A page with a token is followed by the page at the
/// address with that very token, whatever token led to it, as long as fewer than fifty pages were
/// fetched; the items of the page go to the end of those collected. A page without a token, or the
/// fiftieth, is the last, and a page that cannot be fetched ends the listing.
pub proof fn each_page_names_the_next(
    pager: PagerView,
    page: JsonView,
    base_url: Seq<char>,
    has_query: bool,
    field: Seq<char>,
    error: Seq<char>,
)
    ensures
        page_url(first_page(base_url, has_query, field)) == base_url,
        first_page(base_url, has_query, field).entries.len() == 0,
        first_page(base_url, has_query, field).pages == 0,
        first_page(base_url, has_query, field).field == field,
        match token_after(page) {
            Some(token) if pager.pages + 1 < 50 => page_step(pager, Ok(page))
                matches PageStepView::Fetch(next) && page_url(next) == address_of_page(
                pager.base_url,
                pager.has_query,
                Some(token),
            ) && next.entries == pager.entries + items_on(page, pager.field) && next.pages
                == pager.pages + 1 && next.base_url == pager.base_url && next.has_query
                == pager.has_query && next.field == pager.field,
            _ => page_step(pager, Ok(page)) == PageStepView::Done(
                Ok(pager.entries + items_on(page, pager.field)),
            ),
        },
        page_step(pager, Err(error)) == PageStepView::Done(Err(error)),
{
}

/// The pages that a server gives one after the other, beginning with a token: each but the last names
/// the next.
pub open spec fn chain(
    server: spec_fn(Seq<char>) -> JsonView,
    base_url: Seq<char>,
    has_query: bool,
    token: Option<Seq<char>>,
    most: nat,
) -> Seq<JsonView>
    decreases most,
{
    if most == 0 {
        seq![]
    } else {
        let page = server(address_of_page(base_url, has_query, token));
        match token_after(page) {
            Some(next) => seq![page] + chain(
                server,
                base_url,
                has_query,
                Some(next),
                (most - 1) as nat,
            ),
            None => seq![page],
        }
    }
}

/// The items of pages, in order.
pub open spec fn items_on_all(pages: Seq<JsonView>, field: Seq<char>) -> Seq<JsonView>
    decreases pages.len(),
{
    if pages.len() == 0 {
        seq![]
    } else {
        items_on(pages[0], field) + items_on_all(pages.drop_first(), field)
    }
}

/// What a listing collects from a server within so many requests; nothing where it asks for more.
pub open spec fn collected(
    server: spec_fn(Seq<char>) -> JsonView,
    pager: PagerView,
    requests: nat,
) -> Option<Seq<JsonView>>
    decreases requests,
{
    if requests == 0 {
        None
    } else {
        match page_step(pager, Ok(server(page_url(pager)))) {
            PageStepView::Fetch(next) => collected(server, next, (requests - 1) as nat),
            PageStepView::Done(Ok(entries)) => Some(entries),
            PageStepView::Done(Err(_)) => None,
        }
    }
}

proof fn lemma_collected(
    server: spec_fn(Seq<char>) -> JsonView,
    pager: PagerView,
    token: Option<Seq<char>>,
    most: nat,
)
    requires
        0 <= pager.pages < 50,
        most == 50 - pager.pages,
        page_url(pager) == address_of_page(pager.base_url, pager.has_query, token),
    ensures
        collected(server, pager, most) == Some(
            pager.entries + items_on_all(
                chain(server, pager.base_url, pager.has_query, token, most),
                pager.field,
            ),
        ),
    decreases most,
{
    let page = server(page_url(pager));
    let pages = chain(server, pager.base_url, pager.has_query, token, most);
    each_page_names_the_next(
        pager,
        page,
        pager.base_url,
        pager.has_query,
        pager.field,
        seq![],
    );
    let own = items_on(page, pager.field);
    assert(pages[0] == page);
    match token_after(page) {
        Some(next_token) => {
            let rest = chain(
                server,
                pager.base_url,
                pager.has_query,
                Some(next_token),
                (most - 1) as nat,
            );
            assert(pages.drop_first() =~= rest);
            if pager.pages + 1 < 50 {
                let next = page_step(pager, Ok(page))->Fetch_0;
                lemma_collected(server, next, Some(next_token), (most - 1) as nat);
                assert(pager.entries + own + items_on_all(rest, pager.field) =~= pager.entries + (
                own + items_on_all(rest, pager.field)));
            } else {
                assert(rest.len() == 0);
                assert(own + items_on_all(rest, pager.field) =~= own);
            }
        },
        None => {
            assert(pages.drop_first().len() == 0);
            assert(own + items_on_all(pages.drop_first(), pager.field) =~= own);
        },
    }
}

/// Against any server, a listing collects the items of the chain of pages that the tokens name, in
/// their order and once each, of at most fifty pages.
pub proof fn listings_follow_the_tokens(
    server: spec_fn(Seq<char>) -> JsonView,
    base_url: Seq<char>,
    has_query: bool,
    field: Seq<char>,
)
    ensures
        collected(server, first_page(base_url, has_query, field), 50) == Some(
            items_on_all(chain(server, base_url, has_query, None, 50), field),
        ),
{
    let pager = first_page(base_url, has_query, field);
    each_page_names_the_next(pager, JsonView::Null, base_url, has_query, field, seq![]);
    lemma_collected(server, pager, None, 50);
    let items = items_on_all(chain(server, base_url, has_query, None, 50), field);
    assert(pager.entries + items =~= items);
}

/// The address of a resource of a catalog: under the version, and under the prefix where there is one.
pub open spec fn address_of_resource(catalog: CatalogView, tail: Seq<char>) -> Seq<char> {
    if catalog.prefix.len() == 0 {
        catalog.base + "/v1/"@ + tail
    } else {
        catalog.base + "/v1/"@ + catalog.prefix + "/"@ + tail
    }
}

/// The resources of a catalog stand under its version and its prefix: the tables of a namespace under
/// the encoded levels of the namespace, and a table under its encoded name besides.
pub proof fn resources_have_addresses(
    catalog: CatalogView,
    tail: Seq<char>,
    namespace: Seq<Seq<char>>,
    table: Seq<char>,
)
    ensures
        resource_url(catalog, tail) == address_of_resource(catalog, tail),
        tables_address(catalog, namespace) == address_of_resource(
            catalog,
            "namespaces/"@ + joined(
                Seq::new(namespace.len(), |i: int| encoded(namespace[i])),
                catalog.namespace_separator,
            ) + "/tables"@,
        ),
        table_address(catalog, namespace, table) == address_of_resource(
            catalog,
            "namespaces/"@ + joined(
                Seq::new(namespace.len(), |i: int| encoded(namespace[i])),
                catalog.namespace_separator,
            ) + "/tables/"@ + encoded(table),
        ),
{
    let each = Seq::new(namespace.len(), |i: int| encoded(namespace[i]));
    assert(crate::url::encoded_each(namespace) =~= each);
}

/// The texts of a list of values, in order.
pub open spec fn texts_of(items: Seq<JsonView>) -> Seq<Seq<char>>
    decreases items.len(),
{
    if items.len() == 0 {
        seq![]
    } else {
        match items[0] {
            JsonView::Text(content) => seq![content] + texts_of(items.drop_first()),
            _ => texts_of(items.drop_first()),
        }
    }
}

proof fn lemma_strings(items: Seq<JsonView>)
    ensures
        strings_in(items) == texts_of(items),
    decreases items.len(),
{
    if items.len() > 0 {
        lemma_strings_first(items);
        lemma_strings(items.drop_first());
    }
}

proof fn lemma_strings_first(items: Seq<JsonView>)
    requires
        items.len() > 0,
    ensures
        strings_in(items) == match items[0] {
            JsonView::Text(content) => seq![content] + strings_in(items.drop_first()),
            _ => strings_in(items.drop_first()),
        },
    decreases items.len(),
{
    let rest = items.drop_first();
    if items.len() == 1 {
        assert(items.drop_last() =~= rest);
        assert(strings_in(rest) =~= seq![]);
        assert(strings_in(items) =~= match items[0] {
            JsonView::Text(content) => seq![content] + strings_in(rest),
            _ => strings_in(rest),
        });
    } else {
        let front = items.drop_last();
        lemma_strings_first(front);
        assert(front.drop_first() =~= rest.drop_last());
        assert(rest.last() == items.last());
        assert(strings_in(items) =~= match items[0] {
            JsonView::Text(content) => seq![content] + strings_in(rest),
            _ => strings_in(rest),
        });
    }
}

/// The levels of a namespace are the texts of an array, in order; an array without texts and any other
/// value is no namespace.
pub proof fn namespaces_are_arrays_of_texts(value: JsonView, items: Seq<JsonView>)
    ensures
        texts_of(items).len() > 0 ==> levels_of(JsonView::Array(items)) == Some(texts_of(items)),
        texts_of(items).len() == 0 ==> levels_of(JsonView::Array(items)) is None,
        !(value is Array) ==> levels_of(value) is None,
{
    lemma_strings(items);
}

/// The namespaces among the entries of a listing, in order.
pub open spec fn namespaces_in(values: Seq<JsonView>) -> Seq<Seq<Seq<char>>>
    decreases values.len(),
{
    if values.len() == 0 {
        seq![]
    } else {
        match values[0] {
            JsonView::Array(items) if texts_of(items).len() > 0 => seq![texts_of(items)]
                + namespaces_in(values.drop_first()),
            _ => namespaces_in(values.drop_first()),
        }
    }
}

/// The namespaces of a listing go to the end of those found, as far as there are two hundred; that
/// there was one more is told exactly when there was.
pub proof fn two_hundred_namespaces_are_taken(
    namespaces: Seq<Seq<Seq<char>>>,
    values: Seq<JsonView>,
)
    requires
        namespaces.len() <= 200,
    ensures
        ({
            let all = namespaces + namespaces_in(values);
            let (taken, full) = taken_namespaces(namespaces, values);
            &&& full == (all.len() > 200)
            &&& taken == if all.len() > 200 {
                all.take(200)
            } else {
                all
            }
        }),
    decreases values.len(),
{
    if values.len() == 0 {
        assert(namespaces + namespaces_in(values) =~= namespaces);
    } else {
        let rest = values.drop_first();
        namespaces_are_arrays_of_texts(
            values[0],
            match values[0] {
                JsonView::Array(items) => items,
                _ => seq![],
            },
        );
        match levels_of(values[0]) {
            None => {
                two_hundred_namespaces_are_taken(namespaces, rest);
            },
            Some(levels) => {
                if namespaces.len() < 200 {
                    two_hundred_namespaces_are_taken(namespaces.push(levels), rest);
                    assert(namespaces.push(levels) + namespaces_in(rest) =~= namespaces
                        + namespaces_in(values));
                } else {
                    assert((namespaces + namespaces_in(values)).take(200) =~= namespaces);
                }
            },
        }
    }
}

/// The namespaces of a catalog are asked for first, and those in each namespace that was found then, in
/// the order in which they were found; the walk ends when none is left, or there were too many.
pub proof fn namespaces_are_asked_for_in_order(
    catalog: CatalogView,
    walk: WalkView,
    values: Seq<JsonView>,
    error: Seq<char>,
)
    ensures
        walk_step(catalog, NamespaceEventView::Start) matches NamespaceStepView::List(first, pager)
            && first.namespaces.len() == 0 && first.expanded == 0 && page_url(pager)
            == address_of_resource(catalog, "namespaces"@) && pager.field == "namespaces"@
            && !pager.has_query && pager.pages == 0 && pager.entries.len() == 0,
        walk_step(catalog, NamespaceEventView::Listed(walk, Err(error))) == NamespaceStepView::Done(
            Err(error),
        ),
        ({
            let (found, full) = taken_namespaces(walk.namespaces, values);
            let step = walk_step(catalog, NamespaceEventView::Listed(walk, Ok(values)));
            if full || walk.expanded >= found.len() {
                step == NamespaceStepView::Done(Ok(found))
            } else {
                step matches NamespaceStepView::List(next, pager) && next.namespaces == found
                    && next.expanded == walk.expanded + 1 && page_url(pager)
                    == address_of_resource(catalog, "namespaces"@) + "?parent="@ + joined(
                    Seq::new(
                        found[walk.expanded].len(),
                        |i: int| encoded(found[walk.expanded][i]),
                    ),
                    catalog.namespace_separator,
                ) && pager.field == "namespaces"@ && pager.has_query && pager.pages == 0
                    && pager.entries.len() == 0
            }
        }),
{
    let (found, full) = taken_namespaces(walk.namespaces, values);
    let parent = found[walk.expanded];
    let each = Seq::new(parent.len(), |i: int| encoded(parent[i]));
    assert(crate::url::encoded_each(parent) =~= each);
    assert(encoded_namespace(parent, catalog.namespace_separator) == joined(
        each,
        catalog.namespace_separator,
    ));
}

/// The names of the entries of a listing of tables, in order: those whose `name` is a text.
pub open spec fn names_in(entries: Seq<JsonView>) -> Seq<Seq<char>>
    decreases entries.len(),
{
    if entries.len() == 0 {
        seq![]
    } else {
        match member(entries[0], "name"@) {
            Some(JsonView::Text(name)) => seq![name] + names_in(entries.drop_first()),
            _ => names_in(entries.drop_first()),
        }
    }
}

proof fn lemma_names_first(entries: Seq<JsonView>)
    requires
        entries.len() > 0,
    ensures
        crate::listing::entry_names(entries) == match member(entries[0], "name"@) {
            Some(JsonView::Text(name)) => seq![name] + crate::listing::entry_names(
                entries.drop_first(),
            ),
            _ => crate::listing::entry_names(entries.drop_first()),
        },
    decreases entries.len(),
{
    let rest = entries.drop_first();
    if entries.len() == 1 {
        assert(entries.drop_last() =~= rest);
        assert(crate::listing::entry_names(rest) =~= seq![]);
        assert(crate::listing::entry_names(entries) =~= match member(entries[0], "name"@) {
            Some(JsonView::Text(name)) => seq![name] + crate::listing::entry_names(rest),
            _ => crate::listing::entry_names(rest),
        });
    } else {
        let front = entries.drop_last();
        lemma_names_first(front);
        assert(front.drop_first() =~= rest.drop_last());
        assert(rest.last() == entries.last());
        assert(crate::listing::entry_names(entries) =~= match member(entries[0], "name"@) {
            Some(JsonView::Text(name)) => seq![name] + crate::listing::entry_names(rest),
            _ => crate::listing::entry_names(rest),
        });
    }
}

proof fn lemma_names(entries: Seq<JsonView>)
    ensures
        crate::listing::entry_names(entries) == names_in(entries),
    decreases entries.len(),
{
    if entries.len() > 0 {
        lemma_names_first(entries);
        lemma_names(entries.drop_first());
    }
}

/// The tables of a namespace are the names of the entries of its listing, in order.
pub proof fn tables_are_the_names_listed(entries: Seq<JsonView>, error: Seq<char>)
    ensures
        tables_outcome(Ok(entries)) == Ok::<Seq<Seq<char>>, Seq<char>>(names_in(entries)),
        tables_outcome(Err(error)) == Err::<Seq<Seq<char>>, Seq<char>>(error),
{
    lemma_names(entries);
}

/// A table is loaded as its metadata location, where that is a text, and the columns of its metadata.
pub proof fn tables_are_loaded(response: JsonView, error: Seq<char>)
    ensures
        table_outcome(Err(error)) == Err::<(Option<Seq<char>>, Seq<JsonView>), Seq<char>>(error),
        table_outcome(Ok(response)) matches Ok((location, columns)) && (match member(
            response,
            "metadata-location"@,
        ) {
            Some(JsonView::Text(place)) => location == Some(place),
            _ => location is None,
        }) && (match member(response, "metadata"@) {
            Some(metadata) => columns == columns_of(metadata),
            None => columns.len() == 0,
        }),
{
}

} // verus!

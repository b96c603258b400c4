//! Listing the namespaces and tables of a catalog.
//!
//! The pages of a listing are fetched outside of this library. A function here takes the answer to
//! what was asked for and says what to ask for next.
use crate::catalog::{CatalogView, RestCatalog};
use crate::catalog_http::{answered, resource_url};
use crate::json::{items_model, items_of, member, string_of, Json, JsonView};
use crate::schema::{columns_of, levels_of, namespace_levels, table_columns};
use crate::text;
use crate::text::{optional, texts};
use crate::url::{encode_component, encode_namespace, encoded, encoded_namespace};
use vstd::prelude::*;

verus! {

/// The most namespaces that are shown of a catalog.
pub const MAX_NAMESPACES: usize = 200;

/// The most pages that are fetched of one listing.
pub const MAX_PAGES_PER_LIST: usize = 50;

/// A listing whose pages are being fetched.
pub struct Pager {
    pub base_url: String,
    /// Whether the address has a query already.
    pub has_query: bool,
    /// The member of a page that holds its entries.
    pub field: String,
    /// The entries of the pages fetched so far.
    pub entries: Vec<Json>,
    /// The token of the page to fetch next; none for the first.
    pub page_token: Option<String>,
    /// The number of pages fetched so far.
    pub pages: usize,
}

/// What a listing stands for.
#[verifier::ext_equal]
pub struct PagerView {
    pub base_url: Seq<char>,
    pub has_query: bool,
    pub field: Seq<char>,
    pub entries: Seq<JsonView>,
    pub page_token: Option<Seq<char>>,
    pub pages: int,
}

impl View for Pager {
    type V = PagerView;

    open spec fn view(&self) -> PagerView {
        PagerView {
            base_url: self.base_url@,
            has_query: self.has_query,
            field: self.field@,
            entries: items_model(self.entries@),
            page_token: optional(self.page_token),
            pages: self.pages as int,
        }
    }
}

/// What is to be done after a page of a listing came.
pub enum PageStep {
    /// Fetch the next page.
    Fetch(Pager),
    /// Nothing: these are the entries.
    Done(Result<Vec<Json>, String>),
}

/// What a step of a listing stands for.
pub enum PageStepView {
    Fetch(PagerView),
    Done(Result<Seq<JsonView>, Seq<char>>),
}

/// What the entries of a listing stand for.
pub open spec fn entries_result(result: Result<Vec<Json>, String>) -> Result<
    Seq<JsonView>,
    Seq<char>,
> {
    match result {
        Ok(entries) => Ok(items_model(entries@)),
        Err(message) => Err(message@),
    }
}

impl View for PageStep {
    type V = PageStepView;

    open spec fn view(&self) -> PageStepView {
        match self {
            PageStep::Fetch(pager) => PageStepView::Fetch(pager@),
            PageStep::Done(result) => PageStepView::Done(entries_result(*result)),
        }
    }
}

/// A listing before its first page.
pub open spec fn first_page(base_url: Seq<char>, has_query: bool, field: Seq<char>) -> PagerView {
    PagerView { base_url, has_query, field, entries: seq![], page_token: None, pages: 0 }
}

/// The address of the page to fetch next.
pub open spec fn page_url(pager: PagerView) -> Seq<char> {
    match pager.page_token {
        None => pager.base_url,
        Some(token) => pager.base_url + (if pager.has_query || pager.base_url.contains('?') {
            "&"@
        } else {
            "?"@
        }) + "pageToken="@ + encoded(token),
    }
}

/// The entries that a page holds.
pub open spec fn page_entries(page: JsonView, field: Seq<char>) -> Seq<JsonView> {
    match items_of(member(page, field)) {
        Some(entries) => entries,
        None => seq![],
    }
}

/// The token of the page after a page, if there is one.
pub open spec fn next_token(page: JsonView) -> Option<Seq<char>> {
    match string_of(member(page, "next-page-token"@)) {
        Some(token) => if token.len() > 0 {
            Some(token)
        } else {
            None
        },
        None => None,
    }
}

/// What follows the answer to a page of a listing.
pub open spec fn page_step(pager: PagerView, answer: Result<JsonView, Seq<char>>) -> PageStepView {
    match answer {
        Err(message) => PageStepView::Done(Err(message)),
        Ok(page) => {
            let entries = pager.entries + page_entries(page, pager.field);
            if next_token(page) is Some && pager.pages + 1 < MAX_PAGES_PER_LIST {
                PageStepView::Fetch(
                    PagerView {
                        entries,
                        page_token: next_token(page),
                        pages: pager.pages + 1,
                        ..pager
                    },
                )
            } else {
                PageStepView::Done(Ok(entries))
            }
        },
    }
}

impl Pager {
    /// A listing before its first page.
    pub fn start(base_url: &str, has_query: bool, field: &str) -> (pager: Pager)
        ensures
            pager@ == first_page(base_url@, has_query, field@),
    {
        let pager = Pager {
            base_url: base_url.to_string(),
            has_query,
            field: field.to_string(),
            entries: Vec::new(),
            page_token: None,
            pages: 0,
        };
        assert(pager@.entries =~= seq![]);
        pager
    }

    /// The address of the page to fetch next.
    pub fn url(&self) -> (out: String)
        ensures
            out@ == page_url(self@),
    {
        match &self.page_token {
            None => self.base_url.clone(),
            Some(token) => self.base_url.clone().concat(
                if self.has_query || text::contains_char(self.base_url.as_str(), '?') {
                    "&"
                } else {
                    "?"
                },
            ).concat("pageToken=").concat(encode_component(token.as_str()).as_str()),
        }
    }

    /// Takes the answer to a page of the listing.
    pub fn paged(self, answer: Result<Json, String>) -> (step: PageStep)
        ensures
            step@ == page_step(self@, answered(answer)),
    {
        let page = match answer {
            Ok(page) => page,
            Err(message) => {
                return PageStep::Done(Err(message));
            },
        };
        let mut entries = self.entries;
        let ghost before = items_model(entries@);
        if let Some(value) = page.get(self.field.as_str()) {
            if let Some(values) = value.as_array() {
                let mut more = crate::json::items_copy(values);
                let ghost old_entries = entries@;
                let ghost old_more = more@;
                entries.append(&mut more);
                assert(items_model(old_entries + old_more) =~= items_model(old_entries)
                    + items_model(old_more));
            }
        }
        assert(items_model(entries@) =~= before + page_entries(page@, self.field@));
        if let Some(token) = page.text_at("next-page-token") {
            if !token.is_empty() && self.pages < MAX_PAGES_PER_LIST - 1 {
                return PageStep::Fetch(
                    Pager {
                        base_url: self.base_url,
                        has_query: self.has_query,
                        field: self.field,
                        entries,
                        page_token: Some(token.to_string()),
                        pages: self.pages + 1,
                    },
                );
            }
        }
        PageStep::Done(Ok(entries))
    }
}

/// A walk over the namespaces of a catalog, level by level: the namespaces found so far, in the
/// order in which their parts are asked for, and how many of them have been asked for.
pub struct NamespaceWalk {
    pub namespaces: Vec<Vec<String>>,
    pub expanded: usize,
}

/// What a walk stands for.
#[verifier::ext_equal]
pub struct WalkView {
    pub namespaces: Seq<Seq<Seq<char>>>,
    pub expanded: int,
}

/// What a list of namespaces stands for.
pub open spec fn all_levels(namespaces: Seq<Vec<String>>) -> Seq<Seq<Seq<char>>> {
    Seq::new(namespaces.len(), |i: int| texts(namespaces[i]@))
}

impl View for NamespaceWalk {
    type V = WalkView;

    open spec fn view(&self) -> WalkView {
        WalkView { namespaces: all_levels(self.namespaces@), expanded: self.expanded as int }
    }
}

/// What came back in a walk.
pub enum NamespaceEvent {
    /// Nothing: the walk begins.
    Start,
    /// The entries of the listing that the walk asked for.
    Listed(NamespaceWalk, Result<Vec<Json>, String>),
}

/// What an event of a walk stands for.
pub enum NamespaceEventView {
    Start,
    Listed(WalkView, Result<Seq<JsonView>, Seq<char>>),
}

impl View for NamespaceEvent {
    type V = NamespaceEventView;

    open spec fn view(&self) -> NamespaceEventView {
        match self {
            NamespaceEvent::Start => NamespaceEventView::Start,
            NamespaceEvent::Listed(walk, answer) => NamespaceEventView::Listed(
                walk@,
                entries_result(*answer),
            ),
        }
    }
}

/// What is to be done next in a walk.
pub enum NamespaceStep {
    /// Fetch a listing.
    List(NamespaceWalk, Pager),
    /// Nothing: these are the namespaces.
    Done(Result<Vec<Vec<String>>, String>),
}

/// What a step of a walk stands for.
pub enum NamespaceStepView {
    List(WalkView, PagerView),
    Done(Result<Seq<Seq<Seq<char>>>, Seq<char>>),
}

/// What the namespaces of a catalog stand for.
pub open spec fn namespaces_result(result: Result<Vec<Vec<String>>, String>) -> Result<
    Seq<Seq<Seq<char>>>,
    Seq<char>,
> {
    match result {
        Ok(namespaces) => Ok(all_levels(namespaces@)),
        Err(message) => Err(message@),
    }
}

impl View for NamespaceStep {
    type V = NamespaceStepView;

    open spec fn view(&self) -> NamespaceStepView {
        match self {
            NamespaceStep::List(walk, pager) => NamespaceStepView::List(walk@, pager@),
            NamespaceStep::Done(result) => NamespaceStepView::Done(namespaces_result(*result)),
        }
    }
}

/// The namespaces after the entries of a listing were taken, and whether there was one too many.
pub open spec fn taken_namespaces(namespaces: Seq<Seq<Seq<char>>>, values: Seq<JsonView>) -> (
    Seq<Seq<Seq<char>>>,
    bool,
)
    decreases values.len(),
{
    if values.len() == 0 {
        (namespaces, false)
    } else {
        match levels_of(values[0]) {
            None => taken_namespaces(namespaces, values.drop_first()),
            Some(levels) => if namespaces.len() >= MAX_NAMESPACES {
                (namespaces, true)
            } else {
                taken_namespaces(namespaces.push(levels), values.drop_first())
            },
        }
    }
}

/// The address of the listing of the namespaces in a namespace.
pub open spec fn children_url(catalog: CatalogView, parent: Seq<Seq<char>>) -> Seq<char> {
    resource_url(catalog, "namespaces"@) + "?parent="@ + encoded_namespace(
        parent,
        catalog.namespace_separator,
    )
}

/// What follows an event of a walk: each namespace found is asked for the namespaces in it, in the
/// order in which they were found, until none is left or there are too many.
pub open spec fn walk_step(catalog: CatalogView, event: NamespaceEventView) -> NamespaceStepView {
    match event {
        NamespaceEventView::Start => NamespaceStepView::List(
            WalkView { namespaces: seq![], expanded: 0 },
            first_page(resource_url(catalog, "namespaces"@), false, "namespaces"@),
        ),
        NamespaceEventView::Listed(_, Err(message)) => NamespaceStepView::Done(Err(message)),
        NamespaceEventView::Listed(walk, Ok(values)) => {
            let (namespaces, full) = taken_namespaces(walk.namespaces, values);
            if !full && walk.expanded < namespaces.len() {
                NamespaceStepView::List(
                    WalkView { namespaces, expanded: walk.expanded + 1 },
                    first_page(
                        children_url(catalog, namespaces[walk.expanded]),
                        true,
                        "namespaces"@,
                    ),
                )
            } else {
                NamespaceStepView::Done(Ok(namespaces))
            }
        },
    }
}

/// Takes the entries of a listing of namespaces, and says whether there was one too many.
fn take_namespaces(namespaces: &mut Vec<Vec<String>>, values: &Vec<Json>) -> (full: bool)
    ensures
        taken_namespaces(all_levels(old(namespaces)@), items_model(values@)) == (
            all_levels(final(namespaces)@),
            full,
        ),
{
    let ghost start = all_levels(namespaces@);
    let ghost all = items_model(values@);
    let mut i: usize = 0;
    assert(all.skip(0) =~= all);
    while i < values.len()
        invariant
            i <= values.len(),
            all == items_model(values@),
            start == all_levels(old(namespaces)@),
            taken_namespaces(start, all) == taken_namespaces(
                all_levels(namespaces@),
                all.skip(i as int),
            ),
        decreases values.len() - i,
    {
        let ghost before = all_levels(namespaces@);
        assert(all.skip(i as int).drop_first() =~= all.skip(i + 1));
        if let Some(levels) = namespace_levels(&values[i]) {
            if namespaces.len() >= MAX_NAMESPACES {
                return true;
            }
            let ghost found = texts(levels@);
            namespaces.push(levels);
            assert(all_levels(namespaces@) =~= before.push(found));
        }
        i += 1;
    }
    false
}

impl RestCatalog {
    /// What follows an event of a walk over the namespaces of the catalog.
    pub fn list_namespaces(&self, event: NamespaceEvent) -> (step: NamespaceStep)
        ensures
            step@ == walk_step(self@, event@),
    {
        match event {
            NamespaceEvent::Start => {
                let walk = NamespaceWalk { namespaces: Vec::new(), expanded: 0 };
                assert(walk@.namespaces =~= seq![]);
                let url = self.v1_url("namespaces");
                NamespaceStep::List(walk, Pager::start(url.as_str(), false, "namespaces"))
            },
            NamespaceEvent::Listed(_, Err(message)) => NamespaceStep::Done(Err(message)),
            NamespaceEvent::Listed(walk, Ok(values)) => {
                let mut namespaces = walk.namespaces;
                let full = take_namespaces(&mut namespaces, &values);
                if !full && walk.expanded < namespaces.len() {
                    let url = self.v1_url("namespaces").concat("?parent=").concat(
                        encode_namespace(
                            namespaces[walk.expanded].as_slice(),
                            self.namespace_separator.as_str(),
                        ).as_str(),
                    );
                    NamespaceStep::List(
                        NamespaceWalk { namespaces, expanded: walk.expanded + 1 },
                        Pager::start(url.as_str(), true, "namespaces"),
                    )
                } else {
                    NamespaceStep::Done(Ok(namespaces))
                }
            },
        }
    }

    /// The listing of the tables in a namespace, before its first page.
    pub fn tables_pager(&self, namespace: &[String]) -> (pager: Pager)
        ensures
            pager@ == first_page(
                tables_address(self@, texts(namespace@)),
                false,
                "identifiers"@,
            ),
    {
        let url = self.v1_url(
            "namespaces/".to_string().concat(
                encode_namespace(namespace, self.namespace_separator.as_str()).as_str(),
            ).concat("/tables").as_str(),
        );
        Pager::start(url.as_str(), false, "identifiers")
    }

    /// The address of a table.
    pub fn table_url(&self, namespace: &[String], table: &str) -> (url: String)
        ensures
            url@ == table_address(self@, texts(namespace@), table@),
    {
        self.v1_url(
            "namespaces/".to_string().concat(
                encode_namespace(namespace, self.namespace_separator.as_str()).as_str(),
            ).concat("/tables/").concat(encode_component(table).as_str()).as_str(),
        )
    }
}

/// The address of the listing of the tables in a namespace.
pub open spec fn tables_address(catalog: CatalogView, namespace: Seq<Seq<char>>) -> Seq<char> {
    resource_url(
        catalog,
        "namespaces/"@ + encoded_namespace(namespace, catalog.namespace_separator) + "/tables"@,
    )
}

/// The address of a table.
pub open spec fn table_address(
    catalog: CatalogView,
    namespace: Seq<Seq<char>>,
    table: Seq<char>,
) -> Seq<char> {
    resource_url(
        catalog,
        "namespaces/"@ + encoded_namespace(namespace, catalog.namespace_separator) + "/tables/"@
            + encoded(table),
    )
}

/// The names of the entries of a listing of tables that have one.
pub open spec fn entry_names(entries: Seq<JsonView>) -> Seq<Seq<char>>
    decreases entries.len(),
{
    if entries.len() == 0 {
        seq![]
    } else {
        let front = entry_names(entries.drop_last());
        match string_of(member(entries.last(), "name"@)) {
            Some(name) => front.push(name),
            None => front,
        }
    }
}

/// The names of the tables in a listing, where the listing could be fetched.
pub open spec fn tables_outcome(listing: Result<Seq<JsonView>, Seq<char>>) -> Result<
    Seq<Seq<char>>,
    Seq<char>,
> {
    match listing {
        Ok(entries) => Ok(entry_names(entries)),
        Err(message) => Err(message),
    }
}

/// What a list of names stands for.
pub open spec fn names_result(result: Result<Vec<String>, String>) -> Result<
    Seq<Seq<char>>,
    Seq<char>,
> {
    match result {
        Ok(names) => Ok(texts(names@)),
        Err(message) => Err(message@),
    }
}

/// The names of the tables in a listing, where the listing could be fetched.
pub fn list_tables(listing: Result<Vec<Json>, String>) -> (tables: Result<Vec<String>, String>)
    ensures
        names_result(tables) == tables_outcome(entries_result(listing)),
{
    let entries = match listing {
        Ok(entries) => entries,
        Err(message) => {
            return Err(message);
        },
    };
    let ghost all = items_model(entries@);
    let mut tables: Vec<String> = Vec::new();
    let mut i: usize = 0;
    assert(all.take(0) =~= seq![]);
    assert(texts(tables@) =~= seq![]);
    while i < entries.len()
        invariant
            i <= entries.len(),
            all == items_model(entries@),
            texts(tables@) == entry_names(all.take(i as int)),
        decreases entries.len() - i,
    {
        let ghost before = texts(tables@);
        assert(all.take(i + 1).drop_last() =~= all.take(i as int));
        if let Some(name) = entries[i].text_at("name") {
            tables.push(name.to_string());
            assert(texts(tables@) =~= before.push(name@));
        }
        i += 1;
    }
    assert(all.take(i as int) =~= all);
    Ok(tables)
}

/// The columns in the answer about a table.
pub open spec fn loaded_columns(response: JsonView) -> Seq<JsonView> {
    match member(response, "metadata"@) {
        Some(metadata) => columns_of(metadata),
        None => seq![],
    }
}

/// The metadata location and the columns in the answer about a table, where there is one.
pub open spec fn table_outcome(answer: Result<JsonView, Seq<char>>) -> Result<
    (Option<Seq<char>>, Seq<JsonView>),
    Seq<char>,
> {
    match answer {
        Ok(response) => Ok(
            (string_of(member(response, "metadata-location"@)), loaded_columns(response)),
        ),
        Err(message) => Err(message),
    }
}

/// What a loaded table stands for.
pub open spec fn loaded_result(
    result: Result<(Option<String>, Vec<Json>), String>,
) -> Result<(Option<Seq<char>>, Seq<JsonView>), Seq<char>> {
    match result {
        Ok((location, columns)) => Ok((optional(location), items_model(columns@))),
        Err(message) => Err(message@),
    }
}

/// The metadata location and the columns in the answer about a table, where there is one.
pub fn load_table(answer: Result<Json, String>) -> (loaded: Result<
    (Option<String>, Vec<Json>),
    String,
>)
    ensures
        loaded_result(loaded) == table_outcome(answered(answer)),
{
    let response = match answer {
        Ok(response) => response,
        Err(message) => {
            return Err(message);
        },
    };
    let metadata_location = match response.text_at("metadata-location") {
        Some(location) => Some(location.to_string()),
        None => None,
    };
    let columns = match response.get("metadata") {
        Some(metadata) => table_columns(metadata),
        None => {
            let none: Vec<Json> = Vec::new();
            assert(items_model(none@) =~= seq![]);
            none
        },
    };
    Ok((metadata_location, columns))
}

/// The pages of a listing that are fetched, of the pages that the catalog would give one after the
/// other.
pub open spec fn pages_fetched(pages: Seq<JsonView>, room: int) -> int
    decreases pages.len(),
{
    if pages.len() == 0 || room <= 0 {
        0
    } else if next_token(pages[0]) is None {
        1
    } else {
        1 + pages_fetched(pages.drop_first(), room - 1)
    }
}

/// The entries of pages, in order.
pub open spec fn all_entries(pages: Seq<JsonView>, field: Seq<char>) -> Seq<JsonView>
    decreases pages.len(),
{
    if pages.len() == 0 {
        seq![]
    } else {
        page_entries(pages[0], field) + all_entries(pages.drop_first(), field)
    }
}

/// The entries of a listing whose pages are answered one after the other; nothing where a page is
/// asked for that is not there.
pub open spec fn listed_entries(pager: PagerView, pages: Seq<JsonView>) -> Option<Seq<JsonView>>
    decreases pages.len(),
{
    if pages.len() == 0 {
        None
    } else {
        match page_step(pager, Ok(pages[0])) {
            PageStepView::Fetch(next) => listed_entries(next, pages.drop_first()),
            PageStepView::Done(Ok(entries)) => Some(entries),
            PageStepView::Done(Err(_)) => None,
        }
    }
}

proof fn lemma_pages_fetched(pages: Seq<JsonView>, room: int)
    ensures
        0 <= pages_fetched(pages, room) <= pages.len(),
        room >= 0 ==> pages_fetched(pages, room) <= room,
    decreases pages.len(),
{
    if pages.len() > 0 && room > 0 {
        lemma_pages_fetched(pages.drop_first(), room - 1);
    }
}

proof fn lemma_listed_entries(pager: PagerView, pages: Seq<JsonView>)
    requires
        0 <= pager.pages < MAX_PAGES_PER_LIST,
        listed_entries(pager, pages) is Some,
    ensures
        listed_entries(pager, pages) == Some(
            pager.entries + all_entries(
                pages.take(pages_fetched(pages, MAX_PAGES_PER_LIST - pager.pages)),
                pager.field,
            ),
        ),
    decreases pages.len(),
{
    let room = MAX_PAGES_PER_LIST - pager.pages;
    lemma_pages_fetched(pages, room);
    let count = pages_fetched(pages, room);
    let first = page_entries(pages[0], pager.field);
    let shown = pages.take(count);
    let rest = pages.drop_first();
    lemma_pages_fetched(rest, room - 1);
    assert(shown.drop_first() =~= rest.take(count - 1));
    match page_step(pager, Ok(pages[0])) {
        PageStepView::Fetch(next) => {
            lemma_listed_entries(next, rest);
            assert(next.entries + all_entries(rest.take(count - 1), pager.field) =~= pager.entries
                + (first + all_entries(rest.take(count - 1), pager.field)));
        },
        _ => {
            if room == 1 && next_token(pages[0]) is Some {
                assert(pages_fetched(rest, 0) == 0);
            }
            assert(rest.take(0) =~= seq![]);
            assert(all_entries(rest.take(0), pager.field) =~= seq![]);
            assert(pager.entries + first =~= pager.entries + (first + all_entries(
                rest.take(0),
                pager.field,
            )));
        },
    }
}

/// A listing gives the entries of its pages in order, up to the first page that no other follows, and
/// of no more pages than are fetched of one listing.
pub proof fn listings_follow_their_pages(
    base_url: Seq<char>,
    has_query: bool,
    field: Seq<char>,
    pages: Seq<JsonView>,
)
    ensures
        pages_fetched(pages, MAX_PAGES_PER_LIST as int) <= MAX_PAGES_PER_LIST,
        listed_entries(first_page(base_url, has_query, field), pages) matches Some(entries)
            ==> entries == all_entries(
            pages.take(pages_fetched(pages, MAX_PAGES_PER_LIST as int)),
            field,
        ),
{
    let pager = first_page(base_url, has_query, field);
    lemma_pages_fetched(pages, MAX_PAGES_PER_LIST as int);
    if listed_entries(pager, pages) is Some {
        lemma_listed_entries(pager, pages);
        let shown = pages.take(pages_fetched(pages, MAX_PAGES_PER_LIST as int));
        assert(pager.entries + all_entries(shown, field) =~= all_entries(shown, field));
    }
}

/// A listing comes to its end: with as many pages at hand as are fetched of one, it needs no more.
pub proof fn listings_end(
    base_url: Seq<char>,
    has_query: bool,
    field: Seq<char>,
    pages: Seq<JsonView>,
)
    requires
        pages.len() >= MAX_PAGES_PER_LIST,
    ensures
        listed_entries(first_page(base_url, has_query, field), pages) is Some,
{
    lemma_listing_ends(first_page(base_url, has_query, field), pages);
}

proof fn lemma_listing_ends(pager: PagerView, pages: Seq<JsonView>)
    requires
        0 <= pager.pages < MAX_PAGES_PER_LIST,
        pages.len() >= MAX_PAGES_PER_LIST - pager.pages,
    ensures
        listed_entries(pager, pages) is Some,
    decreases pages.len(),
{
    if let PageStepView::Fetch(next) = page_step(pager, Ok(pages[0])) {
        lemma_listing_ends(next, pages.drop_first());
    }
}

/// Whether a walk is one that can come about: there are not too many namespaces, none is without
/// levels, and no more were asked for than were found.
pub open spec fn walk_valid(walk: WalkView) -> bool {
    &&& 0 <= walk.expanded <= walk.namespaces.len() <= MAX_NAMESPACES
    &&& forall|i: int| 0 <= i < walk.namespaces.len() ==> (#[trigger] walk.namespaces[i]).len() > 0
}

proof fn lemma_taken_namespaces(namespaces: Seq<Seq<Seq<char>>>, values: Seq<JsonView>)
    requires
        namespaces.len() <= MAX_NAMESPACES,
        forall|i: int| 0 <= i < namespaces.len() ==> (#[trigger] namespaces[i]).len() > 0,
    ensures
        ({
            let (after, _) = taken_namespaces(namespaces, values);
            &&& namespaces.is_prefix_of(after)
            &&& after.len() <= MAX_NAMESPACES
            &&& forall|i: int| 0 <= i < after.len() ==> (#[trigger] after[i]).len() > 0
        }),
    decreases values.len(),
{
    if values.len() > 0 {
        match levels_of(values[0]) {
            None => {
                lemma_taken_namespaces(namespaces, values.drop_first());
            },
            Some(levels) => {
                if namespaces.len() < MAX_NAMESPACES {
                    let more = namespaces.push(levels);
                    lemma_taken_namespaces(more, values.drop_first());
                    let (after, _) = taken_namespaces(more, values.drop_first());
                    assert(after.subrange(0, namespaces.len() as int) =~= namespaces) by {
                        assert forall|i: int| 0 <= i < namespaces.len() implies after[i]
                            == namespaces[i] by {
                            assert(after.subrange(0, more.len() as int)[i] == more[i]);
                        }
                    }
                } else {
                    assert(namespaces.subrange(0, namespaces.len() as int) =~= namespaces);
                }
            },
        }
    } else {
        assert(namespaces.subrange(0, namespaces.len() as int) =~= namespaces);
    }
}

/// A walk over namespaces shows no more of them than the limit, each with a level, and keeps those
/// that it has found in their order; with each listing it comes one namespace closer to its end.
pub proof fn walks_stay_in_bounds(
    catalog: CatalogView,
    walk: WalkView,
    values: Seq<JsonView>,
)
    requires
        walk_valid(walk),
    ensures
        match walk_step(catalog, NamespaceEventView::Listed(walk, Ok(values))) {
            NamespaceStepView::List(next, _) => walk_valid(next) && walk.namespaces.is_prefix_of(
                next.namespaces,
            ) && next.expanded == walk.expanded + 1,
            NamespaceStepView::Done(Ok(namespaces)) => walk.namespaces.is_prefix_of(namespaces)
                && walk_valid(WalkView { namespaces, expanded: walk.expanded }),
            NamespaceStepView::Done(Err(_)) => false,
        },
        walk_step(catalog, NamespaceEventView::Start) matches NamespaceStepView::List(first, _)
            && walk_valid(first),
{
    lemma_taken_namespaces(walk.namespaces, values);
}

/// The namespaces that a walk ends with when its listings are answered one after the other; nothing
/// where a listing is asked for that is not there.
pub open spec fn walk_result(
    catalog: CatalogView,
    step: NamespaceStepView,
    listings: Seq<Seq<JsonView>>,
) -> Option<Seq<Seq<Seq<char>>>>
    decreases listings.len(),
{
    match step {
        NamespaceStepView::Done(Ok(namespaces)) => Some(namespaces),
        NamespaceStepView::Done(Err(_)) => None,
        NamespaceStepView::List(walk, _) => if listings.len() == 0 {
            None
        } else {
            walk_result(
                catalog,
                walk_step(catalog, NamespaceEventView::Listed(walk, Ok(listings[0]))),
                listings.drop_first(),
            )
        },
    }
}

/// How many listings a walk asks for when they are answered one after the other.
pub open spec fn walk_listings(
    catalog: CatalogView,
    step: NamespaceStepView,
    listings: Seq<Seq<JsonView>>,
) -> int
    decreases listings.len(),
{
    match step {
        NamespaceStepView::Done(_) => 0,
        NamespaceStepView::List(walk, _) => if listings.len() == 0 {
            0
        } else {
            1 + walk_listings(
                catalog,
                walk_step(catalog, NamespaceEventView::Listed(walk, Ok(listings[0]))),
                listings.drop_first(),
            )
        },
    }
}

proof fn lemma_taken_append(
    namespaces: Seq<Seq<Seq<char>>>,
    values: Seq<JsonView>,
    more: Seq<JsonView>,
)
    ensures
        ({
            let (after, full) = taken_namespaces(namespaces, values);
            taken_namespaces(namespaces, values + more) == if full {
                (after, full)
            } else {
                taken_namespaces(after, more)
            }
        }),
    decreases values.len(),
{
    if values.len() == 0 {
        assert(values + more =~= more);
    } else {
        let rest = values.drop_first();
        assert((values + more).drop_first() =~= rest + more);
        assert((values + more)[0] == values[0]);
        match levels_of(values[0]) {
            None => {
                lemma_taken_append(namespaces, rest, more);
            },
            Some(levels) => {
                if namespaces.len() < MAX_NAMESPACES {
                    lemma_taken_append(namespaces.push(levels), rest, more);
                }
            },
        }
    }
}

proof fn lemma_walk_listings(
    catalog: CatalogView,
    walk: WalkView,
    pager: PagerView,
    listings: Seq<Seq<JsonView>>,
)
    requires
        walk_valid(walk),
    ensures
        ({
            let step = NamespaceStepView::List(walk, pager);
            let count = walk_listings(catalog, step, listings);
            let (taken, full) = taken_namespaces(
                walk.namespaces,
                listings.take(count).flatten(),
            );
            &&& 0 <= count <= listings.len()
            &&& walk_result(catalog, step, listings) matches Some(namespaces) ==> namespaces
                == taken && walk.expanded + count <= namespaces.len() + 1 && (!full ==> walk.expanded
                + count == namespaces.len() + 1)
        }),
    decreases listings.len(),
{
    let step = NamespaceStepView::List(walk, pager);
    let count = walk_listings(catalog, step, listings);
    if listings.len() > 0 {
        let rest = listings.drop_first();
        let next = walk_step(catalog, NamespaceEventView::Listed(walk, Ok(listings[0])));
        let (after, full) = taken_namespaces(walk.namespaces, listings[0]);
        walks_stay_in_bounds(catalog, walk, listings[0]);
        lemma_taken_namespaces(walk.namespaces, listings[0]);
        match next {
            NamespaceStepView::List(further, page) => {
                lemma_walk_listings(catalog, further, page, rest);
                let shown = listings.take(count);
                assert(shown.drop_first() =~= rest.take(count - 1));
                assert(shown.flatten() == listings[0] + rest.take(count - 1).flatten());
                lemma_taken_append(
                    walk.namespaces,
                    listings[0],
                    rest.take(count - 1).flatten(),
                );
            },
            NamespaceStepView::Done(_) => {
                assert(walk_listings(catalog, next, rest) == 0);
                assert(walk_result(catalog, next, rest) == Some(after));
                let shown = listings.take(1);
                assert(shown.drop_first() =~= Seq::empty());
                assert(shown.drop_first().flatten() =~= Seq::empty());
                assert(shown.flatten() =~= listings[0]);
            },
        }
    }
}

/// A walk finds the namespaces that its listings hold, in their order, up to the limit; it asks for one
/// listing more than it finds namespaces, the first for the catalog and then one for each namespace,
/// unless the limit ends it sooner.
pub proof fn walks_find_every_namespace(catalog: CatalogView, listings: Seq<Seq<JsonView>>)
    ensures
        ({
            let step = walk_step(catalog, NamespaceEventView::Start);
            let count = walk_listings(catalog, step, listings);
            let (taken, full) = taken_namespaces(seq![], listings.take(count).flatten());
            walk_result(catalog, step, listings) matches Some(namespaces) ==> namespaces == taken
                && count <= namespaces.len() + 1 && (!full ==> count == namespaces.len() + 1)
        }),
{
    if let NamespaceStepView::List(walk, pager) = walk_step(catalog, NamespaceEventView::Start) {
        lemma_walk_listings(catalog, walk, pager, listings);
    }
}

proof fn lemma_walk_ends(
    catalog: CatalogView,
    walk: WalkView,
    pager: PagerView,
    listings: Seq<Seq<JsonView>>,
)
    requires
        walk_valid(walk),
        listings.len() > MAX_NAMESPACES - walk.expanded,
    ensures
        walk_result(catalog, NamespaceStepView::List(walk, pager), listings) is Some,
    decreases listings.len(),
{
    walks_stay_in_bounds(catalog, walk, listings[0]);
    let next = walk_step(catalog, NamespaceEventView::Listed(walk, Ok(listings[0])));
    match next {
        NamespaceStepView::List(further, page) => {
            lemma_walk_ends(catalog, further, page, listings.drop_first());
        },
        NamespaceStepView::Done(_) => {
            assert(walk_result(catalog, next, listings.drop_first()) is Some);
        },
    }
}

/// A walk comes to its end: with one listing more at hand than there can be namespaces, it needs no
/// more.
pub proof fn walks_end(catalog: CatalogView, listings: Seq<Seq<JsonView>>)
    requires
        listings.len() > MAX_NAMESPACES,
    ensures
        walk_result(catalog, walk_step(catalog, NamespaceEventView::Start), listings) is Some,
{
    if let NamespaceStepView::List(walk, pager) = walk_step(catalog, NamespaceEventView::Start) {
        lemma_walk_ends(catalog, walk, pager, listings);
    }
}

} // verus!

//! Bringing a session in line with a catalog: its tables are listed and loaded, each is exposed as a
//! view, and all are described in a metadata document.
//!
//! The catalog and the session are asked outside of this library. `sync` takes what came back and
//! says what comes next.
use crate::catalog::{table_view, CatalogView, RestCatalog};
use crate::document::{
    apart, document, document_view, object, object_view, place, placed,
    placing_keeps_schemas_apart, schemas_view,
};
use crate::json::{items_model, Json, JsonView};
use crate::listing::{all_levels, loaded_result, names_result, namespaces_result};
use crate::sql::{create_table_view, table_view_sql};
use crate::text;
use crate::text::{decimal_of, joined, texts};
use vstd::prelude::*;

verus! {

/// The most tables that are shown of a catalog.
pub const MAX_TABLES: usize = 500;

/// How far a session is brought in line.
pub struct SyncRun {
    pub namespaces: Vec<Vec<String>>,
    /// How many of the namespaces have been asked for their tables.
    pub listed: usize,
    pub tables: Vec<(Vec<String>, String)>,
    /// How many of the tables have been asked for.
    pub next: usize,
    pub schemas: Vec<(String, Vec<Json>)>,
    pub warnings: Vec<String>,
}

/// What a run stands for.
#[verifier::ext_equal]
pub struct SyncView {
    pub namespaces: Seq<Seq<Seq<char>>>,
    pub listed: int,
    pub tables: Seq<(Seq<Seq<char>>, Seq<char>)>,
    pub next: int,
    pub schemas: Seq<(Seq<char>, Seq<JsonView>)>,
    pub warnings: Seq<Seq<char>>,
}

/// What qualified tables stand for.
pub open spec fn tables_view(tables: Seq<(Vec<String>, String)>) -> Seq<
    (Seq<Seq<char>>, Seq<char>),
> {
    Seq::new(tables.len(), |i: int| table_view(tables[i]))
}

impl View for SyncRun {
    type V = SyncView;

    open spec fn view(&self) -> SyncView {
        SyncView {
            namespaces: all_levels(self.namespaces@),
            listed: self.listed as int,
            tables: tables_view(self.tables@),
            next: self.next as int,
            schemas: schemas_view(self.schemas@),
            warnings: texts(self.warnings@),
        }
    }
}

/// What came back while a session is brought in line.
pub enum SyncEvent {
    /// Nothing: it begins.
    Start,
    /// Whether the extension could be loaded that the session cannot do without, or the other.
    Extension(bool, Result<(), String>),
    /// The namespaces of the catalog.
    Namespaces(Result<Vec<Vec<String>>, String>),
    /// The tables in a namespace.
    Tables(SyncRun, Vec<String>, Result<Vec<String>, String>),
    /// The metadata location and the columns of a table.
    Table(SyncRun, Vec<String>, String, Result<(Option<String>, Vec<Json>), String>),
    /// Whether the view of a table with these columns could be created.
    View(SyncRun, Vec<String>, String, Vec<Json>, Result<(), String>),
}

/// What is to be done next to bring a session in line.
pub enum SyncAction {
    /// Load an extension, without which the session can do or not.
    LoadExtension(String, bool),
    /// List the namespaces of the catalog.
    ListNamespaces,
    /// List the tables in a namespace.
    ListTables(SyncRun, Vec<String>),
    /// Load a table.
    LoadTable(SyncRun, Vec<String>, String),
    /// Execute the statements that create the view of a table with these columns.
    CreateView(SyncRun, Vec<String>, String, Vec<Json>, String),
    /// Nothing: this is the metadata document, and what went wrong on the way.
    Done(Result<(Json, Vec<String>), String>),
}

/// What an event stands for.
pub enum SyncEventView {
    Start,
    Extension(bool, Result<(), Seq<char>>),
    Namespaces(Result<Seq<Seq<Seq<char>>>, Seq<char>>),
    Tables(SyncView, Seq<Seq<char>>, Result<Seq<Seq<char>>, Seq<char>>),
    Table(
        SyncView,
        Seq<Seq<char>>,
        Seq<char>,
        Result<(Option<Seq<char>>, Seq<JsonView>), Seq<char>>,
    ),
    View(SyncView, Seq<Seq<char>>, Seq<char>, Seq<JsonView>, Result<(), Seq<char>>),
}

/// What an action stands for.
pub enum SyncActionView {
    LoadExtension(Seq<char>, bool),
    ListNamespaces,
    ListTables(SyncView, Seq<Seq<char>>),
    LoadTable(SyncView, Seq<Seq<char>>, Seq<char>),
    CreateView(SyncView, Seq<Seq<char>>, Seq<char>, Seq<JsonView>, Seq<char>),
    Done(Result<(JsonView, Seq<Seq<char>>), Seq<char>>),
}

/// What an outcome without a value stands for.
pub open spec fn done_result(result: Result<(), String>) -> Result<(), Seq<char>> {
    match result {
        Ok(_) => Ok(()),
        Err(message) => Err(message@),
    }
}

/// What a document with its warnings stands for.
pub open spec fn document_result(
    result: Result<(Json, Vec<String>), String>,
) -> Result<(JsonView, Seq<Seq<char>>), Seq<char>> {
    match result {
        Ok((json, warnings)) => Ok((json@, texts(warnings@))),
        Err(message) => Err(message@),
    }
}

impl View for SyncEvent {
    type V = SyncEventView;

    open spec fn view(&self) -> SyncEventView {
        match self {
            SyncEvent::Start => SyncEventView::Start,
            SyncEvent::Extension(required, result) => SyncEventView::Extension(
                *required,
                done_result(*result),
            ),
            SyncEvent::Namespaces(result) => SyncEventView::Namespaces(namespaces_result(*result)),
            SyncEvent::Tables(run, namespace, result) => SyncEventView::Tables(
                run@,
                texts(namespace@),
                names_result(*result),
            ),
            SyncEvent::Table(run, namespace, table, result) => SyncEventView::Table(
                run@,
                texts(namespace@),
                table@,
                loaded_result(*result),
            ),
            SyncEvent::View(run, namespace, table, columns, result) => SyncEventView::View(
                run@,
                texts(namespace@),
                table@,
                items_model(columns@),
                done_result(*result),
            ),
        }
    }
}

impl View for SyncAction {
    type V = SyncActionView;

    open spec fn view(&self) -> SyncActionView {
        match self {
            SyncAction::LoadExtension(name, required) => SyncActionView::LoadExtension(
                name@,
                *required,
            ),
            SyncAction::ListNamespaces => SyncActionView::ListNamespaces,
            SyncAction::ListTables(run, namespace) => SyncActionView::ListTables(
                run@,
                texts(namespace@),
            ),
            SyncAction::LoadTable(run, namespace, table) => SyncActionView::LoadTable(
                run@,
                texts(namespace@),
                table@,
            ),
            SyncAction::CreateView(run, namespace, table, columns, sql) =>
                SyncActionView::CreateView(
                run@,
                texts(namespace@),
                table@,
                items_model(columns@),
                sql@,
            ),
            SyncAction::Done(result) => SyncActionView::Done(document_result(*result)),
        }
    }
}

/// The schema that a namespace surfaces as.
pub open spec fn schema_name(namespace: Seq<Seq<char>>) -> Seq<char> {
    joined(namespace, "."@)
}

/// The tables after those of a namespace were taken, and whether there was one too many.
pub open spec fn taken_tables(
    tables: Seq<(Seq<Seq<char>>, Seq<char>)>,
    namespace: Seq<Seq<char>>,
    names: Seq<Seq<char>>,
) -> (Seq<(Seq<Seq<char>>, Seq<char>)>, bool)
    decreases names.len(),
{
    if names.len() == 0 {
        (tables, false)
    } else if tables.len() >= MAX_TABLES {
        (tables, true)
    } else {
        taken_tables(tables.push((namespace, names[0])), namespace, names.drop_first())
    }
}

/// The warning about more tables than are shown.
pub open spec fn too_many_tables() -> Seq<char> {
    "catalog lists more than "@ + decimal_of(MAX_TABLES as nat) + " tables; only the first "@
        + decimal_of(MAX_TABLES as nat) + " are shown"@
}

/// The warning about a table that could not be loaded.
pub open spec fn not_loaded(schema: Seq<char>, table: Seq<char>, error: Seq<char>) -> Seq<char> {
    "failed to load table "@ + schema + "."@ + table + ": "@ + error
}

/// The warning about a table without a view.
pub open spec fn not_queryable(schema: Seq<char>, table: Seq<char>, error: Seq<char>) -> Seq<char> {
    "table "@ + schema + "."@ + table + " is not queryable: "@ + error
}

/// The warning about a table without a metadata location.
pub open spec fn no_location(schema: Seq<char>, table: Seq<char>) -> Seq<char> {
    "table "@ + schema + "."@ + table + " has no metadata location; it cannot be scanned"@
}

/// A run before anything was listed.
pub open spec fn fresh_run() -> SyncView {
    SyncView {
        namespaces: seq![],
        listed: 0,
        tables: seq![],
        next: 0,
        schemas: seq![],
        warnings: seq![],
    }
}

/// What follows when no more tables are to be listed: the next table is loaded, or all are described.
pub open spec fn next_table(run: SyncView) -> SyncActionView {
    if run.next < run.tables.len() {
        SyncActionView::LoadTable(
            SyncView { next: run.next + 1, ..run },
            run.tables[run.next].0,
            run.tables[run.next].1,
        )
    } else {
        SyncActionView::Done(Ok((document_view(run.schemas), run.warnings)))
    }
}

/// What follows when a namespace was dealt with.
pub open spec fn next_namespace(run: SyncView) -> SyncActionView {
    if run.listed < run.namespaces.len() {
        SyncActionView::ListTables(
            SyncView { listed: run.listed + 1, ..run },
            run.namespaces[run.listed],
        )
    } else {
        next_table(run)
    }
}

/// A run with one more warning.
pub open spec fn warned(run: SyncView, warning: Seq<char>) -> SyncView {
    SyncView { warnings: run.warnings.push(warning), ..run }
}

/// A run with one more described table.
pub open spec fn described(
    run: SyncView,
    namespace: Seq<Seq<char>>,
    table: Seq<char>,
    columns: Seq<JsonView>,
) -> SyncView {
    let schema = schema_name(namespace);
    SyncView {
        schemas: placed(run.schemas, schema, object_view(schema, table, "table"@, columns)),
        ..run
    }
}

/// What follows when a table was asked for: its view is created, unless it has no metadata location;
/// a table that could not be loaded is described without columns.
pub open spec fn table_step(
    run: SyncView,
    namespace: Seq<Seq<char>>,
    table: Seq<char>,
    result: Result<(Option<Seq<char>>, Seq<JsonView>), Seq<char>>,
) -> SyncActionView {
    let schema = schema_name(namespace);
    match result {
        Ok((Some(location), columns)) => SyncActionView::CreateView(
            run,
            namespace,
            table,
            columns,
            table_view_sql(schema, table, location),
        ),
        Ok((None, columns)) => next_table(
            described(warned(run, no_location(schema, table)), namespace, table, columns),
        ),
        Err(error) => next_table(
            described(
                warned(
                    warned(run, not_loaded(schema, table, error)),
                    no_location(schema, table),
                ),
                namespace,
                table,
                seq![],
            ),
        ),
    }
}

/// What follows an event while a session is brought in line with a catalog.
pub open spec fn sync_step(catalog: CatalogView, event: SyncEventView) -> SyncActionView {
    match event {
        SyncEventView::Start => SyncActionView::LoadExtension("httpfs"@, false),
        SyncEventView::Extension(_, Err(error)) => SyncActionView::Done(Err(error)),
        SyncEventView::Extension(false, Ok(_)) => SyncActionView::LoadExtension(
            "iceberg"@,
            true,
        ),
        SyncEventView::Extension(true, Ok(_)) => match catalog.table_filter {
            Some(table) => next_table(SyncView { tables: seq![table], ..fresh_run() }),
            None => SyncActionView::ListNamespaces,
        },
        SyncEventView::Namespaces(Err(error)) => SyncActionView::Done(Err(error)),
        SyncEventView::Namespaces(Ok(namespaces)) => next_namespace(
            SyncView { namespaces, ..fresh_run() },
        ),
        SyncEventView::Tables(_, _, Err(error)) => SyncActionView::Done(Err(error)),
        SyncEventView::Tables(run, namespace, Ok(names)) => {
            let (tables, full) = taken_tables(run.tables, namespace, names);
            if full {
                next_table(warned(SyncView { tables, ..run }, too_many_tables()))
            } else {
                next_namespace(SyncView { tables, ..run })
            }
        },
        SyncEventView::Table(run, namespace, table, result) => table_step(
            run,
            namespace,
            table,
            result,
        ),
        SyncEventView::View(run, namespace, table, columns, result) => {
            let told = match result {
                Ok(_) => run,
                Err(error) => warned(run, not_queryable(schema_name(namespace), table, error)),
            };
            next_table(described(told, namespace, table, columns))
        },
    }
}

/// A copy of a list of texts.
fn copy_texts(list: &Vec<String>) -> (copy: Vec<String>)
    ensures
        texts(copy@) == texts(list@),
{
    let mut copy: Vec<String> = Vec::new();
    let mut i: usize = 0;
    while i < list.len()
        invariant
            i <= list.len(),
            copy.len() == i,
            forall|k: int| 0 <= k < i ==> (#[trigger] copy@[k])@ == list@[k]@,
        decreases list.len() - i,
    {
        copy.push(list[i].clone());
        i += 1;
    }
    assert(texts(copy@) =~= texts(list@));
    copy
}

impl SyncRun {
    /// A run before anything was listed.
    fn fresh() -> (run: SyncRun)
        ensures
            run@ == fresh_run(),
    {
        let run = SyncRun {
            namespaces: Vec::new(),
            listed: 0,
            tables: Vec::new(),
            next: 0,
            schemas: Vec::new(),
            warnings: Vec::new(),
        };
        assert(run@ =~= fresh_run());
        run
    }

    /// Adds a warning.
    fn warn(&mut self, warning: String)
        ensures
            final(self)@ == warned(old(self)@, warning@),
    {
        let ghost told = warning@;
        self.warnings.push(warning);
        assert(texts(self.warnings@) =~= texts(old(self).warnings@).push(told));
    }

    /// Describes a table.
    fn describe(&mut self, namespace: &Vec<String>, table: &str, columns: Vec<Json>)
        ensures
            final(self)@ == described(
                old(self)@,
                texts(namespace@),
                table@,
                items_model(columns@),
            ),
    {
        let schema = text::join(namespace, ".");
        let entry = object(schema.as_str(), table, "table", columns);
        place(&mut self.schemas, schema, entry);
    }

    /// What follows when no more tables are to be listed.
    fn go_on(self) -> (action: SyncAction)
        ensures
            action@ == next_table(self@),
    {
        let mut run = self;
        if run.next < run.tables.len() {
            let namespace = copy_texts(&run.tables[run.next].0);
            let table = run.tables[run.next].1.clone();
            run.next += 1;
            SyncAction::LoadTable(run, namespace, table)
        } else {
            SyncAction::Done(Ok((document(run.schemas), run.warnings)))
        }
    }

    /// What follows when a namespace was dealt with.
    fn go_on_listing(self) -> (action: SyncAction)
        ensures
            action@ == next_namespace(self@),
    {
        let mut run = self;
        if run.listed < run.namespaces.len() {
            let namespace = copy_texts(&run.namespaces[run.listed]);
            run.listed += 1;
            SyncAction::ListTables(run, namespace)
        } else {
            run.go_on()
        }
    }

    /// Takes the tables of a namespace, and says whether there was one too many.
    fn take_tables(&mut self, namespace: &Vec<String>, names: &Vec<String>) -> (full: bool)
        ensures
            taken_tables(old(self)@.tables, texts(namespace@), texts(names@)) == (
                final(self)@.tables,
                full,
            ),
            final(self)@ == (SyncView { tables: final(self)@.tables, ..old(self)@ }),
    {
        let ghost start = self@;
        let ghost levels = texts(namespace@);
        let ghost all = texts(names@);
        let mut i: usize = 0;
        assert(all.skip(0) =~= all);
        while i < names.len()
            invariant
                i <= names.len(),
                levels == texts(namespace@),
                all == texts(names@),
                start == old(self)@,
                self@ == (SyncView { tables: self@.tables, ..start }),
                taken_tables(start.tables, levels, all) == taken_tables(
                    self@.tables,
                    levels,
                    all.skip(i as int),
                ),
            decreases names.len() - i,
        {
            if self.tables.len() >= MAX_TABLES {
                return true;
            }
            let ghost before = self@.tables;
            assert(all.skip(i as int).drop_first() =~= all.skip(i + 1));
            self.tables.push((copy_texts(namespace), names[i].clone()));
            assert(tables_view(self.tables@) =~= before.push((levels, names@[i as int]@)));
            i += 1;
        }
        false
    }
}

/// The warning about a table that could not be loaded.
fn not_loaded_warning(schema: &str, table: &str, error: &str) -> (out: String)
    ensures
        out@ == not_loaded(schema@, table@, error@),
{
    "failed to load table ".to_string().concat(schema).concat(".").concat(table).concat(
        ": ",
    ).concat(error)
}

/// The warning about a table without a view.
fn not_queryable_warning(schema: &str, table: &str, error: &str) -> (out: String)
    ensures
        out@ == not_queryable(schema@, table@, error@),
{
    "table ".to_string().concat(schema).concat(".").concat(table).concat(
        " is not queryable: ",
    ).concat(error)
}

/// The warning about a table without a metadata location.
fn no_location_warning(schema: &str, table: &str) -> (out: String)
    ensures
        out@ == no_location(schema@, table@),
{
    "table ".to_string().concat(schema).concat(".").concat(table).concat(
        " has no metadata location; it cannot be scanned",
    )
}

/// The warning about more tables than are shown.
fn too_many_tables_warning() -> (out: String)
    ensures
        out@ == too_many_tables(),
{
    let limit = text::decimal(MAX_TABLES as u64);
    "catalog lists more than ".to_string().concat(limit.as_str()).concat(
        " tables; only the first ",
    ).concat(limit.as_str()).concat(" are shown")
}

/// What follows when a table was asked for.
fn take_table(
    run: SyncRun,
    namespace: Vec<String>,
    table: String,
    result: Result<(Option<String>, Vec<Json>), String>,
) -> (action: SyncAction)
    ensures
        action@ == table_step(run@, texts(namespace@), table@, loaded_result(result)),
{
    let mut run = run;
    let schema = text::join(&namespace, ".");
    match result {
        Ok((Some(location), columns)) => {
            let sql = create_table_view(schema.as_str(), table.as_str(), location.as_str());
            SyncAction::CreateView(run, namespace, table, columns, sql)
        },
        Ok((None, columns)) => {
            run.warn(no_location_warning(schema.as_str(), table.as_str()));
            run.describe(&namespace, table.as_str(), columns);
            run.go_on()
        },
        Err(error) => {
            run.warn(not_loaded_warning(schema.as_str(), table.as_str(), error.as_str()));
            run.warn(no_location_warning(schema.as_str(), table.as_str()));
            let none: Vec<Json> = Vec::new();
            assert(items_model(none@) =~= seq![]);
            run.describe(&namespace, table.as_str(), none);
            run.go_on()
        },
    }
}

/// What follows an event while a session is brought in line with a catalog.
pub fn sync(catalog: &RestCatalog, event: SyncEvent) -> (action: SyncAction)
    ensures
        action@ == sync_step(catalog@, event@),
{
    match event {
        SyncEvent::Start => SyncAction::LoadExtension("httpfs".to_string(), false),
        SyncEvent::Extension(_, Err(error)) => SyncAction::Done(Err(error)),
        SyncEvent::Extension(required, Ok(_)) => {
            if !required {
                return SyncAction::LoadExtension("iceberg".to_string(), true);
            }
            match &catalog.table_filter {
                Some((namespace, table)) => {
                    let mut run = SyncRun::fresh();
                    run.tables.push((copy_texts(namespace), table.clone()));
                    assert(run@.tables =~= seq![catalog@.table_filter->0]);
                    run.go_on()
                },
                None => SyncAction::ListNamespaces,
            }
        },
        SyncEvent::Namespaces(Err(error)) => SyncAction::Done(Err(error)),
        SyncEvent::Namespaces(Ok(namespaces)) => {
            let mut run = SyncRun::fresh();
            run.namespaces = namespaces;
            run.go_on_listing()
        },
        SyncEvent::Tables(_, _, Err(error)) => SyncAction::Done(Err(error)),
        SyncEvent::Tables(run, namespace, Ok(names)) => {
            let mut run = run;
            if run.take_tables(&namespace, &names) {
                run.warn(too_many_tables_warning());
                run.go_on()
            } else {
                run.go_on_listing()
            }
        },
        SyncEvent::Table(run, namespace, table, result) => take_table(
            run,
            namespace,
            table,
            result,
        ),
        SyncEvent::View(run, namespace, table, columns, result) => {
            let mut run = run;
            if let Err(error) = result {
                let schema = text::join(&namespace, ".");
                run.warn(
                    not_queryable_warning(schema.as_str(), table.as_str(), error.as_str()),
                );
            }
            run.describe(&namespace, table.as_str(), columns);
            run.go_on()
        },
    }
}

/// The tables of a namespace are taken in their order, as long as there is room for them; that there
/// was one too many is told exactly when there was.
pub proof fn tables_stay_in_bounds(
    tables: Seq<(Seq<Seq<char>>, Seq<char>)>,
    namespace: Seq<Seq<char>>,
    names: Seq<Seq<char>>,
)
    requires
        tables.len() <= MAX_TABLES,
    ensures
        ({
            let room = MAX_TABLES - tables.len();
            let count = if names.len() <= room {
                names.len() as int
            } else {
                room
            };
            let (after, full) = taken_tables(tables, namespace, names);
            &&& after == tables + Seq::new(count as nat, |i: int| (namespace, names[i]))
            &&& after.len() <= MAX_TABLES
            &&& full == (tables.len() + names.len() > MAX_TABLES)
        }),
    decreases names.len(),
{
    let room = MAX_TABLES - tables.len();
    let count = if names.len() <= room {
        names.len() as int
    } else {
        room
    };
    if names.len() == 0 || room == 0 {
        assert(tables + Seq::new(0nat, |i: int| (namespace, names[i])) =~= tables);
    } else {
        let rest = names.drop_first();
        let more = tables.push((namespace, names[0]));
        tables_stay_in_bounds(more, namespace, rest);
        assert(more + Seq::new((count - 1) as nat, |i: int| (namespace, rest[i])) =~= tables
            + Seq::new(count as nat, |i: int| (namespace, names[i])));
    }
}

/// The tables of namespaces, in order, each namespace with the names of its tables.
pub open spec fn qualified(
    namespaces: Seq<Seq<Seq<char>>>,
    names: Seq<Seq<Seq<char>>>,
) -> Seq<(Seq<Seq<char>>, Seq<char>)>
    decreases namespaces.len(),
{
    if namespaces.len() == 0 {
        seq![]
    } else {
        Seq::new(names[0].len(), |i: int| (namespaces[0], names[0][i])) + qualified(
            namespaces.drop_first(),
            names.drop_first(),
        )
    }
}

/// At most so many of the tables of a list: the first.
pub open spec fn first_tables(tables: Seq<(Seq<Seq<char>>, Seq<char>)>) -> Seq<
    (Seq<Seq<char>>, Seq<char>),
> {
    if tables.len() <= MAX_TABLES {
        tables
    } else {
        tables.take(MAX_TABLES as int)
    }
}

/// What follows when the namespaces that are asked for their tables have been answered; nothing where
/// there is no answer left.
pub open spec fn listing_done(
    catalog: CatalogView,
    action: SyncActionView,
    names: Seq<Seq<Seq<char>>>,
) -> Option<SyncActionView>
    decreases names.len(),
{
    match action {
        SyncActionView::ListTables(run, namespace) => if names.len() == 0 {
            None
        } else {
            listing_done(
                catalog,
                sync_step(catalog, SyncEventView::Tables(run, namespace, Ok(names[0]))),
                names.drop_first(),
            )
        },
        other => Some(other),
    }
}

proof fn lemma_listing_done(
    catalog: CatalogView,
    run: SyncView,
    names: Seq<Seq<Seq<char>>>,
) -> (last: SyncView)
    requires
        0 <= run.listed <= run.namespaces.len(),
        names.len() == run.namespaces.len() - run.listed,
        run.tables.len() <= MAX_TABLES,
    ensures
        listing_done(catalog, next_namespace(run), names) == Some(next_table(last)),
        ({
            let all = run.tables + qualified(run.namespaces.skip(run.listed), names);
            &&& last.tables == first_tables(all)
            &&& last.warnings == if all.len() > MAX_TABLES {
                run.warnings.push(too_many_tables())
            } else {
                run.warnings
            }
            &&& last.next == run.next
            &&& last.schemas == run.schemas
        }),
    decreases names.len(),
{
    let rest = run.namespaces.skip(run.listed);
    let all = run.tables + qualified(rest, names);
    if names.len() == 0 {
        assert(all =~= run.tables);
        run
    } else {
        let namespace = run.namespaces[run.listed];
        let asked = SyncView { listed: run.listed + 1, ..run };
        let (tables, full) = taken_tables(run.tables, namespace, names[0]);
        let own = Seq::new(names[0].len(), |i: int| (namespace, names[0][i]));
        let others = qualified(rest.drop_first(), names.drop_first());
        assert(rest[0] == namespace);
        assert(qualified(rest, names) == own + others);
        assert(rest.drop_first() =~= run.namespaces.skip(run.listed + 1));
        tables_stay_in_bounds(run.tables, namespace, names[0]);
        if full {
            let told = warned(SyncView { tables, ..asked }, too_many_tables());
            let after = next_table(told);
            assert(listing_done(catalog, after, names.drop_first()) == Some(after));
            assert(tables =~= all.take(MAX_TABLES as int));
            told
        } else {
            let next = SyncView { tables, ..asked };
            assert(tables =~= run.tables + own);
            assert(all =~= tables + others);
            lemma_listing_done(catalog, next, names.drop_first())
        }
    }
}

/// The tables of a catalog are those of its namespaces, in order, as far as there is room; that there
/// are more is told, once, exactly when there are.
pub proof fn tables_are_listed_in_order(
    catalog: CatalogView,
    namespaces: Seq<Seq<Seq<char>>>,
    names: Seq<Seq<Seq<char>>>,
) -> (last: SyncView)
    requires
        names.len() == namespaces.len(),
    ensures
        listing_done(
            catalog,
            sync_step(catalog, SyncEventView::Namespaces(Ok(namespaces))),
            names,
        ) == Some(next_table(last)),
        last.tables == first_tables(qualified(namespaces, names)),
        last.warnings == if qualified(namespaces, names).len() > MAX_TABLES {
            seq![too_many_tables()]
        } else {
            seq![]
        },
        last.next == 0,
        last.schemas.len() == 0,
{
    let run = SyncView { namespaces, ..fresh_run() };
    assert(namespaces.skip(0) =~= namespaces);
    assert(run.tables + qualified(namespaces, names) =~= qualified(namespaces, names));
    assert(run.warnings.push(too_many_tables()) =~= seq![too_many_tables()]);
    lemma_listing_done(catalog, run, names)
}

/// What becomes of a table: what it is loaded as, and whether its view can be created.
pub struct TableFate {
    pub loaded: Result<(Option<Seq<char>>, Seq<JsonView>), Seq<char>>,
    pub view: Result<(), Seq<char>>,
}

/// What follows when a table was loaded and its view, if it gets one, was created or not.
pub open spec fn table_done(
    catalog: CatalogView,
    run: SyncView,
    namespace: Seq<Seq<char>>,
    table: Seq<char>,
    fate: TableFate,
) -> SyncActionView {
    match sync_step(catalog, SyncEventView::Table(run, namespace, table, fate.loaded)) {
        SyncActionView::CreateView(run, namespace, table, columns, _) => sync_step(
            catalog,
            SyncEventView::View(run, namespace, table, columns, fate.view),
        ),
        other => other,
    }
}

/// What a session is brought in line with when each table that is asked for has a fate; nothing where
/// the fates do not suffice.
pub open spec fn sync_result(
    catalog: CatalogView,
    action: SyncActionView,
    fates: Seq<TableFate>,
) -> Option<Result<(JsonView, Seq<Seq<char>>), Seq<char>>>
    decreases fates.len(),
{
    match action {
        SyncActionView::Done(result) => Some(result),
        SyncActionView::LoadTable(run, namespace, table) => if fates.len() == 0 {
            None
        } else {
            sync_result(
                catalog,
                table_done(catalog, run, namespace, table, fates[0]),
                fates.drop_first(),
            )
        },
        _ => None,
    }
}

/// The columns that a table with a fate is shown with.
pub open spec fn fate_columns(fate: TableFate) -> Seq<JsonView> {
    match fate.loaded {
        Ok((_, columns)) => columns,
        Err(_) => seq![],
    }
}

/// The schemas with all tables of a list, each under the schema of its namespace, in order.
pub open spec fn shown_tables(
    schemas: Seq<(Seq<char>, Seq<JsonView>)>,
    tables: Seq<(Seq<Seq<char>>, Seq<char>)>,
    fates: Seq<TableFate>,
) -> Seq<(Seq<char>, Seq<JsonView>)>
    decreases tables.len(),
{
    if tables.len() == 0 {
        schemas
    } else {
        let schema = schema_name(tables[0].0);
        shown_tables(
            placed(
                schemas,
                schema,
                object_view(schema, tables[0].1, "table"@, fate_columns(fates[0])),
            ),
            tables.drop_first(),
            fates.drop_first(),
        )
    }
}

/// The warnings that a table with a fate costs.
pub open spec fn fate_warnings(
    schema: Seq<char>,
    table: Seq<char>,
    fate: TableFate,
) -> Seq<Seq<char>> {
    match fate.loaded {
        Ok((Some(_), _)) => match fate.view {
            Ok(_) => seq![],
            Err(error) => seq![not_queryable(schema, table, error)],
        },
        Ok((None, _)) => seq![no_location(schema, table)],
        Err(error) => seq![not_loaded(schema, table, error), no_location(schema, table)],
    }
}

/// The warnings that the tables of a list cost, in order.
pub open spec fn all_warnings(
    tables: Seq<(Seq<Seq<char>>, Seq<char>)>,
    fates: Seq<TableFate>,
) -> Seq<Seq<char>>
    decreases tables.len(),
{
    if tables.len() == 0 {
        seq![]
    } else {
        fate_warnings(schema_name(tables[0].0), tables[0].1, fates[0]) + all_warnings(
            tables.drop_first(),
            fates.drop_first(),
        )
    }
}

/// Every table that was listed is shown, in order, under the schema of its namespace, whatever becomes
/// of it: a table that cannot be loaded or queried costs its warnings and no more, and one that can
/// costs none.
pub proof fn every_table_is_shown(catalog: CatalogView, run: SyncView, fates: Seq<TableFate>)
    requires
        0 <= run.next <= run.tables.len(),
        fates.len() == run.tables.len() - run.next,
    ensures
        sync_result(catalog, next_table(run), fates) == Some(
            Ok::<(JsonView, Seq<Seq<char>>), Seq<char>>(
                (
                    document_view(shown_tables(run.schemas, run.tables.skip(run.next), fates)),
                    run.warnings + all_warnings(run.tables.skip(run.next), fates),
                ),
            ),
        ),
    decreases fates.len(),
{
    let tables = run.tables.skip(run.next);
    if run.next == run.tables.len() {
        assert(run.warnings + all_warnings(tables, fates) =~= run.warnings);
    } else {
        let (namespace, table) = run.tables[run.next];
        let asked = SyncView { next: run.next + 1, ..run };
        let fate = fates[0];
        assert(tables[0] == (namespace, table));
        assert(tables.drop_first() =~= run.tables.skip(run.next + 1));
        let schema = schema_name(namespace);
        let told = match fate.loaded {
            Ok((Some(_), _)) => match fate.view {
                Ok(_) => asked,
                Err(error) => warned(asked, not_queryable(schema, table, error)),
            },
            Ok((None, _)) => warned(asked, no_location(schema, table)),
            Err(error) => warned(
                warned(asked, not_loaded(schema, table, error)),
                no_location(schema, table),
            ),
        };
        assert(told.warnings =~= run.warnings + fate_warnings(schema, table, fate));
        let shown = described(told, namespace, table, fate_columns(fate));
        assert(table_done(catalog, asked, namespace, table, fate) == next_table(shown));
        every_table_is_shown(catalog, shown, fates.drop_first());
        let others = all_warnings(tables.drop_first(), fates.drop_first());
        assert(told.warnings + others =~= run.warnings + all_warnings(tables, fates));
    }
}

/// No two schemas of the metadata have the same name.
pub proof fn schemas_stay_apart(
    schemas: Seq<(Seq<char>, Seq<JsonView>)>,
    tables: Seq<(Seq<Seq<char>>, Seq<char>)>,
    fates: Seq<TableFate>,
)
    requires
        apart(schemas),
    ensures
        apart(shown_tables(schemas, tables, fates)),
    decreases tables.len(),
{
    if tables.len() > 0 {
        let schema = schema_name(tables[0].0);
        let object = object_view(schema, tables[0].1, "table"@, fate_columns(fates[0]));
        placing_keeps_schemas_apart(schemas, schema, object);
        schemas_stay_apart(
            placed(schemas, schema, object),
            tables.drop_first(),
            fates.drop_first(),
        );
    }
}

} // verus!

//! What bringing a session in line with a catalog promises, step by step.
use crate::catalog::CatalogView;
use crate::document::{document_view, object_view, placed};
use crate::json::JsonView;
use crate::sql::table_view_sql;
use crate::sync::{
    schema_name, sync_step, tables_stay_in_bounds, SyncActionView, SyncEventView, SyncView,
};
use crate::text::{decimal_of, joined};
use vstd::prelude::*;

verus! {

/// The two extensions are loaded first, the one that the session can do without and then the other,
/// and one that is missed ends it. After that the table that the user named is loaded, or else the
/// namespaces are listed.
pub proof fn extensions_are_loaded_first(
    catalog: CatalogView,
    required: bool,
    error: Seq<char>,
    table: (Seq<Seq<char>>, Seq<char>),
)
    ensures
        sync_step(catalog, SyncEventView::Start) == SyncActionView::LoadExtension(
            "httpfs"@,
            false,
        ),
        sync_step(catalog, SyncEventView::Extension(false, Ok(())))
            == SyncActionView::LoadExtension("iceberg"@, true),
        sync_step(catalog, SyncEventView::Extension(required, Err(error))) == SyncActionView::Done(
            Err(error),
        ),
        catalog.table_filter is None ==> sync_step(
            catalog,
            SyncEventView::Extension(true, Ok(())),
        ) is ListNamespaces,
        catalog.table_filter == Some(table) ==> (sync_step(
            catalog,
            SyncEventView::Extension(true, Ok(())),
        ) matches SyncActionView::LoadTable(run, namespace, name) && namespace == table.0 && name
            == table.1 && run.tables == seq![table] && run.next == 1 && run.schemas.len() == 0
            && run.warnings.len() == 0),
{
}

/// A listing that fails ends it, with its own message.
pub proof fn failed_listings_end_it(
    catalog: CatalogView,
    run: SyncView,
    namespace: Seq<Seq<char>>,
    error: Seq<char>,
)
    ensures
        sync_step(catalog, SyncEventView::Namespaces(Err(error))) == SyncActionView::Done(
            Err(error),
        ),
        sync_step(catalog, SyncEventView::Tables(run, namespace, Err(error)))
            == SyncActionView::Done(Err(error)),
{
}

/// Whether an action goes on with the tables of a list: the next of them is loaded, and when none is
/// left, what was described is handed out with the warnings.
pub open spec fn goes_on_with_tables(
    action: SyncActionView,
    tables: Seq<(Seq<Seq<char>>, Seq<char>)>,
    next: int,
    schemas: Seq<(Seq<char>, Seq<JsonView>)>,
    warnings: Seq<Seq<char>>,
) -> bool {
    if next < tables.len() {
        action matches SyncActionView::LoadTable(run, namespace, name) && (namespace, name)
            == tables[next] && run.tables == tables && run.next == next + 1 && run.schemas
            == schemas && run.warnings == warnings
    } else {
        action == SyncActionView::Done(Ok((document_view(schemas), warnings)))
    }
}

/// Whether an action goes on with the namespaces of a list: the next of them is asked for its tables,
/// and when none is left, the tables are loaded.
pub open spec fn goes_on_with_namespaces(
    action: SyncActionView,
    namespaces: Seq<Seq<Seq<char>>>,
    listed: int,
    tables: Seq<(Seq<Seq<char>>, Seq<char>)>,
    next: int,
    schemas: Seq<(Seq<char>, Seq<JsonView>)>,
    warnings: Seq<Seq<char>>,
) -> bool {
    if listed < namespaces.len() {
        action matches SyncActionView::ListTables(run, namespace) && namespace
            == namespaces[listed] && run.namespaces == namespaces && run.listed == listed + 1
            && run.tables == tables && run.next == next && run.schemas == schemas && run.warnings
            == warnings
    } else {
        goes_on_with_tables(action, tables, next, schemas, warnings)
    }
}

/// The namespaces that were found are asked for their tables, from the first on, before any table was
/// taken.
pub proof fn the_first_namespace_is_asked(
    catalog: CatalogView,
    namespaces: Seq<Seq<Seq<char>>>,
)
    ensures
        goes_on_with_namespaces(
            sync_step(catalog, SyncEventView::Namespaces(Ok(namespaces))),
            namespaces,
            0,
            seq![],
            0,
            seq![],
            seq![],
        ),
{
}

/// The tables of a namespace go to the end of those that were found, as far as there are five hundred;
/// where there are more, a warning says so and no other namespace is asked.
pub proof fn five_hundred_tables_are_taken(
    catalog: CatalogView,
    run: SyncView,
    namespace: Seq<Seq<char>>,
    names: Seq<Seq<char>>,
)
    requires
        run.tables.len() <= 500,
    ensures
        ({
            let all = run.tables + Seq::new(names.len(), |i: int| (namespace, names[i]));
            let action = sync_step(catalog, SyncEventView::Tables(run, namespace, Ok(names)));
            if all.len() > 500 {
                goes_on_with_tables(
                    action,
                    all.take(500),
                    run.next,
                    run.schemas,
                    run.warnings.push(
                        "catalog lists more than "@ + "500"@ + " tables; only the first "@ + "500"@
                            + " are shown"@,
                    ),
                )
            } else {
                goes_on_with_namespaces(
                    action,
                    run.namespaces,
                    run.listed,
                    all,
                    run.next,
                    run.schemas,
                    run.warnings,
                )
            }
        }),
{
    let own = Seq::new(names.len(), |i: int| (namespace, names[i]));
    let all = run.tables + own;
    tables_stay_in_bounds(run.tables, namespace, names);
    let (tables, full) = crate::sync::taken_tables(run.tables, namespace, names);
    if all.len() > 500 {
        assert(tables =~= all.take(500));
    } else {
        assert(tables =~= all);
    }
    reveal_strlit("500");
    reveal_with_fuel(decimal_of, 4);
    assert(decimal_of(5) =~= seq!['5']);
    assert(decimal_of(50) =~= seq!['5', '0']);
    assert(decimal_of(500) =~= seq!['5', '0', '0']);
    assert("500"@ =~= seq!['5', '0', '0']);
}

/// The schemas with a table among them, described as a table under the levels of its namespace with
/// points between them.
pub open spec fn with_table(
    schemas: Seq<(Seq<char>, Seq<JsonView>)>,
    namespace: Seq<Seq<char>>,
    table: Seq<char>,
    columns: Seq<JsonView>,
) -> Seq<(Seq<char>, Seq<JsonView>)> {
    let schema = joined(namespace, "."@);
    placed(schemas, schema, object_view(schema, table, "table"@, columns))
}

/// A namespace surfaces as the schema whose name is its levels with points between them.
pub proof fn namespaces_surface_as_schemas(namespace: Seq<Seq<char>>)
    ensures
        schema_name(namespace) == joined(namespace, "."@),
{
}

/// A table with a metadata location gets a view of that very table; one without is described with a
/// warning that it cannot be scanned; and one that could not be loaded is described without columns,
/// with a warning about that besides.
pub proof fn loaded_tables_get_views(
    catalog: CatalogView,
    run: SyncView,
    namespace: Seq<Seq<char>>,
    table: Seq<char>,
    columns: Seq<JsonView>,
    location: Seq<char>,
    error: Seq<char>,
)
    ensures
        ({
            let schema = joined(namespace, "."@);
            let unscanned = "table "@ + schema + "."@ + table
                + " has no metadata location; it cannot be scanned"@;
            &&& sync_step(
                catalog,
                SyncEventView::Table(run, namespace, table, Ok((Some(location), columns))),
            ) == SyncActionView::CreateView(
                run,
                namespace,
                table,
                columns,
                table_view_sql(schema, table, location),
            )
            &&& goes_on_with_tables(
                sync_step(
                    catalog,
                    SyncEventView::Table(run, namespace, table, Ok((None, columns))),
                ),
                run.tables,
                run.next,
                with_table(run.schemas, namespace, table, columns),
                run.warnings.push(unscanned),
            )
            &&& goes_on_with_tables(
                sync_step(catalog, SyncEventView::Table(run, namespace, table, Err(error))),
                run.tables,
                run.next,
                with_table(run.schemas, namespace, table, seq![]),
                run.warnings.push(
                    "failed to load table "@ + schema + "."@ + table + ": "@ + error,
                ).push(unscanned),
            )
        }),
{
}

/// A table whose view was created or not is described with its columns; that it was not is told.
pub proof fn viewed_tables_are_described(
    catalog: CatalogView,
    run: SyncView,
    namespace: Seq<Seq<char>>,
    table: Seq<char>,
    columns: Seq<JsonView>,
    error: Seq<char>,
)
    ensures
        goes_on_with_tables(
            sync_step(catalog, SyncEventView::View(run, namespace, table, columns, Ok(()))),
            run.tables,
            run.next,
            with_table(run.schemas, namespace, table, columns),
            run.warnings,
        ),
        goes_on_with_tables(
            sync_step(catalog, SyncEventView::View(run, namespace, table, columns, Err(error))),
            run.tables,
            run.next,
            with_table(run.schemas, namespace, table, columns),
            run.warnings.push(
                "table "@ + joined(namespace, "."@) + "."@ + table + " is not queryable: "@
                    + error,
            ),
        ),
{
}

} // verus!

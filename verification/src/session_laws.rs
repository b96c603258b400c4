//! What opening a session promises, stated on the options of the request and the statements executed.
use crate::json::JsonView;
use crate::request::option_of;
use crate::request_laws::{
    counts, holds_none, nothing_held_is_nothing_read, the_value_that_counts_is_read,
};
use crate::session::{
    configure_step, extension_result, next_setting, path_of, plan_of, setting_step, settings,
    view_of, ConfigureActionView, ConfigureEventView, SettingActionView, SettingEventView,
    SettingView, TablePlanView,
};
use crate::sql::{cleaned, parquet_files, quoted};
use vstd::prelude::*;

verus! {

/// The options that a session is set by are looked at one after the other, and the first of those left
/// that the request holds is set to its value; after the last, the session is set.
pub proof fn ten_options_set_a_session(request: JsonView, done: int)
    requires
        0 <= done <= 10,
    ensures
        ({
            let options = seq![
                ("s3Region"@, "s3_region"@),
                ("region"@, "s3_region"@),
                ("s3Endpoint"@, "s3_endpoint"@),
                ("s3UrlStyle"@, "s3_url_style"@),
                ("s3AccessKeyId"@, "s3_access_key_id"@),
                ("accessKeyId"@, "s3_access_key_id"@),
                ("s3SecretAccessKey"@, "s3_secret_access_key"@),
                ("secretAccessKey"@, "s3_secret_access_key"@),
                ("s3SessionToken"@, "s3_session_token"@),
                ("sessionToken"@, "s3_session_token"@),
            ];
            if done == 10 {
                next_setting(request, done) == SettingActionView::Done(Ok(()))
            } else {
                match option_of(request, seq![options[done].0]) {
                    Some(value) => next_setting(request, done) matches SettingActionView::Execute(
                        setting,
                    ) && setting.done == done + 1 && setting.name == options[done].1 && setting.sql
                        == "set "@ + options[done].1 + " = "@ + quoted(value, '\''),
                    None => next_setting(request, done) == next_setting(request, done + 1),
                }
            }
        }),
{
    let options = seq![
        ("s3Region"@, "s3_region"@),
        ("region"@, "s3_region"@),
        ("s3Endpoint"@, "s3_endpoint"@),
        ("s3UrlStyle"@, "s3_url_style"@),
        ("s3AccessKeyId"@, "s3_access_key_id"@),
        ("accessKeyId"@, "s3_access_key_id"@),
        ("s3SecretAccessKey"@, "s3_secret_access_key"@),
        ("secretAccessKey"@, "s3_secret_access_key"@),
        ("s3SessionToken"@, "s3_session_token"@),
        ("sessionToken"@, "s3_session_token"@),
    ];
    assert(settings() =~= options);
}

/// Setting a session begins with the first option, goes on after the one that was set, and ends at the
/// first that fails.
pub proof fn settings_follow_each_other(request: JsonView, setting: SettingView, error: Seq<char>)
    ensures
        setting_step(request, SettingEventView::Start) == next_setting(request, 0),
        setting_step(request, SettingEventView::Executed(setting, Ok(()))) == next_setting(
            request,
            setting.done,
        ),
        setting_step(request, SettingEventView::Executed(setting, Err(error)))
            == SettingActionView::Done(
            Err("DuckDB setting "@ + setting.name + " failed: "@ + error),
        ),
{
}

/// Whether a plan is that of an engine for a path: the extension that the engine takes, and a view over
/// what its scan function reads at the path.
pub open spec fn plan_scans(
    plan: TablePlanView,
    engine: Seq<char>,
    view: Seq<char>,
    path: Seq<char>,
) -> bool {
    let created = "create or replace view "@ + view + " as select * from "@;
    ||| engine == "deltaLake"@ && plan.extension == Some("delta"@) && plan.sql == created + (
    "delta_scan("@ + quoted(path, '\'') + ")"@)
    ||| (engine == "iceberg"@ || engine == "s3Tables"@) && plan.extension == Some("iceberg"@)
        && plan.sql == created + ("iceberg_scan("@ + quoted(path, '\'') + ")"@)
    ||| (engine == "hudi"@ || engine == "hive"@) && plan.extension is None && plan.sql == created + (
    "read_parquet("@ + quoted(parquet_files(path), '\'')
        + ", hive_partitioning=true, union_by_name=true)"@)
}

/// The table of a request is scanned at the path that one of six options gives, of which the one whose
/// name comes first counts.
pub proof fn six_options_give_a_path(
    engine: Seq<char>,
    request: JsonView,
    database: Option<Seq<char>>,
    i: int,
    path: Seq<char>,
)
    requires
        engine == "deltaLake"@ || engine == "iceberg"@ || engine == "s3Tables"@ || engine == "hudi"@
            || engine == "hive"@,
        counts(
            request,
            seq!["tablePath"@, "path"@, "location"@, "uri"@, "url"@, "connectionString"@],
            i,
            path,
        ),
    ensures
        plan_of(engine, request, database) matches Some(plan) && plan_scans(
            plan,
            engine,
            view_of(request),
            path,
        ),
{
    let names = seq!["tablePath"@, "path"@, "location"@, "uri"@, "url"@, "connectionString"@];
    the_value_that_counts_is_read(request, names, i, path);
    assert(path_of(request, database) == Some(path));
    lemma_engines_differ();
}

/// Without any of the six options, the table is scanned at the database of the profile; without that
/// too, no table is exposed, and neither is one by an engine that is not served.
pub proof fn the_database_gives_a_path(
    engine: Seq<char>,
    request: JsonView,
    database: Option<Seq<char>>,
)
    requires
        holds_none(
            request,
            seq!["tablePath"@, "path"@, "location"@, "uri"@, "url"@, "connectionString"@],
        ),
    ensures
        database is None ==> plan_of(engine, request, database) is None,
        database matches Some(path) ==> ((engine == "deltaLake"@ || engine == "iceberg"@ || engine
            == "s3Tables"@ || engine == "hudi"@ || engine == "hive"@) ==> (plan_of(
            engine,
            request,
            database,
        ) matches Some(plan) && plan_scans(plan, engine, view_of(request), path))),
{
    let names = seq!["tablePath"@, "path"@, "location"@, "uri"@, "url"@, "connectionString"@];
    nothing_held_is_nothing_read(request, names);
    assert(path_of(request, database) == database);
    lemma_engines_differ();
}

/// An engine that is not served exposes no table.
pub proof fn other_engines_expose_nothing(
    engine: Seq<char>,
    request: JsonView,
    database: Option<Seq<char>>,
)
    requires
        engine != "deltaLake"@,
        engine != "iceberg"@,
        engine != "s3Tables"@,
        engine != "hudi"@,
        engine != "hive"@,
    ensures
        plan_of(engine, request, database) is None,
{
}

proof fn lemma_engines_differ()
    ensures
        "deltaLake"@ != "iceberg"@,
        "deltaLake"@ != "s3Tables"@,
        "deltaLake"@ != "hudi"@,
        "deltaLake"@ != "hive"@,
        "iceberg"@ != "hudi"@,
        "iceberg"@ != "hive"@,
        "s3Tables"@ != "hudi"@,
        "s3Tables"@ != "hive"@,
{
    reveal_strlit("deltaLake");
    reveal_strlit("iceberg");
    reveal_strlit("s3Tables");
    reveal_strlit("hudi");
    reveal_strlit("hive");
    assert("deltaLake"@.len() == 9 && "iceberg"@.len() == 7 && "s3Tables"@.len() == 8
        && "hudi"@.len() == 4 && "hive"@.len() == 4);
}

/// The view of a request is named by one of four options, of which the one whose name comes first
/// counts, and has a name of its own where there is none.
pub proof fn four_options_name_the_view(request: JsonView, i: int, name: Seq<char>)
    ensures
        counts(request, seq!["table"@, "tableName"@, "view"@, "viewName"@], i, name) ==> view_of(
            request,
        ) == cleaned(name),
        holds_none(request, seq!["table"@, "tableName"@, "view"@, "viewName"@]) ==> view_of(request)
            == cleaned("lakehouse_table"@),
{
    let names = seq!["table"@, "tableName"@, "view"@, "viewName"@];
    if counts(request, names, i, name) {
        the_value_that_counts_is_read(request, names, i, name);
    }
    if holds_none(request, names) {
        nothing_held_is_nothing_read(request, names);
    }
}

/// A planned table is exposed by loading the extension for remote files, which may fail, then the one
/// that the plan takes, which may not, and then creating the view.
pub proof fn tables_are_exposed_in_order(plan: TablePlanView, error: Seq<char>)
    ensures
        configure_step(Some(plan), ConfigureEventView::Start) == ConfigureActionView::LoadExtension(
            "httpfs"@,
            false,
        ),
        plan.extension matches Some(extension) ==> configure_step(
            Some(plan),
            ConfigureEventView::Extension(false, Ok(())),
        ) == ConfigureActionView::LoadExtension(extension, true),
        plan.extension is None ==> configure_step(
            Some(plan),
            ConfigureEventView::Extension(false, Ok(())),
        ) == ConfigureActionView::CreateView(plan.sql),
        configure_step(Some(plan), ConfigureEventView::Extension(true, Ok(())))
            == ConfigureActionView::CreateView(plan.sql),
        configure_step(Some(plan), ConfigureEventView::Extension(true, Err(error)))
            == ConfigureActionView::Done(Err(error)),
        configure_step(Some(plan), ConfigureEventView::Extension(false, Err(error)))
            == ConfigureActionView::Done(Err(error)),
        configure_step(Some(plan), ConfigureEventView::View(Ok(()))) == ConfigureActionView::Done(
            Ok(()),
        ),
        configure_step(Some(plan), ConfigureEventView::View(Err(error)))
            == ConfigureActionView::Done(Err("lakehouse table view creation failed: "@ + error)),
{
}

/// Without a planned table there is nothing to do.
pub proof fn nothing_planned_is_nothing_done(event: ConfigureEventView)
    ensures
        configure_step(None, event) == ConfigureActionView::Done(Ok(())),
{
}

/// An extension that a session cannot do without is reported with why it could not be installed, where
/// it could be neither installed nor loaded.
pub proof fn missing_extensions_are_reported(
    extension: Seq<char>,
    not_installed: Seq<char>,
    loaded: Seq<char>,
)
    ensures
        extension_result(extension, true, Err(not_installed), Err(loaded)) == Err::<(), Seq<char>>(
            "DuckDB extension "@ + extension + " unavailable: "@ + not_installed,
        ),
        extension_result(extension, true, Ok(()), Err(loaded)) is Ok,
        extension_result(extension, true, Err(not_installed), Ok(())) is Ok,
        extension_result(extension, false, Err(not_installed), Err(loaded)) is Ok,
{
}

} // verus!

//! What a session is told while a connection is opened: settings, extensions, and a view of a single
//! table.
//!
//! Statements are executed outside of this library. A function here says which comes next, and takes
//! what came of it.
use crate::json::{Json, JsonView};
use crate::request::{option1, option4, option_of, option_string};
use crate::sql::{clean_identifier, cleaned, parquet_files, parquet_pattern, quoted, sql_string};
use crate::sync::done_result;
use crate::text;
use crate::text::optional;
use vstd::prelude::*;

verus! {

/// How many options there are that a session is set by.
pub const SETTINGS: usize = 10;

/// The options that a session is set by, in order, each with the setting.
pub open spec fn settings() -> Seq<(Seq<char>, Seq<char>)> {
    seq![
        ("s3Region"@, "s3_region"@),
        ("region"@, "s3_region"@),
        ("s3Endpoint"@, "s3_endpoint"@),
        ("s3UrlStyle"@, "s3_url_style"@),
        ("s3AccessKeyId"@, "s3_access_key_id"@),
        ("accessKeyId"@, "s3_access_key_id"@),
        ("s3SecretAccessKey"@, "s3_secret_access_key"@),
        ("secretAccessKey"@, "s3_secret_access_key"@),
        ("s3SessionToken"@, "s3_session_token"@),
        ("sessionToken"@, "s3_session_token"@),
    ]
}

/// A statement that sets a session.
pub struct Setting {
    /// How many of the options have been dealt with, the one of this setting among them.
    pub done: usize,
    pub name: String,
    pub sql: String,
}

/// What a setting stands for.
#[verifier::ext_equal]
pub struct SettingView {
    pub done: int,
    pub name: Seq<char>,
    pub sql: Seq<char>,
}

impl View for Setting {
    type V = SettingView;

    open spec fn view(&self) -> SettingView {
        SettingView { done: self.done as int, name: self.name@, sql: self.sql@ }
    }
}

/// What came back while a session is set.
pub enum SettingEvent {
    /// Nothing: it begins.
    Start,
    /// Whether the statement of a setting could be executed.
    Executed(Setting, Result<(), String>),
}

/// What is to be done next to set a session.
pub enum SettingAction {
    /// Execute the statement of a setting.
    Execute(Setting),
    /// Nothing: this is what came of it.
    Done(Result<(), String>),
}

/// What an event stands for.
pub enum SettingEventView {
    Start,
    Executed(SettingView, Result<(), Seq<char>>),
}

/// What an action stands for.
pub enum SettingActionView {
    Execute(SettingView),
    Done(Result<(), Seq<char>>),
}

impl View for SettingEvent {
    type V = SettingEventView;

    open spec fn view(&self) -> SettingEventView {
        match self {
            SettingEvent::Start => SettingEventView::Start,
            SettingEvent::Executed(setting, result) => SettingEventView::Executed(
                setting@,
                done_result(*result),
            ),
        }
    }
}

impl View for SettingAction {
    type V = SettingActionView;

    open spec fn view(&self) -> SettingActionView {
        match self {
            SettingAction::Execute(setting) => SettingActionView::Execute(setting@),
            SettingAction::Done(result) => SettingActionView::Done(done_result(*result)),
        }
    }
}

/// The statement that sets a setting to a value.
pub open spec fn setting_sql(name: Seq<char>, value: Seq<char>) -> Seq<char> {
    "set "@ + name + " = "@ + quoted(value, '\'')
}

/// What is to be done when so many of the options have been dealt with: the first of the others that
/// the request holds is set.
pub open spec fn next_setting(request: JsonView, done: int) -> SettingActionView
    decreases SETTINGS - done,
{
    if done < 0 || done >= SETTINGS {
        SettingActionView::Done(Ok(()))
    } else {
        let (field, name) = settings()[done];
        match option_of(request, seq![field]) {
            Some(value) => SettingActionView::Execute(
                SettingView { done: done + 1, name, sql: setting_sql(name, value) },
            ),
            None => next_setting(request, done + 1),
        }
    }
}

/// What follows an event while a session is set.
pub open spec fn setting_step(request: JsonView, event: SettingEventView) -> SettingActionView {
    match event {
        SettingEventView::Start => next_setting(request, 0),
        SettingEventView::Executed(setting, Ok(_)) => next_setting(request, setting.done),
        SettingEventView::Executed(setting, Err(error)) => SettingActionView::Done(
            Err("DuckDB setting "@ + setting.name + " failed: "@ + error),
        ),
    }
}

/// The option and the setting at an index.
fn setting_at(i: usize) -> (pair: (String, String))
    requires
        i < SETTINGS,
    ensures
        (pair.0@, pair.1@) == settings()[i as int],
{
    let (field, name) = if i == 0 {
        ("s3Region", "s3_region")
    } else if i == 1 {
        ("region", "s3_region")
    } else if i == 2 {
        ("s3Endpoint", "s3_endpoint")
    } else if i == 3 {
        ("s3UrlStyle", "s3_url_style")
    } else if i == 4 {
        ("s3AccessKeyId", "s3_access_key_id")
    } else if i == 5 {
        ("accessKeyId", "s3_access_key_id")
    } else if i == 6 {
        ("s3SecretAccessKey", "s3_secret_access_key")
    } else if i == 7 {
        ("secretAccessKey", "s3_secret_access_key")
    } else if i == 8 {
        ("s3SessionToken", "s3_session_token")
    } else {
        ("sessionToken", "s3_session_token")
    };
    (field.to_string(), name.to_string())
}

/// What is to be done when so many of the options have been dealt with.
fn find_setting(request: &Json, done: usize) -> (action: SettingAction)
    ensures
        action@ == next_setting(request@, done as int),
{
    let mut i: usize = done;
    while i < SETTINGS
        invariant
            next_setting(request@, done as int) == next_setting(request@, i as int),
        decreases SETTINGS - i,
    {
        let (field, name) = setting_at(i);
        if let Some(value) = option1(request, field.as_str()) {
            let sql = "set ".to_string().concat(name.as_str()).concat(" = ").concat(
                sql_string(value.as_str()).as_str(),
            );
            return SettingAction::Execute(Setting { done: i + 1, name, sql });
        }
        i += 1;
    }
    SettingAction::Done(Ok(()))
}

/// What follows an event while a session is set by the options of a request.
pub fn apply_settings(request: &Json, event: SettingEvent) -> (action: SettingAction)
    ensures
        action@ == setting_step(request@, event@),
{
    match event {
        SettingEvent::Start => find_setting(request, 0),
        SettingEvent::Executed(setting, Ok(_)) => find_setting(request, setting.done),
        SettingEvent::Executed(setting, Err(error)) => SettingAction::Done(
            Err(
                "DuckDB setting ".to_string().concat(setting.name.as_str()).concat(
                    " failed: ",
                ).concat(error.as_str()),
            ),
        ),
    }
}

/// The statement that installs an extension.
pub fn install_statement(extension: &str) -> (sql: String)
    ensures
        sql@ == "install "@ + extension@ + ";"@,
{
    "install ".to_string().concat(extension).concat(";")
}

/// The statement that loads an extension.
pub fn load_statement(extension: &str) -> (sql: String)
    ensures
        sql@ == "load "@ + extension@ + ";"@,
{
    "load ".to_string().concat(extension).concat(";")
}

/// What comes of installing and loading an extension: it fails only where a session cannot do without
/// the extension, and it was neither installed nor loaded.
pub open spec fn extension_result(
    extension: Seq<char>,
    required: bool,
    installed: Result<(), Seq<char>>,
    loaded: Result<(), Seq<char>>,
) -> Result<(), Seq<char>> {
    match (required, loaded, installed) {
        (true, Err(_), Err(error)) => Err(
            "DuckDB extension "@ + extension + " unavailable: "@ + error,
        ),
        _ => Ok(()),
    }
}

/// What comes of installing and loading an extension.
pub fn load_extension(
    extension: &str,
    required: bool,
    installed: Result<(), String>,
    loaded: Result<(), String>,
) -> (result: Result<(), String>)
    ensures
        done_result(result) == extension_result(
            extension@,
            required,
            done_result(installed),
            done_result(loaded),
        ),
{
    match (required, loaded, installed) {
        (true, Err(_), Err(error)) => Err(
            "DuckDB extension ".to_string().concat(extension).concat(" unavailable: ").concat(
                error.as_str(),
            ),
        ),
        _ => Ok(()),
    }
}

/// How a table is exposed to a session: the extension that it takes, and the statement.
pub struct TablePlan {
    pub extension: Option<String>,
    pub sql: String,
}

/// What a plan stands for.
pub struct TablePlanView {
    pub extension: Option<Seq<char>>,
    pub sql: Seq<char>,
}

impl View for TablePlan {
    type V = TablePlanView;

    open spec fn view(&self) -> TablePlanView {
        TablePlanView { extension: optional(self.extension), sql: self.sql@ }
    }
}

/// The options that hold the path of a table, the first to be found winning.
pub open spec fn path_fields() -> Seq<Seq<char>> {
    seq!["tablePath"@, "path"@, "location"@, "uri"@, "url"@, "connectionString"@]
}

/// The path of the table of a request: an option, or else the database of the profile.
pub open spec fn path_of(request: JsonView, database: Option<Seq<char>>) -> Option<Seq<char>> {
    match option_of(request, path_fields()) {
        Some(path) => Some(path),
        None => database,
    }
}

/// The name of the view of a request.
pub open spec fn view_of(request: JsonView) -> Seq<char> {
    cleaned(
        match option_of(request, seq!["table"@, "tableName"@, "view"@, "viewName"@]) {
            Some(name) => name,
            None => "lakehouse_table"@,
        },
    )
}

/// The statement that creates a view over a source.
pub open spec fn view_sql(view: Seq<char>, source: Seq<char>) -> Seq<char> {
    "create or replace view "@ + view + " as select * from "@ + source
}

/// How an engine exposes the table at a path as a view, if it does.
pub open spec fn table_plan(engine: Seq<char>, view: Seq<char>, path: Seq<char>) -> Option<
    TablePlanView,
> {
    if engine == "deltaLake"@ {
        Some(
            TablePlanView {
                extension: Some("delta"@),
                sql: view_sql(view, "delta_scan("@ + quoted(path, '\'') + ")"@),
            },
        )
    } else if engine == "iceberg"@ || engine == "s3Tables"@ {
        Some(
            TablePlanView {
                extension: Some("iceberg"@),
                sql: view_sql(view, "iceberg_scan("@ + quoted(path, '\'') + ")"@),
            },
        )
    } else if engine == "hudi"@ || engine == "hive"@ {
        Some(
            TablePlanView {
                extension: None,
                sql: view_sql(
                    view,
                    "read_parquet("@ + quoted(parquet_files(path), '\'')
                        + ", hive_partitioning=true, union_by_name=true)"@,
                ),
            },
        )
    } else {
        None
    }
}

/// How the table of a request is exposed, if it is.
pub open spec fn plan_of(engine: Seq<char>, request: JsonView, database: Option<Seq<char>>) -> Option<
    TablePlanView,
> {
    match path_of(request, database) {
        Some(path) => table_plan(engine, view_of(request), path),
        None => None,
    }
}

/// What an optional plan stands for.
pub open spec fn plan_view(plan: Option<TablePlan>) -> Option<TablePlanView> {
    match plan {
        Some(plan) => Some(plan@),
        None => None,
    }
}

/// The path of the table of a request.
fn table_path(request: &Json, database: &Option<String>) -> (path: Option<String>)
    ensures
        optional(path) == path_of(request@, optional(*database)),
{
    let fields: [&str; 6] = ["tablePath", "path", "location", "uri", "url", "connectionString"];
    let found = option_string(request, &fields);
    assert(crate::request::names(fields@) =~= path_fields());
    match found {
        Some(path) => Some(path),
        None => match database {
            Some(name) => Some(name.clone()),
            None => None,
        },
    }
}

/// The name of the view of a request.
fn view_name(request: &Json) -> (name: String)
    ensures
        name@ == view_of(request@),
{
    match option4(request, "table", "tableName", "view", "viewName") {
        Some(name) => clean_identifier(name.as_str()),
        None => clean_identifier("lakehouse_table"),
    }
}

/// The statement that creates a view over a source.
fn create_view(view: &str, source: &str) -> (sql: String)
    ensures
        sql@ == view_sql(view@, source@),
{
    "create or replace view ".to_string().concat(view).concat(" as select * from ").concat(source)
}

/// How the table of a request is exposed, if it is.
pub fn plan_table(engine: &str, request: &Json, database: &Option<String>) -> (plan: Option<
    TablePlan,
>)
    ensures
        plan_view(plan) == plan_of(engine@, request@, optional(*database)),
{
    let path = match table_path(request, database) {
        Some(path) => path,
        None => {
            return None;
        },
    };
    let view = view_name(request);
    if text::same(engine, "deltaLake") {
        let source = "delta_scan(".to_string().concat(sql_string(path.as_str()).as_str()).concat(
            ")",
        );
        Some(
            TablePlan {
                extension: Some("delta".to_string()),
                sql: create_view(view.as_str(), source.as_str()),
            },
        )
    } else if text::same(engine, "iceberg") || text::same(engine, "s3Tables") {
        let source = "iceberg_scan(".to_string().concat(sql_string(path.as_str()).as_str()).concat(
            ")",
        );
        Some(
            TablePlan {
                extension: Some("iceberg".to_string()),
                sql: create_view(view.as_str(), source.as_str()),
            },
        )
    } else if text::same(engine, "hudi") || text::same(engine, "hive") {
        let pattern = parquet_pattern(path.as_str());
        let source = "read_parquet(".to_string().concat(
            sql_string(pattern.as_str()).as_str(),
        ).concat(", hive_partitioning=true, union_by_name=true)");
        Some(TablePlan { extension: None, sql: create_view(view.as_str(), source.as_str()) })
    } else {
        None
    }
}

/// What came back while a single table is exposed.
pub enum ConfigureEvent {
    /// Nothing: it begins.
    Start,
    /// Whether the extension could be loaded that the session cannot do without, or the other.
    Extension(bool, Result<(), String>),
    /// Whether the view could be created.
    View(Result<(), String>),
}

/// What is to be done next to expose a single table.
pub enum ConfigureAction {
    /// Load an extension, without which the session can do or not.
    LoadExtension(String, bool),
    /// Execute the statement that creates the view.
    CreateView(String),
    /// Nothing: this is what came of it.
    Done(Result<(), String>),
}

/// What an event stands for.
pub enum ConfigureEventView {
    Start,
    Extension(bool, Result<(), Seq<char>>),
    View(Result<(), Seq<char>>),
}

/// What an action stands for.
pub enum ConfigureActionView {
    LoadExtension(Seq<char>, bool),
    CreateView(Seq<char>),
    Done(Result<(), Seq<char>>),
}

impl View for ConfigureEvent {
    type V = ConfigureEventView;

    open spec fn view(&self) -> ConfigureEventView {
        match self {
            ConfigureEvent::Start => ConfigureEventView::Start,
            ConfigureEvent::Extension(required, result) => ConfigureEventView::Extension(
                *required,
                done_result(*result),
            ),
            ConfigureEvent::View(result) => ConfigureEventView::View(done_result(*result)),
        }
    }
}

impl View for ConfigureAction {
    type V = ConfigureActionView;

    open spec fn view(&self) -> ConfigureActionView {
        match self {
            ConfigureAction::LoadExtension(name, required) => ConfigureActionView::LoadExtension(
                name@,
                *required,
            ),
            ConfigureAction::CreateView(sql) => ConfigureActionView::CreateView(sql@),
            ConfigureAction::Done(result) => ConfigureActionView::Done(done_result(*result)),
        }
    }
}

/// What follows an event while a single table is exposed as planned.
pub open spec fn configure_step(
    plan: Option<TablePlanView>,
    event: ConfigureEventView,
) -> ConfigureActionView {
    match (plan, event) {
        (None, _) => ConfigureActionView::Done(Ok(())),
        (Some(_), ConfigureEventView::Start) => ConfigureActionView::LoadExtension(
            "httpfs"@,
            false,
        ),
        (Some(_), ConfigureEventView::Extension(_, Err(error))) => ConfigureActionView::Done(
            Err(error),
        ),
        (Some(plan), ConfigureEventView::Extension(required, Ok(_))) => match plan.extension {
            Some(extension) if !required => ConfigureActionView::LoadExtension(extension, true),
            _ => ConfigureActionView::CreateView(plan.sql),
        },
        (Some(_), ConfigureEventView::View(Ok(_))) => ConfigureActionView::Done(Ok(())),
        (Some(_), ConfigureEventView::View(Err(error))) => ConfigureActionView::Done(
            Err("lakehouse table view creation failed: "@ + error),
        ),
    }
}

/// What follows an event while the single table of a request is exposed.
pub fn configure_connection(
    engine: &str,
    request: &Json,
    database: &Option<String>,
    event: ConfigureEvent,
) -> (action: ConfigureAction)
    ensures
        action@ == configure_step(plan_of(engine@, request@, optional(*database)), event@),
{
    let plan = match plan_table(engine, request, database) {
        Some(plan) => plan,
        None => {
            return ConfigureAction::Done(Ok(()));
        },
    };
    match event {
        ConfigureEvent::Start => ConfigureAction::LoadExtension("httpfs".to_string(), false),
        ConfigureEvent::Extension(_, Err(error)) => ConfigureAction::Done(Err(error)),
        ConfigureEvent::Extension(required, Ok(_)) => match plan.extension {
            Some(extension) => {
                if required {
                    ConfigureAction::CreateView(plan.sql)
                } else {
                    ConfigureAction::LoadExtension(extension, true)
                }
            },
            None => ConfigureAction::CreateView(plan.sql),
        },
        ConfigureEvent::View(Ok(_)) => ConfigureAction::Done(Ok(())),
        ConfigureEvent::View(Err(error)) => ConfigureAction::Done(
            Err("lakehouse table view creation failed: ".to_string().concat(error.as_str())),
        ),
    }
}

/// The settings that are executed after so many of the options, none of them failing.
pub open spec fn executed_settings(request: JsonView, done: int) -> Seq<SettingView>
    decreases SETTINGS - done,
{
    match next_setting(request, done) {
        SettingActionView::Execute(setting) => if done < setting.done <= SETTINGS {
            seq![setting] + executed_settings(request, setting.done)
        } else {
            seq![setting]
        },
        SettingActionView::Done(_) => seq![],
    }
}

/// The settings of the options that a request holds, after so many of the options.
pub open spec fn held_settings(request: JsonView, done: int) -> Seq<SettingView>
    decreases SETTINGS - done,
{
    if done < 0 || done >= SETTINGS {
        seq![]
    } else {
        let (field, name) = settings()[done];
        let rest = held_settings(request, done + 1);
        match option_of(request, seq![field]) {
            Some(value) => seq![
                SettingView { done: done + 1, name, sql: setting_sql(name, value) },
            ] + rest,
            None => rest,
        }
    }
}

/// A session is set by every option that the request holds, each once, in their order.
pub proof fn every_setting_is_applied(request: JsonView, done: int)
    requires
        0 <= done <= SETTINGS,
    ensures
        executed_settings(request, done) == held_settings(request, done),
    decreases SETTINGS - done,
{
    if done < SETTINGS {
        every_setting_is_applied(request, done + 1);
        let (field, _) = settings()[done];
        if option_of(request, seq![field]) is None {
            assert(next_setting(request, done) == next_setting(request, done + 1));
            lemma_next_setting(request, done + 1);
        }
    }
}

proof fn lemma_next_setting(request: JsonView, done: int)
    requires
        0 <= done <= SETTINGS,
    ensures
        next_setting(request, done) matches SettingActionView::Execute(setting) ==> done
            < setting.done <= SETTINGS,
    decreases SETTINGS - done,
{
    if done < SETTINGS {
        lemma_next_setting(request, done + 1);
    }
}

/// A session that can do without an extension is never kept from opening by it; one that cannot is
/// kept exactly when the extension could be neither installed nor loaded.
pub proof fn only_required_extensions_fail(
    extension: Seq<char>,
    installed: Result<(), Seq<char>>,
    loaded: Result<(), Seq<char>>,
)
    ensures
        extension_result(extension, false, installed, loaded) is Ok,
        extension_result(extension, true, installed, loaded) is Err <==> installed is Err
            && loaded is Err,
{
}

} // verus!

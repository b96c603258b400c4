//! The calls of a client: how they are told apart, and how a connection is opened and closed.
//!
//! Sessions are opened and catalogs are asked outside of this library. A function here takes what
//! came back and says what comes next.
use crate::catalog::{catalog_of, from_request, Auth, CatalogView, RestCatalog};
use crate::catalog_http::answered;
use crate::connections::{Connections, LakehouseConnection};
use crate::json::{no_members, Json, JsonNumber, JsonView, Members, NumberView};
use crate::json_text::parsed;
use crate::metadata::{catalog_answer, masked_each, metadata_refusal, session_answer};
use crate::query::{query_answer, query_refusal};
use crate::redaction::{masked_all, occurs, redact, redaction_removes_every_secret};
use crate::reply::{not_found_view, poisoned_view, Reply, ReplyView};
use crate::request::{
    option_like, option_of, redaction_values, secrets, secrets_are_complete,
};
use crate::session::{
    apply_settings, configure_connection, configure_step, next_setting, plan_of, setting_step,
    settings, ConfigureAction, ConfigureActionView, ConfigureEvent, ConfigureEventView, Setting,
    SettingAction, SettingActionView, SettingEvent, SettingEventView, SettingView, SETTINGS,
};
use crate::sync::done_result;
use crate::text;
use crate::text::{optional, texts};
use vstd::prelude::*;

verus! {

/// What a driver tells of itself.
pub struct Driver {
    pub engine: String,
    pub abi_version: u64,
    pub driver_linked: bool,
    /// The manifest document.
    pub manifest: String,
    /// The configuration document.
    pub config: String,
}

/// What a driver stands for.
pub struct DriverView {
    pub engine: Seq<char>,
    pub abi_version: u64,
    pub driver_linked: bool,
    pub manifest: Seq<char>,
    pub config: Seq<char>,
}

impl View for Driver {
    type V = DriverView;

    open spec fn view(&self) -> DriverView {
        DriverView {
            engine: self.engine@,
            abi_version: self.abi_version,
            driver_linked: self.driver_linked,
            manifest: self.manifest@,
            config: self.config@,
        }
    }
}

/// What is to be done about a call.
pub enum CallAction {
    /// Give this reply.
    Answer(Reply),
    /// Open a connection.
    Connect(Json),
    /// Run a statement.
    Query(Json),
    /// Describe what a connection shows.
    Metadata(Json),
    /// Close a connection.
    Close(Json),
}

/// What such an action stands for.
#[verifier::ext_equal]
pub enum CallActionView {
    Answer(ReplyView),
    Connect(JsonView),
    Query(JsonView),
    Metadata(JsonView),
    Close(JsonView),
}

impl View for CallAction {
    type V = CallActionView;

    open spec fn view(&self) -> CallActionView {
        match self {
            CallAction::Answer(reply) => CallActionView::Answer(reply@),
            CallAction::Connect(request) => CallActionView::Connect(request@),
            CallAction::Query(request) => CallActionView::Query(request@),
            CallAction::Metadata(request) => CallActionView::Metadata(request@),
            CallAction::Close(request) => CallActionView::Close(request@),
        }
    }
}

/// Whether a method works on a request.
pub open spec fn takes_request(method: Seq<char>) -> bool {
    method == "connect"@ || method == "query"@ || method == "metadata"@ || method == "close"@
}

/// What a driver tells of its health.
pub open spec fn health(driver: DriverView) -> Map<Seq<char>, JsonView> {
    no_members().insert("engine"@, JsonView::Text(driver.engine)).insert(
        "abiVersion"@,
        JsonView::Number(NumberView::Unsigned(driver.abi_version)),
    ).insert("driverLinked"@, JsonView::Bool(driver.driver_linked))
}

/// The value of a document, or null where it is not valid.
pub open spec fn value_or_null(value: Result<JsonView, Seq<char>>) -> JsonView {
    match value {
        Ok(value) => value,
        Err(_) => JsonView::Null,
    }
}

/// What a driver tells of itself, its documents having been read.
pub open spec fn description(
    driver: DriverView,
    manifest: Result<JsonView, Seq<char>>,
    config: Result<JsonView, Seq<char>>,
) -> Map<Seq<char>, JsonView> {
    health(driver).insert("manifest"@, value_or_null(manifest)).insert(
        "config"@,
        value_or_null(config),
    )
}

/// What is to be done about the call of a method.
pub open spec fn call_step(
    driver: DriverView,
    method: Seq<char>,
    request: JsonView,
) -> CallActionView {
    if method == "health"@ || method == "ping"@ {
        CallActionView::Answer(ReplyView::Success(health(driver)))
    } else if method == "describe"@ || method == "capabilities"@ {
        CallActionView::Answer(
            ReplyView::Success(
                description(driver, parsed(driver.manifest), parsed(driver.config)),
            ),
        )
    } else if method == "manifest"@ {
        CallActionView::Answer(ReplyView::Document(driver.manifest))
    } else if method == "config"@ {
        CallActionView::Answer(ReplyView::Document(driver.config))
    } else if method == "connect"@ {
        CallActionView::Connect(request)
    } else if method == "query"@ {
        CallActionView::Query(request)
    } else if method == "metadata"@ {
        CallActionView::Metadata(request)
    } else if method == "close"@ {
        CallActionView::Close(request)
    } else {
        CallActionView::Answer(
            ReplyView::Failure(
                "connector.unknownMethod"@,
                "unknown connector method: "@ + method,
            ),
        )
    }
}

impl Driver {
    /// What the driver tells of its health.
    fn health_members(&self) -> (members: Members)
        ensures
            members@ == health(self@),
    {
        Members::new().with_text("engine", self.engine.as_str()).with(
            "abiVersion",
            Json::Number(JsonNumber::from_unsigned(self.abi_version)),
        ).with("driverLinked", Json::Bool(self.driver_linked))
    }

    /// What the driver tells of itself, its documents having been read.
    pub fn describe(
        &self,
        manifest: Result<Json, String>,
        config: Result<Json, String>,
    ) -> (members: Members)
        ensures
            members@ == description(
                self@,
                answered(manifest),
                answered(config),
            ),
    {
        self.health_members().with("manifest", or_null(manifest)).with("config", or_null(config))
    }
}

/// The value of a document, or null where it is not valid.
fn or_null(value: Result<Json, String>) -> (json: Json)
    ensures
        json@ == value_or_null(answered(value)),
{
    match value {
        Ok(json) => json,
        Err(_) => Json::Null,
    }
}

/// What is to be done about the call of a method.
pub fn call_json(driver: &Driver, method: &str, request: Option<Json>) -> (action: CallAction)
    requires
        takes_request(method@) ==> request is Some,
    ensures
        action@ == call_step(driver@, method@, request->0@),
{
    if text::same(method, "health") || text::same(method, "ping") {
        return CallAction::Answer(Reply::Success(driver.health_members()));
    }
    if text::same(method, "describe") || text::same(method, "capabilities") {
        let manifest = Json::parse(driver.manifest.as_str());
        let config = Json::parse(driver.config.as_str());
        return CallAction::Answer(Reply::Success(driver.describe(manifest, config)));
    }
    if text::same(method, "manifest") {
        return CallAction::Answer(Reply::Document(driver.manifest.clone()));
    }
    if text::same(method, "config") {
        return CallAction::Answer(Reply::Document(driver.config.clone()));
    }
    match request {
        Some(request) if text::same(method, "connect") => CallAction::Connect(request),
        Some(request) if text::same(method, "query") => CallAction::Query(request),
        Some(request) if text::same(method, "metadata") => CallAction::Metadata(request),
        Some(request) if text::same(method, "close") => CallAction::Close(request),
        _ => CallAction::Answer(
            Reply::failure(
                "connector.unknownMethod",
                "unknown connector method: ".to_string().concat(method),
            ),
        ),
    }
}

/// What a connection is opened with, besides its session.
pub struct Opened {
    pub redaction_values: Vec<String>,
    pub catalog: Option<RestCatalog>,
    pub server_version: String,
}

/// What came back while a connection is opened.
pub enum ConnectEvent {
    /// Whether a session could be opened.
    Opened(Result<(), String>),
    /// Whether the statement of a setting could be executed.
    Setting(Setting, Result<(), String>),
    /// Whether the token of a catalog could be fetched.
    Token(RestCatalog, Result<(), String>),
    /// Whether the configuration of a catalog could be fetched.
    Configured(RestCatalog, Result<(), String>),
    /// Whether the extension could be loaded that the session cannot do without, or the other.
    Extension(bool, Result<(), String>),
    /// Whether the view of the single table could be created.
    View(Result<(), String>),
    /// The version of the session's engine, if it told.
    Version(Option<RestCatalog>, Option<String>),
}

/// What is to be done next to open a connection.
pub enum ConnectAction {
    /// Execute the statement of a setting.
    Setting(Setting),
    /// Fetch the token of a catalog.
    FetchToken(RestCatalog),
    /// Fetch the configuration of a catalog.
    FetchConfig(RestCatalog),
    /// Load an extension, without which the session can do or not.
    LoadExtension(String, bool),
    /// Execute the statement that creates the view of the single table.
    CreateView(String),
    /// Ask the session for the version of its engine.
    AskVersion(Option<RestCatalog>),
    /// Add the connection to those that are open.
    Open(Opened),
    /// Give this reply: the connection could not be opened.
    Fail(Reply),
}

/// What a connection is opened with.
#[verifier::ext_equal]
pub struct OpenedView {
    pub redaction_values: Seq<Seq<char>>,
    pub catalog: Option<CatalogView>,
    pub server_version: Seq<char>,
}

/// What an event stands for.
pub enum ConnectEventView {
    Opened(Result<(), Seq<char>>),
    Setting(SettingView, Result<(), Seq<char>>),
    Token(CatalogView, Result<(), Seq<char>>),
    Configured(CatalogView, Result<(), Seq<char>>),
    Extension(bool, Result<(), Seq<char>>),
    View(Result<(), Seq<char>>),
    Version(Option<CatalogView>, Option<Seq<char>>),
}

/// What an action stands for.
pub enum ConnectActionView {
    Setting(SettingView),
    FetchToken(CatalogView),
    FetchConfig(CatalogView),
    LoadExtension(Seq<char>, bool),
    CreateView(Seq<char>),
    AskVersion(Option<CatalogView>),
    Open(OpenedView),
    Fail(ReplyView),
}

/// What an optional catalog stands for.
pub open spec fn catalog_view(catalog: Option<RestCatalog>) -> Option<CatalogView> {
    match catalog {
        Some(catalog) => Some(catalog@),
        None => None,
    }
}

impl View for Opened {
    type V = OpenedView;

    open spec fn view(&self) -> OpenedView {
        OpenedView {
            redaction_values: texts(self.redaction_values@),
            catalog: catalog_view(self.catalog),
            server_version: self.server_version@,
        }
    }
}

impl View for ConnectEvent {
    type V = ConnectEventView;

    open spec fn view(&self) -> ConnectEventView {
        match self {
            ConnectEvent::Opened(result) => ConnectEventView::Opened(done_result(*result)),
            ConnectEvent::Setting(setting, result) => ConnectEventView::Setting(
                setting@,
                done_result(*result),
            ),
            ConnectEvent::Token(catalog, result) => ConnectEventView::Token(
                catalog@,
                done_result(*result),
            ),
            ConnectEvent::Configured(catalog, result) => ConnectEventView::Configured(
                catalog@,
                done_result(*result),
            ),
            ConnectEvent::Extension(required, result) => ConnectEventView::Extension(
                *required,
                done_result(*result),
            ),
            ConnectEvent::View(result) => ConnectEventView::View(done_result(*result)),
            ConnectEvent::Version(catalog, version) => ConnectEventView::Version(
                catalog_view(*catalog),
                optional(*version),
            ),
        }
    }
}

impl View for ConnectAction {
    type V = ConnectActionView;

    open spec fn view(&self) -> ConnectActionView {
        match self {
            ConnectAction::Setting(setting) => ConnectActionView::Setting(setting@),
            ConnectAction::FetchToken(catalog) => ConnectActionView::FetchToken(catalog@),
            ConnectAction::FetchConfig(catalog) => ConnectActionView::FetchConfig(catalog@),
            ConnectAction::LoadExtension(name, required) => ConnectActionView::LoadExtension(
                name@,
                *required,
            ),
            ConnectAction::CreateView(sql) => ConnectActionView::CreateView(sql@),
            ConnectAction::AskVersion(catalog) => ConnectActionView::AskVersion(
                catalog_view(*catalog),
            ),
            ConnectAction::Open(opened) => ConnectActionView::Open(opened@),
            ConnectAction::Fail(reply) => ConnectActionView::Fail(reply@),
        }
    }
}

/// The reply to a request whose connection could not be opened: what is secret in the request is
/// masked.
pub open spec fn connect_failure(request: JsonView, error: Seq<char>) -> ReplyView {
    ReplyView::Failure("connector.connectFailed"@, masked_all(error, secrets(request)))
}

/// What follows when the single table of a request is dealt with.
pub open spec fn table_next(request: JsonView, action: ConfigureActionView) -> ConnectActionView {
    match action {
        ConfigureActionView::LoadExtension(name, required) => ConnectActionView::LoadExtension(
            name,
            required,
        ),
        ConfigureActionView::CreateView(sql) => ConnectActionView::CreateView(sql),
        ConfigureActionView::Done(Ok(_)) => ConnectActionView::AskVersion(None),
        ConfigureActionView::Done(Err(error)) => ConnectActionView::Fail(
            connect_failure(request, error),
        ),
    }
}

/// What follows when a session is set: the catalog of the request is contacted, its token being
/// fetched first where there is one to fetch; without a catalog, the single table is exposed.
pub open spec fn session_ready(
    engine: Seq<char>,
    request: JsonView,
    database: Option<Seq<char>>,
) -> ConnectActionView {
    match catalog_of(request) {
        Err(error) => ConnectActionView::Fail(connect_failure(request, error)),
        Ok(Some(catalog)) => if catalog.auth is OAuth2 {
            ConnectActionView::FetchToken(catalog)
        } else {
            ConnectActionView::FetchConfig(catalog)
        },
        Ok(None) => table_next(
            request,
            configure_step(plan_of(engine, request, database), ConfigureEventView::Start),
        ),
    }
}

/// What follows while a session is set.
pub open spec fn setting_next(
    engine: Seq<char>,
    request: JsonView,
    database: Option<Seq<char>>,
    action: SettingActionView,
) -> ConnectActionView {
    match action {
        SettingActionView::Execute(setting) => ConnectActionView::Setting(setting),
        SettingActionView::Done(Ok(_)) => session_ready(engine, request, database),
        SettingActionView::Done(Err(error)) => ConnectActionView::Fail(
            connect_failure(request, error),
        ),
    }
}

/// What follows an event while the connection of a request is opened.
pub open spec fn connect_step(
    engine: Seq<char>,
    request: JsonView,
    database: Option<Seq<char>>,
    event: ConnectEventView,
) -> ConnectActionView {
    match event {
        ConnectEventView::Opened(Err(error)) => ConnectActionView::Fail(
            ReplyView::Failure("connector.connectFailed"@, "connect failed: "@ + error),
        ),
        ConnectEventView::Opened(Ok(_)) => setting_next(
            engine,
            request,
            database,
            setting_step(request, SettingEventView::Start),
        ),
        ConnectEventView::Setting(setting, result) => setting_next(
            engine,
            request,
            database,
            setting_step(request, SettingEventView::Executed(setting, result)),
        ),
        ConnectEventView::Token(_, Err(error)) => ConnectActionView::Fail(
            connect_failure(request, error),
        ),
        ConnectEventView::Token(catalog, Ok(_)) => ConnectActionView::FetchConfig(catalog),
        ConnectEventView::Configured(_, Err(error)) => ConnectActionView::Fail(
            connect_failure(request, error),
        ),
        ConnectEventView::Configured(catalog, Ok(_)) => ConnectActionView::AskVersion(
            Some(catalog),
        ),
        ConnectEventView::Extension(required, result) => table_next(
            request,
            configure_step(
                plan_of(engine, request, database),
                ConfigureEventView::Extension(required, result),
            ),
        ),
        ConnectEventView::View(result) => table_next(
            request,
            configure_step(plan_of(engine, request, database), ConfigureEventView::View(result)),
        ),
        ConnectEventView::Version(catalog, version) => ConnectActionView::Open(
            OpenedView {
                redaction_values: secrets(request),
                catalog,
                server_version: match version {
                    Some(version) => version,
                    None => "DuckDB lakehouse runtime"@,
                },
            },
        ),
    }
}

/// Tells that the connection of a request could not be opened.
fn fail_connect(request: &Json, error: String) -> (action: ConnectAction)
    ensures
        action@ == ConnectActionView::Fail(connect_failure(request@, error@)),
{
    let values = redaction_values(request);
    ConnectAction::Fail(
        Reply::failure(
            "connector.connectFailed",
            redact(values.as_slice(), error.as_str()),
        ),
    )
}

/// What follows when the single table of a request is dealt with.
fn after_table(request: &Json, action: ConfigureAction) -> (next: ConnectAction)
    ensures
        next@ == table_next(request@, action@),
{
    match action {
        ConfigureAction::LoadExtension(name, required) => ConnectAction::LoadExtension(
            name,
            required,
        ),
        ConfigureAction::CreateView(sql) => ConnectAction::CreateView(sql),
        ConfigureAction::Done(Ok(_)) => ConnectAction::AskVersion(None),
        ConfigureAction::Done(Err(error)) => fail_connect(request, error),
    }
}

/// What follows while a session is set.
fn after_setting(
    engine: &str,
    request: &Json,
    database: &Option<String>,
    action: SettingAction,
) -> (next: ConnectAction)
    ensures
        next@ == setting_next(engine@, request@, optional(*database), action@),
{
    match action {
        SettingAction::Execute(setting) => ConnectAction::Setting(setting),
        SettingAction::Done(Err(error)) => fail_connect(request, error),
        SettingAction::Done(Ok(_)) => match from_request(request) {
            Err(error) => fail_connect(request, error),
            Ok(Some(catalog)) => match &catalog.auth {
                Auth::OAuth2(_) => ConnectAction::FetchToken(catalog),
                _ => ConnectAction::FetchConfig(catalog),
            },
            Ok(None) => {
                let action = configure_connection(
                    engine,
                    request,
                    database,
                    ConfigureEvent::Start,
                );
                after_table(request, action)
            },
        },
    }
}

/// What follows an event while the connection of a request is opened. `database` is the database of
/// the request's profile.
pub fn connect(
    engine: &str,
    request: &Json,
    database: &Option<String>,
    event: ConnectEvent,
) -> (action: ConnectAction)
    ensures
        action@ == connect_step(engine@, request@, optional(*database), event@),
{
    match event {
        ConnectEvent::Opened(Err(error)) => ConnectAction::Fail(
            Reply::failure(
                "connector.connectFailed",
                "connect failed: ".to_string().concat(error.as_str()),
            ),
        ),
        ConnectEvent::Opened(Ok(_)) => {
            let action = apply_settings(request, SettingEvent::Start);
            after_setting(engine, request, database, action)
        },
        ConnectEvent::Setting(setting, result) => {
            let action = apply_settings(request, SettingEvent::Executed(setting, result));
            after_setting(engine, request, database, action)
        },
        ConnectEvent::Token(_, Err(error)) => fail_connect(request, error),
        ConnectEvent::Token(catalog, Ok(_)) => ConnectAction::FetchConfig(catalog),
        ConnectEvent::Configured(_, Err(error)) => fail_connect(request, error),
        ConnectEvent::Configured(catalog, Ok(_)) => ConnectAction::AskVersion(Some(catalog)),
        ConnectEvent::Extension(required, result) => {
            let event = ConfigureEvent::Extension(required, result);
            after_table(request, configure_connection(engine, request, database, event))
        },
        ConnectEvent::View(result) => {
            let event = ConfigureEvent::View(result);
            after_table(request, configure_connection(engine, request, database, event))
        },
        ConnectEvent::Version(catalog, version) => ConnectAction::Open(
            Opened {
                redaction_values: redaction_values(request),
                catalog,
                server_version: match version {
                    Some(version) => version,
                    None => "DuckDB lakehouse runtime".to_string(),
                },
            },
        ),
    }
}

/// The reply to a request whose connection is open.
pub open spec fn connected_view(
    driver: DriverView,
    connection_id: Seq<char>,
    server_version: Seq<char>,
) -> ReplyView {
    ReplyView::Success(
        no_members().insert("engine"@, JsonView::Text(driver.engine)).insert(
            "connectionId"@,
            JsonView::Text(connection_id),
        ).insert("serverVersion"@, JsonView::Text(server_version)).insert(
            "driverLinked"@,
            JsonView::Bool(driver.driver_linked),
        ),
    )
}

/// Adds a connection to those that are open, unless their state is poisoned. A connection with the
/// same identifier is replaced.
pub fn open<C>(
    connections: &mut Connections<C>,
    poisoned: bool,
    driver: &Driver,
    connection_id: &str,
    conn: C,
    opened: Opened,
) -> (reply: Reply)
    ensures
        final(connections)@ == if poisoned {
            old(connections)@
        } else {
            old(connections)@.insert(
                connection_id@,
                (LakehouseConnection {
                    conn,
                    redaction_values: opened.redaction_values,
                    catalog: opened.catalog,
                }),
            )
        },
        reply@ == if poisoned {
            poisoned_view()
        } else {
            connected_view(driver@, connection_id@, opened.server_version@)
        },
{
    if poisoned {
        return Reply::poisoned();
    }
    connections.insert(
        connection_id,
        LakehouseConnection {
            conn,
            redaction_values: opened.redaction_values,
            catalog: opened.catalog,
        },
    );
    Reply::Success(
        Members::new().with_text("engine", driver.engine.as_str()).with_text(
            "connectionId",
            connection_id,
        ).with_text("serverVersion", opened.server_version.as_str()).with(
            "driverLinked",
            Json::Bool(driver.driver_linked),
        ),
    )
}

/// The reply to a request to close a connection.
pub open spec fn closed_view(connection_id: Seq<char>, closed: bool) -> ReplyView {
    ReplyView::Success(
        no_members().insert("connectionId"@, JsonView::Text(connection_id)).insert(
            "closed"@,
            JsonView::Bool(closed),
        ),
    )
}

/// Closes a connection, unless the state of the connections is poisoned.
pub fn close<C>(connections: &mut Connections<C>, poisoned: bool, connection_id: &str) -> (reply:
    Reply)
    ensures
        final(connections)@ == if poisoned {
            old(connections)@
        } else {
            old(connections)@.remove(connection_id@)
        },
        reply@ == if poisoned {
            poisoned_view()
        } else {
            closed_view(connection_id@, old(connections)@.dom().contains(connection_id@))
        },
{
    if poisoned {
        return Reply::poisoned();
    }
    let closed = connections.remove(connection_id).is_some();
    Reply::Success(
        Members::new().with_text("connectionId", connection_id).with("closed", Json::Bool(closed)),
    )
}

/// A catalog owns the discovery of tables: a session that is set contacts the catalog of its request,
/// fetching the token first where there is one to fetch, and exposes a single table only where there
/// is no catalog.
pub proof fn a_catalog_owns_table_discovery(
    engine: Seq<char>,
    request: JsonView,
    database: Option<Seq<char>>,
)
    ensures
        match session_ready(engine, request, database) {
            ConnectActionView::FetchToken(catalog) => catalog_of(request) == Ok::<
                Option<CatalogView>,
                Seq<char>,
            >(Some(catalog)) && catalog.auth is OAuth2,
            ConnectActionView::FetchConfig(catalog) => catalog_of(request) == Ok::<
                Option<CatalogView>,
                Seq<char>,
            >(Some(catalog)) && catalog.auth !is OAuth2,
            ConnectActionView::Fail(reply) => catalog_of(request) is Err,
            _ => catalog_of(request) == Ok::<Option<CatalogView>, Seq<char>>(None),
        },
{
}

/// Whether an event tells of a failure.
pub open spec fn tells_failure(event: ConnectEventView) -> bool {
    match event {
        ConnectEventView::Opened(result) => result is Err,
        ConnectEventView::Setting(_, result) => result is Err,
        ConnectEventView::Token(_, result) => result is Err,
        ConnectEventView::Configured(_, result) => result is Err,
        ConnectEventView::Extension(_, result) => result is Err,
        ConnectEventView::View(result) => result is Err,
        ConnectEventView::Version(..) => false,
    }
}

/// A failure ends the attempt to open a connection, with nothing done after it.
pub proof fn a_failure_ends_the_attempt(
    engine: Seq<char>,
    request: JsonView,
    database: Option<Seq<char>>,
    event: ConnectEventView,
)
    requires
        tells_failure(event),
        event is Extension || event is View ==> plan_of(engine, request, database) is Some,
    ensures
        connect_step(engine, request, database, event) is Fail,
{
}

/// The event that tells that what was to be done was done: a catalog that was contacted is handed
/// back as it then is.
pub open spec fn done_event(
    action: ConnectActionView,
    contacted: CatalogView,
    version: Option<Seq<char>>,
) -> Option<ConnectEventView> {
    match action {
        ConnectActionView::Setting(setting) => Some(ConnectEventView::Setting(setting, Ok(()))),
        ConnectActionView::FetchToken(catalog) => Some(ConnectEventView::Token(catalog, Ok(()))),
        ConnectActionView::FetchConfig(_) => Some(
            ConnectEventView::Configured(contacted, Ok(())),
        ),
        ConnectActionView::LoadExtension(_, required) => Some(
            ConnectEventView::Extension(required, Ok(())),
        ),
        ConnectActionView::CreateView(_) => Some(ConnectEventView::View(Ok(()))),
        ConnectActionView::AskVersion(catalog) => Some(
            ConnectEventView::Version(catalog, version),
        ),
        _ => None,
    }
}

/// What an attempt to open a connection comes to after at most so many steps, none of them failing.
pub open spec fn connect_end(
    engine: Seq<char>,
    request: JsonView,
    database: Option<Seq<char>>,
    action: ConnectActionView,
    contacted: CatalogView,
    version: Option<Seq<char>>,
    steps: nat,
) -> ConnectActionView
    decreases steps,
{
    match done_event(action, contacted, version) {
        Some(event) if steps > 0 => connect_end(
            engine,
            request,
            database,
            connect_step(engine, request, database, event),
            contacted,
            version,
            (steps - 1) as nat,
        ),
        _ => action,
    }
}

/// What the connection of a request is opened with.
pub open spec fn opened_with(
    request: JsonView,
    contacted: CatalogView,
    version: Option<Seq<char>>,
) -> OpenedView {
    OpenedView {
        redaction_values: secrets(request),
        catalog: match catalog_of(request) {
            Ok(Some(_)) => Some(contacted),
            _ => None,
        },
        server_version: match version {
            Some(version) => version,
            None => "DuckDB lakehouse runtime"@,
        },
    }
}

proof fn lemma_session_opens(
    engine: Seq<char>,
    request: JsonView,
    database: Option<Seq<char>>,
    contacted: CatalogView,
    version: Option<Seq<char>>,
    steps: nat,
)
    requires
        catalog_of(request) is Ok,
        steps >= 4,
    ensures
        connect_end(
            engine,
            request,
            database,
            session_ready(engine, request, database),
            contacted,
            version,
            steps,
        ) == ConnectActionView::Open(opened_with(request, contacted, version)),
{
    reveal_with_fuel(connect_end, 5);
}

proof fn lemma_settings_open(
    engine: Seq<char>,
    request: JsonView,
    database: Option<Seq<char>>,
    contacted: CatalogView,
    version: Option<Seq<char>>,
    done: int,
    steps: nat,
)
    requires
        catalog_of(request) is Ok,
        0 <= done <= SETTINGS,
        steps >= SETTINGS - done + 4,
    ensures
        connect_end(
            engine,
            request,
            database,
            setting_next(engine, request, database, next_setting(request, done)),
            contacted,
            version,
            steps,
        ) == ConnectActionView::Open(opened_with(request, contacted, version)),
    decreases SETTINGS - done,
{
    if done == SETTINGS {
        lemma_session_opens(engine, request, database, contacted, version, steps);
    } else {
        let (field, _) = settings()[done];
        if option_of(request, seq![field]) is Some {
            lemma_settings_open(
                engine,
                request,
                database,
                contacted,
                version,
                done + 1,
                (steps - 1) as nat,
            );
        } else {
            lemma_settings_open(engine, request, database, contacted, version, done + 1, steps);
        }
    }
}

/// An attempt in which nothing fails opens the connection, within as many steps as there are settings
/// and four more; it keeps the secrets of the request, and the catalog where the request has one.
pub proof fn unfailing_connects_open(
    engine: Seq<char>,
    request: JsonView,
    database: Option<Seq<char>>,
    contacted: CatalogView,
    version: Option<Seq<char>>,
)
    requires
        catalog_of(request) is Ok,
    ensures
        connect_end(
            engine,
            request,
            database,
            connect_step(engine, request, database, ConnectEventView::Opened(Ok(()))),
            contacted,
            version,
            SETTINGS as nat + 4,
        ) == ConnectActionView::Open(opened_with(request, contacted, version)),
{
    lemma_settings_open(
        engine,
        request,
        database,
        contacted,
        version,
        0,
        SETTINGS as nat + 4,
    );
}

/// Whether a reply is a failure whose message holds a text.
pub open spec fn tells(reply: ReplyView, secret: Seq<char>) -> bool {
    reply matches ReplyView::Failure(_, message) && occurs(secret, message)
}

/// The reply to a request whose connection could not be opened holds none of the secrets of the
/// request, unless a secret has characters of the mask.
pub proof fn failed_connects_tell_no_secret(
    request: JsonView,
    error: Seq<char>,
    secret: Seq<char>,
)
    requires
        secrets(request).contains(secret),
        !secret.contains('*'),
    ensures
        !tells(connect_failure(request, error), secret),
{
    let all = secrets(request);
    secrets_are_complete(request);
    let i = choose|i: int| 0 <= i < all.len() && all[i] == secret;
    assert(option_like(all[i]));
    redaction_removes_every_secret(error, all, secret);
}

/// A statement or a description that failed is reported without the secrets of its connection, unless
/// a secret has characters of the mask.
pub proof fn failed_calls_tell_no_secret(
    values: Seq<Seq<char>>,
    connection_id: Seq<char>,
    error: Seq<char>,
    secret: Seq<char>,
)
    requires
        values.contains(secret),
        secret.len() > 0,
        !secret.contains('*'),
    ensures
        !tells(query_answer(values, connection_id, Err(error)), secret),
        !tells(catalog_answer(values, connection_id, Err(error)), secret),
        !tells(session_answer(values, connection_id, Err(error)), secret),
{
    redaction_removes_every_secret(error, values, secret);
}

/// The warnings about a catalog are reported without the secrets of the connection, unless a secret
/// has characters of the mask.
pub proof fn warnings_tell_no_secret(
    values: Seq<Seq<char>>,
    warnings: Seq<Seq<char>>,
    secret: Seq<char>,
    i: int,
)
    requires
        values.contains(secret),
        secret.len() > 0,
        !secret.contains('*'),
        0 <= i < warnings.len(),
    ensures
        !occurs(secret, masked_each(warnings, values)[i]),
{
    redaction_removes_every_secret(warnings[i], values, secret);
}

/// A connection that was opened is found, by a statement and by a request for metadata, and the other
/// connections are as they were.
pub proof fn opened_connections_are_found<C>(
    connections: Map<Seq<char>, LakehouseConnection<C>>,
    connection_id: Seq<char>,
    connection: LakehouseConnection<C>,
    sql: Seq<char>,
    other: Seq<char>,
)
    requires
        other != connection_id,
    ensures
        ({
            let after = connections.insert(connection_id, connection);
            &&& query_refusal(after, false, connection_id, Some(sql)) is None
            &&& metadata_refusal(after, false, connection_id) is None
            &&& after[connection_id] == connection
            &&& after.dom().contains(other) <==> connections.dom().contains(other)
            &&& after.dom().contains(other) ==> after[other] == connections[other]
        }),
{
}

/// A connection that was closed is not found, is not closed again, and the other connections are as
/// they were.
pub proof fn closed_connections_are_gone<C>(
    connections: Map<Seq<char>, LakehouseConnection<C>>,
    connection_id: Seq<char>,
    sql: Seq<char>,
    other: Seq<char>,
)
    requires
        other != connection_id,
    ensures
        ({
            let after = connections.remove(connection_id);
            &&& query_refusal(after, false, connection_id, Some(sql)) == Some(
                not_found_view(connection_id),
            )
            &&& metadata_refusal(after, false, connection_id) == Some(
                not_found_view(connection_id),
            )
            &&& closed_view(connection_id, after.dom().contains(connection_id)) == closed_view(
                connection_id,
                false,
            )
            &&& after.dom().contains(other) <==> connections.dom().contains(other)
            &&& after.dom().contains(other) ==> after[other] == connections[other]
        }),
{
}

} // verus!

//! What the calls of a client promise, stated on the methods and the members of the replies.
use crate::catalog::{catalog_of, CatalogView};
use crate::driver::{
    call_step, closed_view, connect_step, connected_view, takes_request, CallActionView,
    ConnectActionView, ConnectEventView, DriverView, OpenedView,
};
use crate::json::{JsonView, NumberView};
use crate::json_text::parsed;
use crate::redaction::masked_all;
use crate::reply::{not_found_view, poisoned_view, ReplyView};
use crate::request::secrets;
use crate::session::{
    configure_step, plan_of, setting_step, ConfigureActionView, ConfigureEventView,
    SettingActionView, SettingEventView, SettingView,
};
use vstd::prelude::*;

verus! {

proof fn lemma_members()
    ensures
        "engine"@ != "abiVersion"@,
        "engine"@ != "driverLinked"@,
        "engine"@ != "manifest"@,
        "engine"@ != "config"@,
        "engine"@ != "connectionId"@,
        "engine"@ != "serverVersion"@,
        "abiVersion"@ != "driverLinked"@,
        "abiVersion"@ != "manifest"@,
        "abiVersion"@ != "config"@,
        "driverLinked"@ != "manifest"@,
        "driverLinked"@ != "config"@,
        "driverLinked"@ != "connectionId"@,
        "driverLinked"@ != "serverVersion"@,
        "manifest"@ != "config"@,
        "connectionId"@ != "serverVersion"@,
        "connectionId"@ != "closed"@,
{
    reveal_strlit("engine");
    reveal_strlit("abiVersion");
    reveal_strlit("driverLinked");
    reveal_strlit("manifest");
    reveal_strlit("config");
    reveal_strlit("connectionId");
    reveal_strlit("serverVersion");
    reveal_strlit("closed");
    assert("engine"@[0] == 'e');
    assert("abiVersion"@[0] == 'a');
    assert("driverLinked"@[0] == 'd');
    assert("manifest"@[0] == 'm');
    assert("config"@[0] == 'c');
    assert("connectionId"@[0] == 'c');
    assert("serverVersion"@[0] == 's');
    assert("closed"@.len() == 6);
    assert("connectionId"@.len() == 12);
}

proof fn lemma_methods()
    ensures
        "health"@ != "describe"@,
        "ping"@ != "describe"@,
        "health"@ != "capabilities"@,
        "ping"@ != "capabilities"@,
        ({
            let early = seq!["health"@, "ping"@, "describe"@, "capabilities"@];
            let late = seq!["manifest"@, "config"@, "connect"@, "query"@, "metadata"@, "close"@];
            &&& forall|i: int, j: int|
                0 <= i < early.len() && 0 <= j < late.len() ==> #[trigger] early[i]
                    != #[trigger] late[j]
            &&& forall|i: int, j: int|
                0 <= i < j < late.len() ==> #[trigger] late[i] != #[trigger] late[j]
        }),
{
    reveal_strlit("health");
    reveal_strlit("ping");
    reveal_strlit("describe");
    reveal_strlit("capabilities");
    reveal_strlit("manifest");
    reveal_strlit("config");
    reveal_strlit("connect");
    reveal_strlit("query");
    reveal_strlit("metadata");
    reveal_strlit("close");
    assert("health"@[0] == 'h');
    assert("ping"@[0] == 'p');
    assert("describe"@[0] == 'd');
    assert("capabilities"@.len() == 12);
    assert("manifest"@[0] == 'm' && "manifest"@[1] == 'a');
    assert("metadata"@[0] == 'm' && "metadata"@[1] == 'e');
    assert("query"@[0] == 'q');
    assert("config"@[0] == 'c' && "config"@.len() == 6);
    assert("connect"@[0] == 'c' && "connect"@.len() == 7);
    assert("close"@[0] == 'c' && "close"@.len() == 5);
}

/// Whether members tell the health of a driver: its engine, its version and whether it is linked.
pub open spec fn tells_health(members: Map<Seq<char>, JsonView>, driver: DriverView) -> bool {
    &&& members.dom().contains("engine"@)
    &&& members.dom().contains("abiVersion"@)
    &&& members.dom().contains("driverLinked"@)
    &&& members["engine"@] == JsonView::Text(driver.engine)
    &&& members["abiVersion"@] == JsonView::Number(NumberView::Unsigned(driver.abi_version))
    &&& members["driverLinked"@] == JsonView::Bool(driver.driver_linked)
}

/// A driver tells its health under two names, and nothing but its health.
pub proof fn health_is_told(driver: DriverView, method: Seq<char>, request: JsonView)
    requires
        method == "health"@ || method == "ping"@,
    ensures
        call_step(driver, method, request) matches CallActionView::Answer(
            ReplyView::Success(members),
        ) && tells_health(members, driver) && members.dom() == set![
            "engine"@,
            "abiVersion"@,
            "driverLinked"@,
        ],
{
    lemma_members();
    if let CallActionView::Answer(ReplyView::Success(members)) = call_step(driver, method, request) {
        assert(members.dom() =~= set!["engine"@, "abiVersion"@, "driverLinked"@]);
    }
}

/// A driver describes itself under two names: its health, and its two documents, each as it reads, or
/// null where it does not.
pub proof fn drivers_describe_themselves(driver: DriverView, method: Seq<char>, request: JsonView)
    requires
        method == "describe"@ || method == "capabilities"@,
    ensures
        call_step(driver, method, request) matches CallActionView::Answer(
            ReplyView::Success(members),
        ) && tells_health(members, driver) && members.dom() == set![
            "engine"@,
            "abiVersion"@,
            "driverLinked"@,
            "manifest"@,
            "config"@,
        ] && (match parsed(driver.manifest) {
            Ok(value) => members["manifest"@] == value,
            Err(_) => members["manifest"@] == JsonView::Null,
        }) && (match parsed(driver.config) {
            Ok(value) => members["config"@] == value,
            Err(_) => members["config"@] == JsonView::Null,
        }),
{
    lemma_members();
    lemma_methods();
    if let CallActionView::Answer(ReplyView::Success(members)) = call_step(driver, method, request) {
        assert(members.dom() =~= set![
            "engine"@,
            "abiVersion"@,
            "driverLinked"@,
            "manifest"@,
            "config"@,
        ]);
    }
}

/// The documents of a driver are handed out as they are, and the calls about connections are told apart
/// by their names.
pub proof fn methods_are_told_apart(driver: DriverView, request: JsonView)
    ensures
        call_step(driver, "manifest"@, request) == CallActionView::Answer(
            ReplyView::Document(driver.manifest),
        ),
        call_step(driver, "config"@, request) == CallActionView::Answer(
            ReplyView::Document(driver.config),
        ),
        call_step(driver, "connect"@, request) == CallActionView::Connect(request),
        call_step(driver, "query"@, request) == CallActionView::Query(request),
        call_step(driver, "metadata"@, request) == CallActionView::Metadata(request),
        call_step(driver, "close"@, request) == CallActionView::Close(request),
{
    lemma_methods();
    let early = seq!["health"@, "ping"@, "describe"@, "capabilities"@];
    let late = seq!["manifest"@, "config"@, "connect"@, "query"@, "metadata"@, "close"@];
    assert(early[0] == "health"@ && early[1] == "ping"@ && early[2] == "describe"@ && early[3]
        == "capabilities"@);
    assert(late[0] == "manifest"@ && late[1] == "config"@ && late[2] == "connect"@ && late[3]
        == "query"@ && late[4] == "metadata"@ && late[5] == "close"@);
}

/// Four of the methods work on a request; any method that is none of the ten is refused by its name.
pub proof fn other_methods_are_refused(driver: DriverView, method: Seq<char>, request: JsonView)
    ensures
        takes_request(method) <==> method == "connect"@ || method == "query"@ || method
            == "metadata"@ || method == "close"@,
        method != "health"@ && method != "ping"@ && method != "describe"@ && method
            != "capabilities"@ && method != "manifest"@ && method != "config"@ && !takes_request(
            method,
        ) ==> call_step(driver, method, request) == CallActionView::Answer(
            ReplyView::Failure(
                "connector.unknownMethod"@,
                "unknown connector method: "@ + method,
            ),
        ),
{
}

/// The reply to a request whose connection could not be opened: the reason, with the secrets of the
/// request masked.
pub open spec fn refused(request: JsonView, reason: Seq<char>) -> ConnectActionView {
    ConnectActionView::Fail(
        ReplyView::Failure("connector.connectFailed"@, masked_all(reason, secrets(request))),
    )
}

/// Whether an action is what follows when the single table of a request is dealt with: what is done
/// about the table, and the question for the version when that is done.
pub open spec fn follows_table(
    action: ConnectActionView,
    request: JsonView,
    about: ConfigureActionView,
) -> bool {
    match about {
        ConfigureActionView::LoadExtension(name, required) => action
            == ConnectActionView::LoadExtension(name, required),
        ConfigureActionView::CreateView(sql) => action == ConnectActionView::CreateView(sql),
        ConfigureActionView::Done(Ok(_)) => action == ConnectActionView::AskVersion(None),
        ConfigureActionView::Done(Err(reason)) => action == refused(request, reason),
    }
}

/// Whether an action is what follows while a session is set: the next setting, and when all are set the
/// catalog of the request, its token first where there is one to fetch, or else its single table.
pub open spec fn follows_setting(
    action: ConnectActionView,
    engine: Seq<char>,
    request: JsonView,
    database: Option<Seq<char>>,
    about: SettingActionView,
) -> bool {
    match about {
        SettingActionView::Execute(setting) => action == ConnectActionView::Setting(setting),
        SettingActionView::Done(Err(reason)) => action == refused(request, reason),
        SettingActionView::Done(Ok(_)) => match catalog_of(request) {
            Err(reason) => action == refused(request, reason),
            Ok(Some(catalog)) => if catalog.auth is OAuth2 {
                action == ConnectActionView::FetchToken(catalog)
            } else {
                action == ConnectActionView::FetchConfig(catalog)
            },
            Ok(None) => follows_table(
                action,
                request,
                configure_step(plan_of(engine, request, database), ConfigureEventView::Start),
            ),
        },
    }
}

/// A session that could not be opened is reported as it is. One that could is set, setting by setting,
/// and is then pointed at its catalog or its table.
pub proof fn sessions_are_set_and_pointed(
    engine: Seq<char>,
    request: JsonView,
    database: Option<Seq<char>>,
    setting: SettingView,
    result: Result<(), Seq<char>>,
    reason: Seq<char>,
)
    ensures
        connect_step(engine, request, database, ConnectEventView::Opened(Err(reason)))
            == ConnectActionView::Fail(
            ReplyView::Failure("connector.connectFailed"@, "connect failed: "@ + reason),
        ),
        follows_setting(
            connect_step(engine, request, database, ConnectEventView::Opened(Ok(()))),
            engine,
            request,
            database,
            setting_step(request, SettingEventView::Start),
        ),
        follows_setting(
            connect_step(engine, request, database, ConnectEventView::Setting(setting, result)),
            engine,
            request,
            database,
            setting_step(request, SettingEventView::Executed(setting, result)),
        ),
{
}

/// A catalog whose token was fetched is asked for its configuration, and one whose configuration was
/// fetched goes with the connection; a failure of either is reported.
pub proof fn catalogs_are_contacted(
    engine: Seq<char>,
    request: JsonView,
    database: Option<Seq<char>>,
    catalog: CatalogView,
    reason: Seq<char>,
)
    ensures
        connect_step(engine, request, database, ConnectEventView::Token(catalog, Ok(())))
            == ConnectActionView::FetchConfig(catalog),
        connect_step(engine, request, database, ConnectEventView::Token(catalog, Err(reason)))
            == refused(request, reason),
        connect_step(engine, request, database, ConnectEventView::Configured(catalog, Ok(())))
            == ConnectActionView::AskVersion(Some(catalog)),
        connect_step(engine, request, database, ConnectEventView::Configured(catalog, Err(reason)))
            == refused(request, reason),
{
}

/// The single table of a request is exposed step by step.
pub proof fn single_tables_are_exposed(
    engine: Seq<char>,
    request: JsonView,
    database: Option<Seq<char>>,
    required: bool,
    result: Result<(), Seq<char>>,
)
    ensures
        follows_table(
            connect_step(engine, request, database, ConnectEventView::Extension(required, result)),
            request,
            configure_step(
                plan_of(engine, request, database),
                ConfigureEventView::Extension(required, result),
            ),
        ),
        follows_table(
            connect_step(engine, request, database, ConnectEventView::View(result)),
            request,
            configure_step(plan_of(engine, request, database), ConfigureEventView::View(result)),
        ),
{
}

/// A connection keeps the secrets of its request and its catalog, and reports the version of its engine,
/// or a fixed text where the engine did not tell.
pub proof fn connections_keep_what_they_need(
    engine: Seq<char>,
    request: JsonView,
    database: Option<Seq<char>>,
    catalog: Option<CatalogView>,
    version: Seq<char>,
)
    ensures
        connect_step(engine, request, database, ConnectEventView::Version(catalog, Some(version)))
            == ConnectActionView::Open(
            (OpenedView {
                redaction_values: secrets(request),
                catalog,
                server_version: version,
            }),
        ),
        connect_step(engine, request, database, ConnectEventView::Version(catalog, None))
            == ConnectActionView::Open(
            (OpenedView {
                redaction_values: secrets(request),
                catalog,
                server_version: "DuckDB lakehouse runtime"@,
            }),
        ),
{
}

/// A connection that is open is reported by the engine, its identifier, the version and whether the
/// driver is linked; one that was closed by its identifier and whether it was open.
pub proof fn connections_are_reported(
    driver: DriverView,
    connection_id: Seq<char>,
    server_version: Seq<char>,
    closed: bool,
)
    ensures
        connected_view(driver, connection_id, server_version) matches ReplyView::Success(members)
            && members.dom() == set![
            "engine"@,
            "connectionId"@,
            "serverVersion"@,
            "driverLinked"@,
        ] && members["engine"@] == JsonView::Text(driver.engine) && members["connectionId"@]
            == JsonView::Text(connection_id) && members["serverVersion"@] == JsonView::Text(
            server_version,
        ) && members["driverLinked"@] == JsonView::Bool(driver.driver_linked),
        closed_view(connection_id, closed) matches ReplyView::Success(members) && members.dom()
            == set!["connectionId"@, "closed"@] && members["connectionId"@] == JsonView::Text(
            connection_id,
        ) && members["closed"@] == JsonView::Bool(closed),
{
    lemma_members();
    if let ReplyView::Success(members) = connected_view(driver, connection_id, server_version) {
        assert(members.dom() =~= set![
            "engine"@,
            "connectionId"@,
            "serverVersion"@,
            "driverLinked"@,
        ]);
    }
    if let ReplyView::Success(members) = closed_view(connection_id, closed) {
        assert(members.dom() =~= set!["connectionId"@, "closed"@]);
    }
}

/// A poisoned state and a connection that is not open are reported with their own codes, the latter with
/// the identifier that was asked for.
pub proof fn refusals_have_codes(connection_id: Seq<char>)
    ensures
        poisoned_view() == ReplyView::Failure(
            "connector.statePoisoned"@,
            "Connector connection state is poisoned."@,
        ),
        not_found_view(connection_id) == ReplyView::Failure(
            "connector.connectionNotFound"@,
            "no open connection: "@ + connection_id,
        ),
{
}

} // verus!

use irodori_lakehouse::catalog::{Auth, RestCatalog};
use irodori_lakehouse::catalog_http::{http_get_once, GetAction, GetEvent, HttpReply};
use irodori_lakehouse::connections::{Connections, LakehouseConnection};
use irodori_lakehouse::driver::{
    call_json, close, connect, open, CallAction, ConnectAction, ConnectEvent, Driver,
};
use irodori_lakehouse::json::Json;
use irodori_lakehouse::listing::{
    list_tables, load_table, NamespaceEvent, NamespaceStep, PageStep, Pager,
};
use irodori_lakehouse::metadata::{
    answer_catalog, answer_session, load_metadata, metadata, ColumnRow, LoadAction, LoadEvent,
    MetadataStep, TableRow,
};
use irodori_lakehouse::query::{
    answer_query, query, run_query, Cell, QueryOutput, QueryStep, RunAction, RunEvent, Statement,
};
use irodori_lakehouse::reply::Reply;
use irodori_lakehouse::sync::{sync, SyncAction, SyncEvent};

fn read(content: &str) -> Json {
    Json::parse(content).ok().expect("valid JSON")
}

fn driver() -> Driver {
    Driver {
        engine: "iceberg".to_string(),
        abi_version: 1,
        driver_linked: true,
        manifest: "{\"name\": \"m\"}".to_string(),
        config: "not json".to_string(),
    }
}

fn success(reply: Reply) -> Json {
    match reply {
        Reply::Success(members) => members.object(),
        Reply::Failure(code, message) => panic!("{code}: {message}"),
        Reply::Document(content) => panic!("{content}"),
    }
}

fn failure(reply: Reply) -> (String, String) {
    match reply {
        Reply::Failure(code, message) => (code, message),
        _ => panic!("no failure"),
    }
}

fn pair(code: &str, message: &str) -> (String, String) {
    (code.to_string(), message.to_string())
}

fn answer(method: &str) -> Reply {
    match call_json(&driver(), method, None) {
        CallAction::Answer(reply) => reply,
        _ => panic!("no answer"),
    }
}

/// A session that answers each statement with what a list says of its beginning, and a catalog that
/// answers each address with what a list says of it.
struct World {
    statements: Vec<(String, Result<(), String>)>,
    pages: Vec<(String, HttpReply)>,
    executed: Vec<String>,
    sent: Vec<(String, Option<String>)>,
}

impl World {
    fn new() -> World {
        World { statements: Vec::new(), pages: Vec::new(), executed: Vec::new(), sent: Vec::new() }
    }

    fn page(mut self, url: &str, body: &str) -> World {
        self.pages.push((url.to_string(), HttpReply::Body(body.to_string())));
        self
    }

    fn statement(mut self, beginning: &str, result: Result<(), String>) -> World {
        self.statements.push((beginning.to_string(), result));
        self
    }

    fn execute(&mut self, sql: &str) -> Result<(), String> {
        self.executed.push(sql.to_string());
        match self.statements.iter().find(|(beginning, _)| sql.starts_with(beginning.as_str())) {
            Some((_, result)) => result.clone(),
            None => Ok(()),
        }
    }

    fn send(&mut self, url: &str, authorization: Option<String>) -> HttpReply {
        self.sent.push((url.to_string(), authorization));
        match self.pages.iter().find(|(known, _)| known == url) {
            Some((_, HttpReply::Body(body))) => HttpReply::Body(body.clone()),
            Some((_, HttpReply::Failed(error))) => HttpReply::Failed(error.clone()),
            _ => HttpReply::Status(404, String::new()),
        }
    }

    fn get(&mut self, catalog: &RestCatalog, url: &str) -> Result<Json, String> {
        let outcome = http_get_once(url, self.send(url, catalog.authorization()));
        match catalog.http_get(GetEvent::First(outcome)) {
            GetAction::Done(answer) => answer,
            _ => panic!("a token is asked for"),
        }
    }

    fn list(&mut self, catalog: &RestCatalog, pager: Pager) -> Result<Vec<Json>, String> {
        let mut pager = pager;
        loop {
            let answer = self.get(catalog, &pager.url());
            match pager.paged(answer) {
                PageStep::Fetch(next) => pager = next,
                PageStep::Done(result) => return result,
            }
        }
    }

    fn namespaces(&mut self, catalog: &RestCatalog) -> Result<Vec<Vec<String>>, String> {
        let mut step = catalog.list_namespaces(NamespaceEvent::Start);
        loop {
            match step {
                NamespaceStep::List(walk, pager) => {
                    let listing = self.list(catalog, pager);
                    step = catalog.list_namespaces(NamespaceEvent::Listed(walk, listing));
                }
                NamespaceStep::Done(result) => return result,
            }
        }
    }

    fn connect(
        &mut self,
        connections: &mut Connections<u32>,
        connection_id: &str,
        request: &Json,
    ) -> Reply {
        let mut event = ConnectEvent::Opened(Ok(()));
        loop {
            event = match connect("iceberg", request, &None, event) {
                ConnectAction::Setting(setting) => {
                    let result = self.execute(&setting.sql);
                    ConnectEvent::Setting(setting, result)
                }
                ConnectAction::FetchToken(mut catalog) => {
                    let result = match &mut catalog.auth {
                        Auth::OAuth2(client) => {
                            let reply = self.send(&client.token_endpoint.clone(), None);
                            client.fetch_token(reply).map(|_| ())
                        }
                        _ => panic!("no OAuth2"),
                    };
                    ConnectEvent::Token(catalog, result)
                }
                ConnectAction::FetchConfig(mut catalog) => {
                    let config = self.get(&catalog, &catalog.config_url());
                    let result = catalog.fetch_config(config);
                    ConnectEvent::Configured(catalog, result)
                }
                ConnectAction::LoadExtension(name, required) => {
                    ConnectEvent::Extension(required, self.execute(&format!("load {name};")))
                }
                ConnectAction::CreateView(sql) => ConnectEvent::View(self.execute(&sql)),
                ConnectAction::AskVersion(catalog) => ConnectEvent::Version(catalog, None),
                ConnectAction::Open(opened) => {
                    return open(connections, false, &driver(), connection_id, 7, opened)
                }
                ConnectAction::Fail(reply) => return reply,
            }
        }
    }

    fn sync(&mut self, catalog: &RestCatalog) -> Result<(Json, Vec<String>), String> {
        let mut event = SyncEvent::Start;
        loop {
            event = match sync(catalog, event) {
                SyncAction::LoadExtension(name, required) => {
                    SyncEvent::Extension(required, self.execute(&format!("load {name};")))
                }
                SyncAction::ListNamespaces => SyncEvent::Namespaces(self.namespaces(catalog)),
                SyncAction::ListTables(run, namespace) => {
                    let listing = self.list(catalog, catalog.tables_pager(&namespace));
                    SyncEvent::Tables(run, namespace, list_tables(listing))
                }
                SyncAction::LoadTable(run, namespace, table) => {
                    let answer = self.get(catalog, &catalog.table_url(&namespace, &table));
                    SyncEvent::Table(run, namespace, table, load_table(answer))
                }
                SyncAction::CreateView(run, namespace, table, columns, sql) => {
                    let result = self.execute(&sql);
                    SyncEvent::View(run, namespace, table, columns, result)
                }
                SyncAction::Done(result) => return result,
            }
        }
    }

    fn metadata(&mut self, connections: &mut Connections<u32>, connection_id: &str) -> Reply {
        match metadata(connections, false, connection_id) {
            MetadataStep::Answer(reply) => reply,
            MetadataStep::Sync(connection) => {
                let catalog = connection.catalog.as_ref().expect("a catalog");
                let outcome = self.sync(catalog);
                answer_catalog(connection, connection_id, outcome)
            }
            MetadataStep::Load(connection) => {
                let outcome = session_metadata();
                answer_session(connection, connection_id, outcome)
            }
        }
    }
}

/// The metadata of a session without tables.
fn session_metadata() -> Result<Json, String> {
    let mut event = LoadEvent::Start;
    loop {
        event = match load_metadata(event) {
            LoadAction::QueryTables(_) => LoadEvent::Tables(Ok(Vec::new())),
            LoadAction::QueryColumns(objects, _) => LoadEvent::Columns(objects, Ok(Vec::new())),
            LoadAction::Done(result) => return result,
        };
    }
}

fn catalog_world() -> World {
    World::new()
        .page("http://c/v1/config", r#"{"defaults": {}, "overrides": {"prefix": "demo"}}"#)
        .page("http://c/v1/demo/namespaces", r#"{"namespaces": [["analytics"]]}"#)
        .page("http://c/v1/demo/namespaces?parent=analytics", r#"{"namespaces": []}"#)
        .page(
            "http://c/v1/demo/namespaces/analytics/tables",
            r#"{"identifiers": [{"namespace": ["analytics"], "name": "events"}]}"#,
        )
        .page(
            "http://c/v1/demo/namespaces/analytics/tables/events",
            r#"{
                "metadata-location":
                    "/nonexistent/irodori-catalog-test/metadata/00000.metadata.json",
                "metadata": {
                    "format-version": 2,
                    "current-schema-id": 0,
                    "schemas": [{
                        "schema-id": 0,
                        "fields": [
                            {"id": 1, "name": "id", "required": true, "type": "long"},
                            {"id": 2, "name": "name", "required": false, "type": "string"}
                        ]
                    }]
                }
            }"#,
        )
        .statement("create schema", Err("no such file".to_string()))
}

#[test]
fn catalog_mode_browses_namespaces_and_tables() {
    let mut world = catalog_world();
    let mut connections = Connections::new();
    let request = read(
        r#"{
            "method": "connect",
            "connectionId": "catalog-browse-test",
            "options": {"catalogUri": "http://c", "catalogToken": "sekrit"}
        }"#,
    );
    let connected = success(world.connect(&mut connections, "catalog-browse-test", &request));
    assert_eq!(connected.text_at("connectionId"), Some("catalog-browse-test"));

    let described = success(world.metadata(&mut connections, "catalog-browse-test"));
    let schemas = described
        .get("metadata")
        .and_then(|metadata| metadata.get("schemas"))
        .and_then(|schemas| schemas.as_array())
        .expect("schemas array");
    assert_eq!(schemas.len(), 1);
    assert_eq!(schemas[0].text_at("name"), Some("analytics"));
    let objects = schemas[0].get("objects").and_then(|o| o.as_array()).expect("objects array");
    assert_eq!(objects.len(), 1);
    assert_eq!(objects[0].text_at("name"), Some("events"));
    assert_eq!(objects[0].text_at("kind"), Some("table"));
    let columns = objects[0].get("columns").and_then(|c| c.as_array()).expect("columns array");
    assert_eq!(columns[0].text_at("name"), Some("id"));
    assert_eq!(columns[0].text_at("dataType"), Some("long"));
    assert_eq!(columns[0].get("nullable").and_then(|flag| flag.as_bool()), Some(false));
    assert_eq!(columns[1].text_at("name"), Some("name"));

    // The fixture metadata location does not exist, so the view is not
    // queryable; that must degrade to a warning, not a failure.
    let warnings = described.get("warnings").and_then(|w| w.as_array()).expect("warnings array");
    assert!(
        warnings
            .iter()
            .any(|warning| warning.as_str().unwrap_or("").contains("analytics.events")),
        "expected a warning about analytics.events"
    );
    assert_eq!(
        warnings[0].as_str(),
        Some("table analytics.events is not queryable: no such file")
    );

    assert!(
        world.sent.iter().any(|(_, value)| value.as_deref() == Some("Bearer sekrit")),
        "expected bearer token on catalog requests"
    );
    assert!(world.executed.contains(
        &"create schema if not exists \"analytics\"; create or replace view \
          \"analytics\".\"events\" as select * from \
          iceberg_scan('/nonexistent/irodori-catalog-test/metadata/00000.metadata.json')"
            .to_string()
    ));

    let closed = success(close(&mut connections, false, "catalog-browse-test"));
    assert_eq!(closed.to_text(), "{\"closed\":true,\"connectionId\":\"catalog-browse-test\"}");
}

#[test]
fn catalog_connect_fails_fast_when_unreachable() {
    let mut world = World::new();
    world.pages.push((
        "http://127.0.0.1:1/v1/config".to_string(),
        HttpReply::Failed("Connection refused".to_string()),
    ));
    let mut connections = Connections::new();
    let request = read(
        r#"{
            "method": "connect",
            "connectionId": "catalog-unreachable-test",
            "options": {"catalogUri": "http://127.0.0.1:1"}
        }"#,
    );
    let reply = world.connect(&mut connections, "catalog-unreachable-test", &request);
    let (code, message) = failure(reply);
    assert_eq!(code, "connector.connectFailed");
    assert!(
        message.contains("unreachable"),
        "expected an unreachable-catalog message, got: {message}"
    );
    assert!(connections.get("catalog-unreachable-test").is_none());
}

#[test]
fn catalog_rejects_non_rest_catalog_types() {
    let mut connections = Connections::new();
    let request = read(
        r#"{
            "method": "connect",
            "connectionId": "catalog-type-test",
            "options": {"catalogUri": "https://example.com", "catalogType": "glue"}
        }"#,
    );
    let reply = World::new().connect(&mut connections, "catalog-type-test", &request);
    let (code, message) = failure(reply);
    assert_eq!(code, "connector.connectFailed");
    assert!(
        message.contains("only 'rest' catalogs"),
        "expected unsupported-catalog-type message, got: {message}"
    );
}

#[test]
fn tells_methods_apart() {
    let health = "{\"abiVersion\":1,\"driverLinked\":true,\"engine\":\"iceberg\"}";
    assert_eq!(success(answer("health")).to_text(), health);
    assert_eq!(success(answer("ping")).to_text(), health);
    let description = "{\"abiVersion\":1,\"config\":null,\"driverLinked\":true,\
                       \"engine\":\"iceberg\",\"manifest\":{\"name\":\"m\"}}";
    assert_eq!(success(answer("describe")).to_text(), description);
    assert_eq!(success(answer("capabilities")).to_text(), description);
    assert!(matches!(answer("manifest"), Reply::Document(text) if text == "{\"name\": \"m\"}"));
    assert!(matches!(answer("config"), Reply::Document(text) if text == "not json"));
    assert_eq!(
        failure(answer("dance")),
        pair("connector.unknownMethod", "unknown connector method: dance")
    );
    let request = || Some(read("{\"a\": 1}"));
    let handed = |action: CallAction| match action {
        CallAction::Connect(request) => format!("connect {}", request.to_text()),
        CallAction::Query(request) => format!("query {}", request.to_text()),
        CallAction::Metadata(request) => format!("metadata {}", request.to_text()),
        CallAction::Close(request) => format!("close {}", request.to_text()),
        CallAction::Answer(_) => "answer".to_string(),
    };
    for method in ["connect", "query", "metadata", "close"] {
        assert_eq!(handed(call_json(&driver(), method, request())), format!("{method} {{\"a\":1}}"));
    }
    assert_eq!(handed(call_json(&driver(), "health", request())), "answer");
}

#[test]
fn describes_itself_with_documents_that_were_read() {
    let members = driver().describe(Ok(read("[1]")), Ok(read("{}")));
    assert_eq!(
        members.object().to_text(),
        "{\"abiVersion\":1,\"config\":{},\"driverLinked\":true,\"engine\":\"iceberg\",\
         \"manifest\":[1]}"
    );
}

#[test]
fn opens_a_session_on_a_single_table() {
    let mut world = World::new();
    let mut connections = Connections::new();
    let request = read(r#"{"path": "/wh/t", "s3Region": "r"}"#);
    let reply = success(world.connect(&mut connections, "a", &request));
    assert_eq!(
        reply.to_text(),
        "{\"connectionId\":\"a\",\"driverLinked\":true,\"engine\":\"iceberg\",\
         \"serverVersion\":\"DuckDB lakehouse runtime\"}"
    );
    assert_eq!(
        world.executed,
        vec![
            "set s3_region = 'r'",
            "load httpfs;",
            "load iceberg;",
            "create or replace view lakehouse_table as select * from iceberg_scan('/wh/t')",
        ]
    );
    assert!(world.sent.is_empty());
}

#[test]
fn fetches_a_token_before_the_configuration() {
    let mut world = catalog_world().page("http://c/v1/oauth/tokens", r#"{"access_token": "t0k"}"#);
    let mut connections = Connections::new();
    let request = read(r#"{"catalogUri": "http://c", "credential": "i:s", "path": "/ignored"}"#);
    success(world.connect(&mut connections, "a", &request));
    assert_eq!(
        world.sent,
        vec![
            ("http://c/v1/oauth/tokens".to_string(), None),
            ("http://c/v1/config".to_string(), Some("Bearer t0k".to_string())),
        ]
    );
    assert!(world.executed.is_empty());
}

#[test]
fn fails_at_the_first_step_that_fails() {
    let fails = |world: World, request: &str| {
        let mut world = world;
        let mut connections = Connections::new();
        failure(world.connect(&mut connections, "a", &read(request)))
    };
    assert_eq!(
        fails(
            World::new().statement("set s3_region", Err("bad top-secret region".to_string())),
            r#"{"region": "r", "catalogUri": "s3://x", "password": "top-secret"}"#
        ),
        pair("connector.connectFailed", "DuckDB setting s3_region failed: bad **** region")
    );
    assert_eq!(
        fails(
            World::new().statement("load iceberg", Err("gone".to_string())),
            r#"{"path": "x"}"#
        ),
        pair("connector.connectFailed", "gone")
    );
    assert_eq!(
        fails(
            World::new().statement("create or", Err("no file".to_string())),
            r#"{"path": "x"}"#
        ),
        pair("connector.connectFailed", "lakehouse table view creation failed: no file")
    );
    let (_, message) =
        fails(World::new(), r#"{"catalogUri": "http://c", "credential": "i:hidden"}"#);
    assert_eq!(
        message,
        "OAuth2 token request to http://c/v1/oauth/tokens was rejected (HTTP 404). \
         Check the client id, client secret, and scope."
    );
    let refused = connect("e", &read("{}"), &None, ConnectEvent::Opened(Err("no".to_string())));
    match refused {
        ConnectAction::Fail(reply) => assert_eq!(
            failure(reply),
            pair("connector.connectFailed", "connect failed: no")
        ),
        _ => panic!("no failure"),
    }
}

#[test]
fn keeps_the_version_that_the_session_tells() {
    let version = ConnectEvent::Version(None, Some("v1.4".to_string()));
    match connect("e", &read(r#"{"token": "t"}"#), &None, version) {
        ConnectAction::Open(opened) => {
            assert_eq!(opened.server_version, "v1.4");
            assert_eq!(opened.redaction_values, vec!["t"]);
            assert!(opened.catalog.is_none());
        }
        _ => panic!("not open"),
    }
}

fn connection(conn: u32, secrets: &[&str]) -> LakehouseConnection<u32> {
    LakehouseConnection {
        conn,
        redaction_values: secrets.iter().map(|secret| secret.to_string()).collect(),
        catalog: None,
    }
}

#[test]
fn keeps_connections_by_their_identifiers() {
    let mut connections = Connections::new();
    assert!(connections.get("a").is_none());
    connections.insert("a", connection(1, &[]));
    connections.insert("b", connection(2, &[]));
    connections.insert("a", connection(3, &[]));
    assert_eq!(connections.get("a").map(|found| found.conn), Some(3));
    assert_eq!(connections.get("b").map(|found| found.conn), Some(2));
    if let Some(found) = connections.get_mut("b") {
        found.conn = 4;
    }
    assert!(connections.get_mut("c").is_none());
    assert_eq!(connections.remove("b").map(|found| found.conn), Some(4));
    assert!(connections.remove("b").is_none());
    assert!(connections.get("b").is_none());
    assert_eq!(connections.get("a").map(|found| found.conn), Some(3));
}

#[test]
fn describes_a_connection_by_its_catalog_or_its_session() {
    let mut world = catalog_world();
    let mut connections = Connections::new();
    let request = read(r#"{"catalogUri": "http://c"}"#);
    success(world.connect(&mut connections, "with", &request));
    success(world.connect(&mut connections, "without", &read("{}")));
    let step = |connections: &mut Connections<u32>, id: &str| match metadata(connections, false, id)
    {
        MetadataStep::Sync(_) => "catalog",
        MetadataStep::Load(_) => "session",
        MetadataStep::Answer(_) => "reply",
    };
    assert_eq!(step(&mut connections, "with"), "catalog");
    assert_eq!(step(&mut connections, "without"), "session");
    assert_eq!(step(&mut connections, "missing"), "reply");
    assert!(success(world.metadata(&mut connections, "with")).get("warnings").is_some());
    assert_eq!(
        success(world.metadata(&mut connections, "without")).to_text(),
        "{\"connectionId\":\"without\",\"metadata\":{\"schemas\":[]}}"
    );
}

#[test]
fn closes_a_connection_once() {
    let mut connections = Connections::new();
    connections.insert("a", connection(1, &[]));
    let closed = |reply: Reply| success(reply).get("closed").and_then(|flag| flag.as_bool());
    assert_eq!(
        failure(close(&mut connections, true, "a")),
        pair("connector.statePoisoned", "Connector connection state is poisoned.")
    );
    assert_eq!(closed(close(&mut connections, false, "a")), Some(true));
    assert_eq!(closed(close(&mut connections, false, "a")), Some(false));
}

fn statement(sql: Option<&str>, query: Option<&str>, statement: Option<&str>) -> Statement {
    Statement {
        sql: sql.map(|text| text.to_string()),
        query: query.map(|text| text.to_string()),
        statement: statement.map(|text| text.to_string()),
    }
}

#[test]
fn finds_the_statement_and_the_connection_of_a_query() {
    let mut connections = Connections::new();
    connections.insert("a", connection(9, &[]));
    let run = |poisoned, id: &str, wanted| match query(&connections, poisoned, id, wanted) {
        QueryStep::Run(found, sql) => Ok((found.conn, sql)),
        QueryStep::Answer(reply) => Err(failure(reply)),
    };
    assert_eq!(run(false, "a", statement(Some("s"), Some("q"), None)), Ok((9, "s".to_string())));
    assert_eq!(run(false, "a", statement(None, Some("q"), Some("t"))), Ok((9, "q".to_string())));
    assert_eq!(run(false, "a", statement(None, None, Some("t"))), Ok((9, "t".to_string())));
    assert_eq!(
        run(true, "b", statement(None, None, None)),
        Err(pair(
            "connector.invalidRequest",
            "query requires a string sql, query, or statement field."
        ))
    );
    assert_eq!(
        run(true, "b", statement(Some("s"), None, None)),
        Err(pair("connector.statePoisoned", "Connector connection state is poisoned."))
    );
    assert_eq!(
        run(false, "b", statement(Some("s"), None, None)),
        Err(pair("connector.connectionNotFound", "no open connection: b"))
    );
}

#[test]
fn answers_queries() {
    let output = QueryOutput {
        columns: vec!["x".to_string()],
        rows: vec![read("[1]")],
        truncated: true,
    };
    let found = connection(1, &["pw"]);
    assert_eq!(
        success(answer_query(&found, "a", Ok(output))).to_text(),
        "{\"columns\":[\"x\"],\"connectionId\":\"a\",\"rows\":[[1]],\"truncated\":true}"
    );
    assert_eq!(
        failure(answer_query(&found, "a", Err("query failed: pw!".to_string()))),
        pair("connector.queryFailed", "query failed: ****!")
    );
}

fn run(sql: &str, cap: usize, rows: Vec<Vec<Cell>>) -> Result<QueryOutput, String> {
    let mut rows = rows.into_iter();
    let mut event = RunEvent::Start;
    loop {
        event = match run_query(sql, cap, event) {
            RunAction::Execute => RunEvent::Executed(Ok(())),
            RunAction::Query => RunEvent::Queried(Ok(vec!["n".to_string()])),
            RunAction::Fetch(output) => RunEvent::Row(output, Ok(rows.next())),
            RunAction::Done(outcome) => return outcome,
        }
    }
}

#[test]
fn shows_the_first_rows() {
    let rows = |count: i64| (0..count).map(|n| vec![Cell::Signed(n)]).collect::<Vec<_>>();
    let shown = |cap, count| {
        let output = run("select 1", cap, rows(count)).ok().expect("rows");
        assert_eq!(output.columns, vec!["n"]);
        let texts: Vec<String> = output.rows.iter().map(|row| row.to_text()).collect();
        (texts.join(""), output.truncated)
    };
    assert_eq!(shown(2, 1), ("[0]".to_string(), false));
    assert_eq!(shown(2, 2), ("[0][1]".to_string(), false));
    assert_eq!(shown(2, 3), ("[0][1]".to_string(), true));
    assert_eq!(shown(0, 1), (String::new(), true));
    assert_eq!(shown(0, 0), (String::new(), false));
}

#[test]
fn runs_statements_without_rows() {
    let output = run("insert into t values (1)", 5, vec![vec![Cell::Null]]).ok().expect("done");
    assert!(output.columns.is_empty() && output.rows.is_empty() && !output.truncated);
    for sql in ["  SELECT 1", "\nWith x", "show", "PRAGMA", "explain", "Describe", "values(1)", "table t", "call f()"] {
        assert!(matches!(run_query(sql, 1, RunEvent::Start), RunAction::Query), "{sql}");
    }
    for sql in ["", "create table t", "-- select", "selec"] {
        assert!(matches!(run_query(sql, 1, RunEvent::Start), RunAction::Execute), "{sql}");
    }
    let events = [
        RunEvent::Executed(Err("no".to_string())),
        RunEvent::Queried(Err("no".to_string())),
        RunEvent::Row(
            QueryOutput { columns: Vec::new(), rows: Vec::new(), truncated: false },
            Err("no".to_string()),
        ),
    ];
    for event in events {
        match run_query("select", 1, event) {
            RunAction::Done(Err(message)) => assert_eq!(message, "query failed: no"),
            _ => panic!("no failure"),
        }
    }
}

#[test]
fn shows_cells() {
    let cells = vec![
        Cell::Null,
        Cell::Boolean(true),
        Cell::Signed(-5),
        Cell::Signed(5),
        Cell::Unsigned(u64::MAX),
        Cell::Float(Some("2.5".to_string())),
        Cell::Float(None),
        Cell::Text("t".to_string()),
        Cell::Blob(vec![1, 171]),
        Cell::Other("Date32(1)".to_string()),
        Cell::Unreadable,
    ];
    let output = run("select 1", 1, vec![cells]).ok().expect("rows");
    assert_eq!(
        output.rows[0].to_text(),
        "[null,true,-5,5,18446744073709551615,2.5,null,\"t\",\"\\\\x01ab\",\"Date32(1)\",null]"
    );
}

fn table(schema: &str, name: &str, table_type: &str) -> TableRow {
    TableRow {
        schema: schema.to_string(),
        name: name.to_string(),
        table_type: table_type.to_string(),
    }
}

fn column(schema: &str, table: &str, name: &str, nullable: &str, ordinal: i32) -> ColumnRow {
    ColumnRow {
        schema: schema.to_string(),
        table: table.to_string(),
        name: name.to_string(),
        data_type: "INTEGER".to_string(),
        nullable: nullable.to_string(),
        ordinal,
    }
}

#[test]
fn loads_the_metadata_of_a_session() {
    let LoadAction::QueryTables(sql) = load_metadata(LoadEvent::Start) else { panic!("no query") };
    assert_eq!(
        sql,
        "select table_schema, table_name, table_type from information_schema.tables \
         where table_schema not in ('information_schema', 'pg_catalog') \
         order by table_schema, table_name"
    );
    let tables = vec![
        table("main", "z", "BASE TABLE"),
        table("aux", "v", "View"),
        table("main", "a", "LOCAL TEMPORARY"),
        table("main", "z", "VIEW"),
    ];
    let LoadAction::QueryColumns(objects, sql) = load_metadata(LoadEvent::Tables(Ok(tables))) else {
        panic!("no query")
    };
    assert_eq!(
        sql,
        "select table_schema, table_name, column_name, data_type, is_nullable, ordinal_position \
         from information_schema.columns \
         where table_schema not in ('information_schema', 'pg_catalog') \
         order by table_schema, table_name, ordinal_position"
    );
    let columns = vec![
        column("main", "z", "c2", "yes", 2),
        column("main", "nope", "c", "YES", 1),
        column("main", "z", "c1", "NO", -1),
    ];
    let LoadAction::Done(Ok(document)) = load_metadata(LoadEvent::Columns(objects, Ok(columns)))
    else {
        panic!("no document")
    };
    let rest = "\"foreignKeys\":[],\"indexes\":[]";
    assert_eq!(
        document.to_text(),
        format!(
            "{{\"schemas\":[{{\"name\":\"aux\",\"objects\":[{{\"columns\":[],{rest},\
             \"kind\":\"view\",\"name\":\"v\",\"primaryKey\":[],\"schema\":\"aux\"}}]}},\
             {{\"name\":\"main\",\"objects\":[{{\"columns\":[],{rest},\"kind\":\"table\",\
             \"name\":\"a\",\"primaryKey\":[],\"schema\":\"main\"}},{{\"columns\":[\
             {{\"dataType\":\"INTEGER\",\"name\":\"c2\",\"nullable\":true,\"ordinal\":2}},\
             {{\"dataType\":\"INTEGER\",\"name\":\"c1\",\"nullable\":false,\"ordinal\":-1}}],\
             {rest},\"kind\":\"view\",\"name\":\"z\",\"primaryKey\":[],\"schema\":\"main\"}}]}}]}}"
        )
    );
}

#[test]
fn reports_metadata_that_cannot_be_loaded() {
    let message = |event| match load_metadata(event) {
        LoadAction::Done(Err(message)) => message,
        _ => panic!("no failure"),
    };
    assert_eq!(
        message(LoadEvent::Tables(Err("x".to_string()))),
        "metadata objects failed: x"
    );
    assert_eq!(
        message(LoadEvent::Columns(Vec::new(), Err("x".to_string()))),
        "metadata columns failed: x"
    );
    let mut connections = Connections::new();
    connections.insert("a", connection(1, &["pw"]));
    let mut refusal = |poisoned, id: &str| match metadata(&mut connections, poisoned, id) {
        MetadataStep::Answer(reply) => failure(reply),
        MetadataStep::Sync(_) | MetadataStep::Load(_) => panic!("no refusal"),
    };
    assert_eq!(
        refusal(true, "a"),
        pair("connector.statePoisoned", "Connector connection state is poisoned.")
    );
    assert_eq!(
        refusal(false, "b"),
        pair("connector.connectionNotFound", "no open connection: b")
    );
    let found = connections.get("a").expect("a connection");
    assert_eq!(
        failure(answer_session(found, "a", Err("pw".to_string()))),
        pair("connector.metadataFailed", "****")
    );
    assert_eq!(
        failure(answer_catalog(found, "a", Err("x pw".to_string()))),
        pair("connector.metadataFailed", "x ****")
    );
    assert_eq!(
        success(answer_session(found, "a", Ok(read("{}")))).to_text(),
        "{\"connectionId\":\"a\",\"metadata\":{}}"
    );
    let told = vec!["see pw".to_string()];
    assert_eq!(
        success(answer_catalog(found, "a", Ok((read("{}"), told)))).to_text(),
        "{\"connectionId\":\"a\",\"metadata\":{},\"warnings\":[\"see ****\"]}"
    );
}

fn catalog_of(request: &str) -> RestCatalog {
    match irodori_lakehouse::catalog::from_request(&read(request)) {
        Ok(Some(catalog)) => catalog,
        _ => panic!("no catalog"),
    }
}

#[test]
fn shows_every_table_whatever_becomes_of_it() {
    let catalog = catalog_of(r#"{"catalogUri": "http://c"}"#);
    let mut world = World::new()
        .page("http://c/v1/namespaces", r#"{"namespaces": [["a"], ["b"]]}"#)
        .page("http://c/v1/namespaces?parent=a", "{}")
        .page("http://c/v1/namespaces?parent=b", "{}")
        .page("http://c/v1/namespaces/a/tables", r#"{"identifiers": [{"name": "x"}]}"#)
        .page(
            "http://c/v1/namespaces/b/tables",
            r#"{"identifiers": [{"name": "y"}, {"name": "z"}]}"#,
        )
        .page("http://c/v1/namespaces/b/tables/y", "{}")
        .page("http://c/v1/namespaces/b/tables/z", r#"{"metadata-location": "file:/z"}"#);
    let (document, warnings) = world.sync(&catalog).ok().expect("a document");
    let schemas = document.get("schemas").and_then(|s| s.as_array()).expect("schemas");
    let mut shown = Vec::new();
    for schema in schemas {
        for object in schema.get("objects").and_then(|o| o.as_array()).expect("objects") {
            shown.push(format!(
                "{}.{}",
                schema.text_at("name").unwrap_or(""),
                object.text_at("name").unwrap_or("")
            ));
        }
    }
    assert_eq!(shown, vec!["a.x", "b.y", "b.z"]);
    assert_eq!(
        warnings,
        vec![
            "failed to load table a.x: GET http://c/v1/namespaces/a/tables/x returned HTTP 404: ",
            "table a.x has no metadata location; it cannot be scanned",
            "table b.y has no metadata location; it cannot be scanned",
        ]
    );
    assert_eq!(world.executed[0], "load httpfs;");
    assert_eq!(world.executed[1], "load iceberg;");
    assert_eq!(world.executed.len(), 3);
}

#[test]
fn shows_the_one_table_of_a_filter() {
    let catalog = catalog_of(r#"{"catalogUri": "http://c", "tableIdentifier": "n.m.t"}"#);
    let mut world = World::new();
    let (document, warnings) = world.sync(&catalog).ok().expect("a document");
    let schemas = document.get("schemas").and_then(|s| s.as_array()).expect("schemas");
    assert_eq!(schemas.len(), 1);
    assert_eq!(schemas[0].text_at("name"), Some("n.m"));
    assert_eq!(warnings.len(), 2);
    assert_eq!(world.sent.len(), 1);
    assert_eq!(world.sent[0].0, "http://c/v1/namespaces/n%1Fm/tables/t");
}

#[test]
fn shows_so_many_tables_at_most() {
    let catalog = catalog_of(r#"{"catalogUri": "http://c"}"#);
    let names: Vec<String> = (0..501).map(|n| format!("{{\"name\": \"t{n}\"}}")).collect();
    let mut world = World::new()
        .page("http://c/v1/namespaces", r#"{"namespaces": [["a"], ["b"]]}"#)
        .page("http://c/v1/namespaces?parent=a", "{}")
        .page("http://c/v1/namespaces?parent=b", "{}")
        .page(
            "http://c/v1/namespaces/a/tables",
            &format!("{{\"identifiers\": [{}]}}", names.join(",")),
        );
    let (document, warnings) = world.sync(&catalog).ok().expect("a document");
    assert_eq!(warnings[0], "catalog lists more than 500 tables; only the first 500 are shown");
    let schemas = document.get("schemas").and_then(|s| s.as_array()).expect("schemas");
    let objects = schemas[0].get("objects").and_then(|o| o.as_array()).expect("objects");
    assert_eq!(objects.len(), 500);
    assert!(!world.sent.iter().any(|(url, _)| url == "http://c/v1/namespaces/b/tables"));
}

#[test]
fn stops_where_a_catalog_cannot_be_listed() {
    let catalog = catalog_of(r#"{"catalogUri": "http://c"}"#);
    let mut world = World::new();
    assert!(matches!(
        world.sync(&catalog),
        Err(message) if message == "GET http://c/v1/namespaces returned HTTP 404: "
    ));
    let mut world = World::new().page("http://c/v1/namespaces", r#"{"namespaces": [["a"]]}"#)
        .page("http://c/v1/namespaces?parent=a", "{}");
    assert!(matches!(
        world.sync(&catalog),
        Err(message) if message == "GET http://c/v1/namespaces/a/tables returned HTTP 404: "
    ));
    let mut world = World::new().statement("load iceberg", Err("gone".to_string()));
    assert!(matches!(world.sync(&catalog), Err(message) if message == "gone"));
    assert!(world.sent.is_empty());
}

use irodori_lakehouse::json::Json;
use irodori_lakehouse::session::{
    apply_settings, configure_connection, install_statement, load_extension, load_statement,
    ConfigureAction, ConfigureEvent, SettingAction, SettingEvent,
};

fn read(content: &str) -> Json {
    Json::parse(content).ok().expect("valid JSON")
}

fn settings(request: &Json) -> Vec<String> {
    let mut done = Vec::new();
    let mut event = SettingEvent::Start;
    loop {
        match apply_settings(request, event) {
            SettingAction::Execute(setting) => {
                done.push(setting.sql.clone());
                event = SettingEvent::Executed(setting, Ok(()));
            }
            SettingAction::Done(result) => {
                assert_eq!(result, Ok(()));
                return done;
            }
        }
    }
}

fn plan(engine: &str, request: &str, database: Option<&str>) -> (Vec<(String, bool)>, Vec<String>) {
    let request = read(request);
    let database = database.map(|name| name.to_string());
    let mut extensions = Vec::new();
    let mut views = Vec::new();
    let mut event = ConfigureEvent::Start;
    loop {
        match configure_connection(engine, &request, &database, event) {
            ConfigureAction::LoadExtension(name, required) => {
                extensions.push((name, required));
                event = ConfigureEvent::Extension(required, Ok(()));
            }
            ConfigureAction::CreateView(sql) => {
                views.push(sql);
                event = ConfigureEvent::View(Ok(()));
            }
            ConfigureAction::Done(result) => {
                assert_eq!(result, Ok(()));
                return (extensions, views);
            }
        }
    }
}

#[test]
fn sets_a_session_by_every_option() {
    let request = read(
        r#"{"sessionToken": "t", "region": "r", "s3Region": "it's", "s3Endpoint": "e",
            "s3UrlStyle": "path", "accessKeyId": "a", "s3SecretAccessKey": "s"}"#,
    );
    assert_eq!(
        settings(&request),
        vec![
            "set s3_region = 'it''s'",
            "set s3_region = 'r'",
            "set s3_endpoint = 'e'",
            "set s3_url_style = 'path'",
            "set s3_access_key_id = 'a'",
            "set s3_secret_access_key = 's'",
            "set s3_session_token = 't'",
        ]
    );
    assert_eq!(
        settings(&read(r#"{"s3AccessKeyId": 1, "secretAccessKey": 2, "s3SessionToken": 3}"#)),
        vec![
            "set s3_access_key_id = '1'",
            "set s3_secret_access_key = '2'",
            "set s3_session_token = '3'",
        ]
    );
    assert!(settings(&read("{}")).is_empty());
}

#[test]
fn stops_at_a_setting_that_fails() {
    let request = read(r#"{"region": "r", "s3Endpoint": "e"}"#);
    let SettingAction::Execute(setting) = apply_settings(&request, SettingEvent::Start) else {
        panic!("no setting")
    };
    match apply_settings(&request, SettingEvent::Executed(setting, Err("bad".to_string()))) {
        SettingAction::Done(result) => {
            assert_eq!(result, Err("DuckDB setting s3_region failed: bad".to_string()))
        }
        SettingAction::Execute(_) => panic!("no end"),
    }
}

#[test]
fn loads_extensions() {
    assert_eq!(install_statement("delta"), "install delta;");
    assert_eq!(load_statement("delta"), "load delta;");
    let bad = |word: &str| Err(word.to_string());
    assert_eq!(load_extension("delta", true, Ok(()), Ok(())), Ok(()));
    assert_eq!(load_extension("delta", true, bad("i"), Ok(())), Ok(()));
    assert_eq!(load_extension("delta", true, Ok(()), bad("l")), Ok(()));
    assert_eq!(
        load_extension("delta", true, bad("i"), bad("l")),
        Err("DuckDB extension delta unavailable: i".to_string())
    );
    assert_eq!(load_extension("delta", false, bad("i"), bad("l")), Ok(()));
}

#[test]
fn exposes_a_single_table() {
    assert_eq!(
        plan("deltaLake", r#"{"path": "s3://b/it's", "tableName": "my table"}"#, None),
        (
            vec![("httpfs".to_string(), false), ("delta".to_string(), true)],
            vec![
                "create or replace view my_table as select * from delta_scan('s3://b/it''s')"
                    .to_string()
            ]
        )
    );
    for engine in ["iceberg", "s3Tables"] {
        assert_eq!(
            plan(engine, "{}", Some("/wh/t")),
            (
                vec![("httpfs".to_string(), false), ("iceberg".to_string(), true)],
                vec![
                    "create or replace view lakehouse_table as select * from iceberg_scan('/wh/t')"
                        .to_string()
                ]
            )
        );
    }
    for engine in ["hudi", "hive"] {
        assert_eq!(
            plan(engine, r#"{"connectionString": "/wh/t/", "view": "1"}"#, Some("/other")),
            (
                vec![("httpfs".to_string(), false)],
                vec![
                    "create or replace view _1 as select * from \
                     read_parquet('/wh/t/**/*.parquet', hive_partitioning=true, \
                     union_by_name=true)"
                        .to_string()
                ]
            )
        );
    }
    assert_eq!(plan("duckdb", r#"{"path": "x"}"#, None), (Vec::new(), Vec::new()));
    assert_eq!(plan("iceberg", "{}", None), (Vec::new(), Vec::new()));
}

#[test]
fn reports_a_table_that_cannot_be_exposed() {
    let request = read(r#"{"path": "x"}"#);
    let step = |event| configure_connection("iceberg", &request, &None, event);
    match step(ConfigureEvent::Extension(true, Err("gone".to_string()))) {
        ConfigureAction::Done(result) => assert_eq!(result, Err("gone".to_string())),
        _ => panic!("no end"),
    }
    match step(ConfigureEvent::View(Err("bad".to_string()))) {
        ConfigureAction::Done(result) => assert_eq!(
            result,
            Err("lakehouse table view creation failed: bad".to_string())
        ),
        _ => panic!("no end"),
    }
}

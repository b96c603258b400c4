use irodori_lakehouse::catalog::{from_request, RestCatalog};
use irodori_lakehouse::json::Json;
use irodori_lakehouse::listing::{
    list_tables, load_table, NamespaceEvent, NamespaceStep, PageStep, Pager,
};
use irodori_lakehouse::schema::{current_schema, namespace_levels, table_columns, type_to_string};

fn read(content: &str) -> Json {
    Json::parse(content).ok().expect("valid JSON")
}

fn plain_catalog() -> RestCatalog {
    match from_request(&read(r#"{"catalogUri": "http://c"}"#)) {
        Ok(Some(catalog)) => catalog,
        _ => panic!("no catalog"),
    }
}

fn words(list: &[&str]) -> Vec<String> {
    list.iter().map(|word| word.to_string()).collect()
}

#[test]
fn extracts_columns_from_v2_metadata() {
    let metadata = read(
        r#"{
            "format-version": 2,
            "current-schema-id": 1,
            "schemas": [
                {"schema-id": 0, "fields": []},
                {"schema-id": 1, "fields": [
                    {"id": 1, "name": "id", "required": true, "type": "long"},
                    {"id": 2, "name": "tags", "required": false,
                     "type": {"type": "list", "element": "string", "element-id": 3,
                              "element-required": false}}
                ]}
            ]
        }"#,
    );
    let columns = table_columns(&metadata);
    assert_eq!(columns.len(), 2);
    assert_eq!(columns[0].text_at("name"), Some("id"));
    assert_eq!(columns[0].text_at("dataType"), Some("long"));
    assert_eq!(columns[0].get("nullable").and_then(|flag| flag.as_bool()), Some(false));
    assert_eq!(columns[1].text_at("dataType"), Some("list<string>"));
    assert_eq!(columns[1].get("nullable").and_then(|flag| flag.as_bool()), Some(true));
}

#[test]
fn numbers_columns_by_their_places() {
    let metadata = read(
        r#"{"schema": {"fields": [{"name": "a"}, {"type": "long"}, {"name": "c", "type": 5}]}}"#,
    );
    let texts: Vec<String> = table_columns(&metadata).iter().map(|c| c.to_text()).collect();
    assert_eq!(
        texts,
        vec![
            r#"{"dataType":"","name":"a","nullable":true,"ordinal":1}"#,
            r#"{"dataType":"5","name":"c","nullable":true,"ordinal":3}"#,
        ]
    );
    assert!(table_columns(&read("{}")).is_empty());
    assert!(table_columns(&read(r#"{"schema": {"fields": 1}}"#)).is_empty());
}

#[test]
fn picks_the_current_schema() {
    let id = |content: &str| {
        current_schema(&read(content)).and_then(|s| s.text_at("n")).map(|n| n.to_string())
    };
    let schemas = r#""schemas": [{"schema-id": 1, "n": "one"}, {"schema-id": 2, "n": "two"}]"#;
    assert_eq!(id(&format!("{{{schemas}, \"current-schema-id\": 1}}")), Some("one".to_string()));
    assert_eq!(id(&format!("{{{schemas}, \"current-schema-id\": 9}}")), Some("two".to_string()));
    assert_eq!(id(&format!("{{{schemas}}}")), Some("two".to_string()));
    assert_eq!(id(r#"{"schemas": [], "schema": {"n": "v1"}}"#), Some("v1".to_string()));
    assert_eq!(id("{}"), None);
}

#[test]
fn names_types() {
    let name = |content: &str| type_to_string(&read(content));
    assert_eq!(name(r#""decimal(9,2)""#), "decimal(9,2)");
    assert_eq!(name(r#"{"type": "struct", "fields": []}"#), "struct");
    assert_eq!(
        name(r#"{"type": "map", "key": "string", "value": {"type": "list", "element": "int"}}"#),
        "map<string, list<int>>"
    );
    assert_eq!(name(r#"{"type": "list"}"#), "list<>");
    assert_eq!(name(r#"{"type": "odd", "b": 1}"#), r#"{"b":1,"type":"odd"}"#);
    assert_eq!(name("[1, 2]"), "[1,2]");
}

#[test]
fn reads_the_levels_of_namespaces() {
    assert_eq!(namespace_levels(&read(r#"["a", 1, "b"]"#)), Some(words(&["a", "b"])));
    assert_eq!(namespace_levels(&read("[1]")), None);
    assert_eq!(namespace_levels(&read("[]")), None);
    assert_eq!(namespace_levels(&read(r#""a""#)), None);
}

#[test]
fn follows_page_tokens() {
    let pager = Pager::start("http://c/x", false, "entries");
    assert_eq!(pager.url(), "http://c/x");
    let page = read(r#"{"entries": [1, 2], "next-page-token": "a b"}"#);
    let PageStep::Fetch(pager) = pager.paged(Ok(page)) else { panic!("no next page") };
    assert_eq!(pager.url(), "http://c/x?pageToken=a%20b");
    let page = read(r#"{"next-page-token": "c"}"#);
    let PageStep::Fetch(pager) = pager.paged(Ok(page)) else { panic!("no next page") };
    let page = read(r#"{"entries": [3], "next-page-token": ""}"#);
    let PageStep::Done(Ok(entries)) = pager.paged(Ok(page)) else { panic!("no end") };
    let texts: Vec<String> = entries.iter().map(|entry| entry.to_text()).collect();
    assert_eq!(texts, vec!["1", "2", "3"]);

    let pager = Pager::start("http://c/x?a=b", false, "entries");
    let page = read(r#"{"next-page-token": "c"}"#);
    let PageStep::Fetch(pager) = pager.paged(Ok(page)) else { panic!("no next page") };
    assert_eq!(pager.url(), "http://c/x?a=b&pageToken=c");
    let failed = pager.paged(Err("gone".to_string()));
    assert!(matches!(failed, PageStep::Done(Err(message)) if message == "gone"));
}

#[test]
fn fetches_so_many_pages_at_most() {
    let mut pager = Pager::start("u", true, "e");
    let mut pages = 0;
    let entries = loop {
        pages += 1;
        match pager.paged(Ok(read(r#"{"e": [0], "next-page-token": "more"}"#))) {
            PageStep::Fetch(next) => pager = next,
            PageStep::Done(Ok(entries)) => break entries,
            PageStep::Done(Err(message)) => panic!("{message}"),
        }
    };
    assert_eq!(pages, 50);
    assert_eq!(entries.len(), 50);
}

#[test]
fn walks_namespaces_level_by_level() {
    let catalog = plain_catalog();
    let mut asked = Vec::new();
    let mut step = catalog.list_namespaces(NamespaceEvent::Start);
    let found = loop {
        match step {
            NamespaceStep::List(walk, pager) => {
                let url = pager.url();
                let entries = match url.as_str() {
                    "http://c/v1/namespaces" => vec![read(r#"["a"]"#), read("7"), read(r#"["b"]"#)],
                    "http://c/v1/namespaces?parent=a" => vec![read(r#"["a", "x"]"#)],
                    _ => Vec::new(),
                };
                asked.push(url);
                step = catalog.list_namespaces(NamespaceEvent::Listed(walk, Ok(entries)));
            }
            NamespaceStep::Done(result) => break result,
        }
    };
    assert_eq!(found, Ok(vec![words(&["a"]), words(&["b"]), words(&["a", "x"])]));
    assert_eq!(
        asked,
        vec![
            "http://c/v1/namespaces",
            "http://c/v1/namespaces?parent=a",
            "http://c/v1/namespaces?parent=b",
            "http://c/v1/namespaces?parent=a%1Fx",
        ]
    );
}

#[test]
fn walks_so_many_namespaces_at_most() {
    let catalog = plain_catalog();
    let NamespaceStep::List(walk, _) = catalog.list_namespaces(NamespaceEvent::Start) else {
        panic!("no listing")
    };
    let many: Vec<Json> = (0..201).map(|n| read(&format!("[\"n{n}\"]"))).collect();
    match catalog.list_namespaces(NamespaceEvent::Listed(walk, Ok(many))) {
        NamespaceStep::Done(Ok(namespaces)) => assert_eq!(namespaces.len(), 200),
        _ => panic!("no end"),
    }
}

#[test]
fn stops_a_walk_at_a_failed_listing() {
    let catalog = plain_catalog();
    let NamespaceStep::List(walk, _) = catalog.list_namespaces(NamespaceEvent::Start) else {
        panic!("no listing")
    };
    match catalog.list_namespaces(NamespaceEvent::Listed(walk, Err("down".to_string()))) {
        NamespaceStep::Done(result) => assert_eq!(result, Err("down".to_string())),
        _ => panic!("no end"),
    }
}

#[test]
fn reads_tables() {
    let catalog = plain_catalog();
    let namespace = words(&["a", "b c"]);
    assert_eq!(
        catalog.tables_pager(&namespace).url(),
        "http://c/v1/namespaces/a%1Fb%20c/tables"
    );
    assert_eq!(
        catalog.table_url(&namespace, "t/1"),
        "http://c/v1/namespaces/a%1Fb%20c/tables/t%2F1"
    );
    let page = read(r#"{"identifiers": [{"name": "x"}, {"name": 1}, {}, {"name": "y"}]}"#);
    let PageStep::Done(listing) = catalog.tables_pager(&namespace).paged(Ok(page)) else {
        panic!("no end")
    };
    assert_eq!(list_tables(listing), Ok(words(&["x", "y"])));
    assert_eq!(list_tables(Err("down".to_string())), Err("down".to_string()));

    let answer = read(
        r#"{"metadata-location": "s3://m", "metadata": {"schema": {"fields": [{"name": "a"}]}}}"#,
    );
    let (location, columns) = load_table(Ok(answer)).ok().expect("a table");
    assert_eq!(location, Some("s3://m".to_string()));
    assert_eq!(columns.len(), 1);
    let (location, columns) = load_table(Ok(read("{}"))).ok().expect("a table");
    assert!(location.is_none() && columns.is_empty());
    assert!(matches!(load_table(Err("down".to_string())), Err(message) if message == "down"));
}

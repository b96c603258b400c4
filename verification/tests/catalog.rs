use irodori_lakehouse::catalog::{
    from_request, normalize_base_uri, parse_credential, parse_table_identifier,
    resolve_token_endpoint, Auth, OAuth2Client, RestCatalog,
};
use irodori_lakehouse::json::Json;

fn read(content: &str) -> Json {
    Json::parse(content).ok().expect("valid JSON")
}

fn catalog(content: &str) -> RestCatalog {
    match from_request(&read(content)) {
        Ok(Some(catalog)) => catalog,
        Ok(None) => panic!("no catalog"),
        Err(message) => panic!("{message}"),
    }
}

fn refusal(content: &str) -> String {
    match from_request(&read(content)) {
        Ok(_) => panic!("no refusal"),
        Err(message) => message,
    }
}

fn client(content: &str) -> OAuth2Client {
    match catalog(content).auth {
        Auth::OAuth2(client) => client,
        _ => panic!("no OAuth2"),
    }
}

#[test]
fn normalizes_catalog_base_uris() {
    assert_eq!(
        normalize_base_uri("https://catalog.example.com/v1/"),
        "https://catalog.example.com"
    );
    assert_eq!(
        normalize_base_uri("https://catalog.example.com"),
        "https://catalog.example.com"
    );
    assert_eq!(
        normalize_base_uri("http://localhost:8181/catalog/v1"),
        "http://localhost:8181/catalog"
    );
}

#[test]
fn normalizes_slashes_and_white_space() {
    assert_eq!(normalize_base_uri("  http://a//v1//  "), "http://a");
    assert_eq!(normalize_base_uri("\t http://a///v1/// \n"), "http://a");
    assert_eq!(normalize_base_uri(" http://a// "), "http://a");
    assert_eq!(normalize_base_uri("http://a/v1/v1"), "http://a/v1");
    assert_eq!(normalize_base_uri("/v1"), "");
    assert_eq!(normalize_base_uri(""), "");
}

#[test]
fn parses_table_identifiers() {
    assert_eq!(
        parse_table_identifier("analytics.events").unwrap(),
        (vec!["analytics".to_string()], "events".to_string())
    );
    assert_eq!(
        parse_table_identifier("a.b.events").unwrap(),
        (vec!["a".to_string(), "b".to_string()], "events".to_string())
    );
    assert!(parse_table_identifier("events").is_err());
}

#[test]
fn skips_blank_levels_of_table_identifiers() {
    assert_eq!(
        parse_table_identifier(" a .. b ").unwrap(),
        (vec!["a".to_string()], "b".to_string())
    );
    assert_eq!(
        parse_table_identifier(". .x"),
        Err("tableIdentifier '. .x' must be qualified as namespace.table".to_string())
    );
}

#[test]
fn parses_oauth2_credentials() {
    assert_eq!(
        parse_credential("client-id:client-secret"),
        (
            Some("client-id".to_string()),
            Some("client-secret".to_string())
        )
    );
    assert_eq!(
        parse_credential("only-secret"),
        (None, Some("only-secret".to_string()))
    );
    assert_eq!(
        parse_credential("id-only:"),
        (Some("id-only".to_string()), None)
    );
    assert_eq!(parse_credential(""), (None, None));
    // Extra colons belong to the secret, matching `split(":", 2)` clients.
    assert_eq!(
        parse_credential("id:se:cret"),
        (Some("id".to_string()), Some("se:cret".to_string()))
    );
}

#[test]
fn trims_the_parts_of_credentials() {
    let pair = |id: Option<&str>, secret: Option<&str>| {
        (id.map(|part| part.to_string()), secret.map(|part| part.to_string()))
    };
    assert_eq!(parse_credential(" id\t:\n se:cret "), pair(Some("id"), Some("se:cret")));
    assert_eq!(parse_credential("  : secret"), pair(None, Some("secret")));
    assert_eq!(parse_credential(" : "), pair(None, None));
    assert_eq!(parse_credential("  secret\u{a0}"), pair(None, Some("secret")));
}

#[test]
fn resolves_padded_token_endpoints() {
    assert_eq!(resolve_token_endpoint("http://c", " https://auth/t// "), "https://auth/t");
    assert_eq!(resolve_token_endpoint("http://c", "\t//t/x "), "http://c/t/x");
    assert_eq!(resolve_token_endpoint("http://c", " "), "http://c/");
}

#[test]
fn resolves_oauth2_token_endpoints() {
    let base = "https://catalog.example.com";
    assert_eq!(
        resolve_token_endpoint(base, "https://auth.example.com/oauth/tokens/"),
        "https://auth.example.com/oauth/tokens"
    );
    assert_eq!(
        resolve_token_endpoint(base, "/v1/oauth/tokens"),
        "https://catalog.example.com/v1/oauth/tokens"
    );
    assert_eq!(
        resolve_token_endpoint(base, "v1/oauth/tokens"),
        "https://catalog.example.com/v1/oauth/tokens"
    );
}

#[test]
fn describes_no_catalog_without_an_address() {
    assert!(matches!(from_request(&read(r#"{"catalogType": "glue"}"#)), Ok(None)));
    assert!(matches!(from_request(&read(r#"{"catalogUri": "  "}"#)), Ok(None)));
}

#[test]
fn describes_a_plain_catalog() {
    let found = catalog(
        r#"{"options": {"catalogUrl": "http://c/v1/", "catalogType": "REST",
            "warehousePath": "w h", "tableIdentifier": "a.b.t"}}"#,
    );
    assert_eq!(found.base, "http://c");
    assert_eq!(found.prefix, "");
    assert_eq!(found.namespace_separator, "%1F");
    assert!(matches!(found.auth, Auth::NoAuth));
    assert_eq!(found.warehouse, Some("w h".to_string()));
    assert_eq!(
        found.table_filter,
        Some((vec!["a".to_string(), "b".to_string()], "t".to_string()))
    );
    assert_eq!(found.config_url(), "http://c/v1/config?warehouse=w%20h");
}

#[test]
fn refuses_what_is_no_catalog() {
    assert_eq!(
        refusal(r#"{"catalogUri": "http://c", "catalogType": "Glue"}"#),
        "catalogType 'glue' is not supported yet; only 'rest' catalogs are implemented. \
         Clear catalogUri to scan a single table path instead."
    );
    assert_eq!(
        refusal(r#"{"catalogUri": "s3://b/v1"}"#),
        "catalogUri must be an http(s) URL, got 's3://b/v1'. \
         For a direct table path, use the table path field instead."
    );
    assert_eq!(
        refusal(r#"{"catalogUri": "http://c", "tableIdentifier": "t"}"#),
        "tableIdentifier 't' must be qualified as namespace.table"
    );
    assert_eq!(
        refusal(r#"{"catalogUri": "http://c", "clientId": "i"}"#),
        "OAuth2 catalog authentication is configured but no client secret was found. \
         Set the credential option (clientId:clientSecret), or set oauth2ClientId and \
         put the client secret in the connection password field (which is kept out of \
         saved settings)."
    );
}

#[test]
fn prefers_a_bearer_token_to_oauth2() {
    let found = catalog(r#"{"catalogUri": "http://c", "token": "t", "credential": "i:s"}"#);
    assert!(matches!(&found.auth, Auth::StaticBearer(token) if token == "t"));
    assert_eq!(found.bearer_token(), Some("t".to_string()));
}

#[test]
fn resolves_oauth2_options_in_order() {
    let found = client(
        r#"{"catalogUri": "http://c", "credential": "i:s", "oauth2ClientId": "j",
            "clientSecret": "r", "user": "u", "password": "p"}"#,
    );
    assert_eq!(found.client_id, Some("i".to_string()));
    assert_eq!(found.client_secret, "s");
    assert_eq!(found.token_endpoint, "http://c/v1/oauth/tokens");
    assert!(!found.endpoint_pinned);
    assert_eq!(found.scope, "catalog");
    assert_eq!(found.current_token(), None);

    let found = client(r#"{"catalogUri": "http://c", "credential": "s", "user": "u"}"#);
    assert_eq!(found.client_id, Some("u".to_string()));
    assert_eq!(found.client_secret, "s");

    let found = client(
        r#"{"catalogUri": "http://c", "oauth2ClientId": "j", "password": "p",
            "oauth2ServerUri": "/t/", "scope": "all"}"#,
    );
    assert_eq!(found.client_id, Some("j".to_string()));
    assert_eq!(found.client_secret, "p");
    assert_eq!(found.token_endpoint, "http://c/t/");
    assert!(found.endpoint_pinned);
    assert_eq!(found.scope, "all");
}

use irodori_lakehouse::catalog::{from_request, Auth, OAuth2Client, RestCatalog};
use irodori_lakehouse::catalog_http::{
    http_get_once, oauth_error_detail, read_body, GetAction, GetEvent, HttpFailure, HttpReply,
};
use irodori_lakehouse::json::Json;

fn read(content: &str) -> Json {
    Json::parse(content).ok().expect("valid JSON")
}

fn catalog(content: &str) -> RestCatalog {
    match from_request(&read(content)) {
        Ok(Some(catalog)) => catalog,
        _ => panic!("no catalog"),
    }
}

fn oauth2() -> RestCatalog {
    catalog(r#"{"catalogUri": "http://c", "credential": "id:s3cret"}"#)
}

fn client(catalog: &mut RestCatalog) -> &mut OAuth2Client {
    match &mut catalog.auth {
        Auth::OAuth2(client) => client,
        _ => panic!("no OAuth2"),
    }
}

fn failure(outcome: Result<Json, HttpFailure>) -> (bool, String) {
    match outcome {
        Ok(_) => panic!("no failure"),
        Err(failure) => (
            matches!(failure, HttpFailure::Unauthorized(_)),
            failure.into_message(),
        ),
    }
}

fn error(action: GetAction) -> String {
    match action {
        GetAction::Done(Err(message)) => message,
        _ => panic!("no error"),
    }
}

#[test]
fn formats_oauth_error_details_without_echoing_bodies() {
    assert_eq!(
        oauth_error_detail(r#"{"error":"invalid_client","error_description":"bad"}"#),
        ", invalid_client: bad"
    );
    assert_eq!(oauth_error_detail(r#"{"error":"invalid_client"}"#), ", invalid_client");
    assert_eq!(oauth_error_detail("credential=oops not json"), "");
    assert_eq!(oauth_error_detail("{}"), "");
}

#[test]
fn formats_a_description_alone() {
    assert_eq!(oauth_error_detail(r#"{"error":"","error_description":"bad"}"#), ", bad");
    assert_eq!(oauth_error_detail(r#"{"error":1}"#), "");
}

#[test]
fn reads_replies() {
    let read_back = http_get_once("u", HttpReply::Body("{\"a\": [1]}".to_string()));
    assert_eq!(read_back.ok().expect("an answer").to_text(), "{\"a\":[1]}");
    assert_eq!(
        failure(http_get_once("u", HttpReply::Body("nope".to_string()))),
        (false, "GET u returned invalid JSON: expected ident at line 1 column 2".to_string())
    );
    assert_eq!(
        failure(read_body("u", Err("e".to_string()))),
        (false, "GET u returned invalid JSON: e".to_string())
    );
    assert_eq!(
        failure(http_get_once("u", HttpReply::Unreadable("cut".to_string()))),
        (false, "GET u failed while reading the response: cut".to_string())
    );
    assert_eq!(
        failure(http_get_once("u", HttpReply::Status(503, "busy".to_string()))),
        (false, "GET u returned HTTP 503: busy".to_string())
    );
    assert_eq!(
        failure(http_get_once("u", HttpReply::Status(401, "no".to_string()))),
        (true, "GET u returned HTTP 401: no".to_string())
    );
    assert_eq!(
        failure(http_get_once("u", HttpReply::Failed("refused".to_string()))),
        (false, "GET u failed: refused".to_string())
    );
    let long = "ä".repeat(400);
    let (_, message) = failure(http_get_once("u", HttpReply::Status(500, long)));
    assert_eq!(message.chars().filter(|c| *c == 'ä').count(), 300);
}

#[test]
fn refreshes_a_token_once() {
    let mut found = oauth2();
    let refused = || Err(HttpFailure::Unauthorized("old s3cret t0ken".to_string()));
    assert!(matches!(found.http_get(GetEvent::First(refused())), GetAction::Refresh));
    let reply = HttpReply::Body("{\"access_token\": \"t0ken\"}".to_string());
    let token = client(&mut found).fetch_token(reply);
    assert_eq!(token, Ok("t0ken".to_string()));
    assert!(matches!(found.http_get(GetEvent::Refreshed(token)), GetAction::Resend));
    assert_eq!(found.authorization(), Some("Bearer t0ken".to_string()));
    assert_eq!(
        error(found.http_get(GetEvent::Second(refused()))),
        "catalog still rejects requests after refreshing the OAuth2 token (old **** ****). \
         Check that the credential grants access to this catalog."
    );
    let other = Err(HttpFailure::Other("t0ken s3cret".to_string()));
    assert_eq!(error(found.http_get(GetEvent::Second(other))), "**** ****");
    let fine = GetEvent::Second(Ok(Json::Null));
    assert!(matches!(found.http_get(fine), GetAction::Done(Ok(Json::Null))));
    let failed = GetEvent::Refreshed(Err("gone".to_string()));
    assert_eq!(
        error(found.http_get(failed)),
        "catalog rejected the OAuth2 token and refreshing it failed: gone"
    );
}

#[test]
fn refreshes_nothing_without_oauth2() {
    let bearer = catalog(r#"{"catalogUri": "http://c", "token": "t0p"}"#);
    let refused = GetEvent::First(Err(HttpFailure::Unauthorized("bad t0p".to_string())));
    assert_eq!(error(bearer.http_get(refused)), "bad ****");
    assert_eq!(bearer.authorization(), Some("Bearer t0p".to_string()));
    let plain = catalog(r#"{"catalogUri": "http://c"}"#);
    let refused = GetEvent::First(Err(HttpFailure::Unauthorized("bad".to_string())));
    assert_eq!(error(plain.http_get(refused)), "bad");
    assert_eq!(plain.authorization(), None);
    assert_eq!(plain.scrub("t0p"), "t0p");
}

#[test]
fn asks_for_a_token_with_the_credentials() {
    let mut found = oauth2();
    let form: Vec<(String, String)> = client(&mut found).token_form();
    let pairs: Vec<(&str, &str)> = form.iter().map(|(k, v)| (k.as_str(), v.as_str())).collect();
    assert_eq!(
        pairs,
        vec![
            ("grant_type", "client_credentials"),
            ("scope", "catalog"),
            ("client_secret", "s3cret"),
            ("client_id", "id"),
        ]
    );
}

#[test]
fn reports_failed_token_requests() {
    let mut found = oauth2();
    let fetch = |found: &mut RestCatalog, reply: HttpReply| client(found).fetch_token(reply);
    let endpoint = "http://c/v1/oauth/tokens";
    assert_eq!(
        fetch(&mut found, HttpReply::Body("{}".to_string())),
        Err(format!("OAuth2 token response from {endpoint} did not include an access_token"))
    );
    assert_eq!(
        fetch(&mut found, HttpReply::Body("x".to_string())),
        Err(format!(
            "OAuth2 token response from {endpoint} is not valid JSON: \
             expected value at line 1 column 1"
        ))
    );
    assert_eq!(
        fetch(&mut found, HttpReply::Unreadable("cut".to_string())),
        Err(format!(
            "OAuth2 token request to {endpoint} failed while reading the response: cut"
        ))
    );
    assert_eq!(
        fetch(&mut found, HttpReply::Status(400, "{\"error\": \"invalid\"}".to_string())),
        Err(format!(
            "OAuth2 token request to {endpoint} was rejected (HTTP 400, invalid). \
             Check the client id, client secret, and scope."
        ))
    );
    assert_eq!(
        fetch(&mut found, HttpReply::Failed("refused".to_string())),
        Err(format!(
            "OAuth2 token endpoint {endpoint} is unreachable (refused). \
             Check the oauth2ServerUri option or the catalog URI."
        ))
    );
    assert_eq!(found.bearer_token(), None);
}

#[test]
fn tells_no_credential_that_the_endpoint_echoes() {
    let mut found = oauth2();
    let reply = HttpReply::Body("{\"access_token\": \"t0ken\"}".to_string());
    assert_eq!(client(&mut found).fetch_token(reply), Ok("t0ken".to_string()));
    let endpoint = "http://c/v1/oauth/tokens";
    let body = r#"{"error": "t0ken", "error_description": "bad s3cret t0ken"}"#;
    let echoed = client(&mut found).fetch_token(HttpReply::Status(401, body.to_string()));
    assert_eq!(
        echoed,
        Err(format!(
            "OAuth2 token request to {endpoint} was rejected (HTTP 401, ****: bad **** ****). \
             Check the client id, client secret, and scope."
        ))
    );
    assert_eq!(
        error(found.http_get(GetEvent::Refreshed(echoed))),
        format!(
            "catalog rejected the OAuth2 token and refreshing it failed: OAuth2 token request to \
             {endpoint} was rejected (HTTP 401, ****: bad **** ****). \
             Check the client id, client secret, and scope."
        )
    );
    let cut = HttpReply::Unreadable("after s3cret".to_string());
    assert_eq!(
        client(&mut found).fetch_token(cut),
        Err(format!(
            "OAuth2 token request to {endpoint} failed while reading the response: after ****"
        ))
    );
    let down = HttpReply::Failed("t0ken refused".to_string());
    assert_eq!(
        client(&mut found).fetch_token(down),
        Err(format!(
            "OAuth2 token endpoint {endpoint} is unreachable (**** refused). \
             Check the oauth2ServerUri option or the catalog URI."
        ))
    );
    let invalid = client(&mut found).accept_token(Err("s3cret".to_string()));
    assert_eq!(
        invalid,
        Err(format!("OAuth2 token response from {endpoint} is not valid JSON: ****"))
    );
    assert_eq!(found.bearer_token(), Some("t0ken".to_string()));
}

#[test]
fn takes_the_configuration_of_a_catalog() {
    let mut found = oauth2();
    let config = read(
        r#"{"overrides": {"prefix": "//", "namespace-separator": ""},
            "defaults": {"prefix": "/p/q/", "namespace-separator": "%2E",
                         "oauth2-server-uri": "https://auth/t/"}}"#,
    );
    assert_eq!(found.fetch_config(Ok(config)), Ok(()));
    assert_eq!(found.prefix, "p/q");
    assert_eq!(found.namespace_separator, "%2E");
    assert_eq!(client(&mut found).token_endpoint, "https://auth/t");
    assert_eq!(found.v1_url("namespaces"), "http://c/v1/p/q/namespaces");

    assert_eq!(
        found.fetch_config(Err("GET u failed".to_string())),
        Err("Iceberg REST catalog is unreachable (GET u failed). Check the catalog URI.".to_string())
    );
    assert_eq!(found.prefix, "p/q");
}

#[test]
fn keeps_a_token_endpoint_that_the_user_set() {
    let mut found = catalog(
        r#"{"catalogUri": "http://c", "credential": "s", "oauth2ServerUri": "https://mine"}"#,
    );
    let config = read(r#"{"overrides": {"oauth2-server-uri": "https://theirs", "prefix": "x"}}"#);
    assert_eq!(found.fetch_config(Ok(config)), Ok(()));
    assert_eq!(client(&mut found).token_endpoint, "https://mine");
    assert_eq!(found.v1_url("t"), "http://c/v1/x/t");
}

//! The exchange with a catalog and its token endpoint: what is sent, and what a reply means.
//!
//! Requests are sent outside of this library. A function here takes a reply and says what comes
//! next.
use crate::catalog::{
    endpoint_of, resolve_token_endpoint, Auth, AuthView, CatalogView, OAuth2Client, OAuth2View,
    RestCatalog,
};
use crate::json::{member, member_of, string_of, Json, JsonView};
use crate::json_text::parsed;
use crate::redaction::{
    masked, masking_removes_the_secret, masking_reveals_nothing, occurs, redact_value,
};
use crate::request::get_in;
use crate::text;
use crate::text::{
    decimal_of, no_trailing_occurrence_is_left, optional, without_leading, without_trailing,
};
use crate::url::{encode_component, encoded};
use vstd::prelude::*;

verus! {

/// The reply to a request that was sent.
pub enum HttpReply {
    /// The body of a successful reply.
    Body(String),
    /// Why the body of a successful reply could not be read.
    Unreadable(String),
    /// The status and the body of a reply that is not successful.
    Status(u16, String),
    /// Why there was no reply.
    Failed(String),
}

/// What a reply stands for.
pub enum HttpReplyView {
    Body(Seq<char>),
    Unreadable(Seq<char>),
    Status(u16, Seq<char>),
    Failed(Seq<char>),
}

impl View for HttpReply {
    type V = HttpReplyView;

    open spec fn view(&self) -> HttpReplyView {
        match self {
            HttpReply::Body(body) => HttpReplyView::Body(body@),
            HttpReply::Unreadable(error) => HttpReplyView::Unreadable(error@),
            HttpReply::Status(code, body) => HttpReplyView::Status(*code, body@),
            HttpReply::Failed(error) => HttpReplyView::Failed(error@),
        }
    }
}

/// Why a request failed: told apart is a reply that says it is not authorized, which an OAuth2 token
/// refresh may mend.
pub enum HttpFailure {
    Unauthorized(String),
    Other(String),
}

/// What a failure stands for.
pub enum HttpFailureView {
    Unauthorized(Seq<char>),
    Other(Seq<char>),
}

impl View for HttpFailure {
    type V = HttpFailureView;

    open spec fn view(&self) -> HttpFailureView {
        match self {
            HttpFailure::Unauthorized(message) => HttpFailureView::Unauthorized(message@),
            HttpFailure::Other(message) => HttpFailureView::Other(message@),
        }
    }
}

impl HttpFailureView {
    /// The message of a failure.
    pub open spec fn message(self) -> Seq<char> {
        match self {
            HttpFailureView::Unauthorized(message) => message,
            HttpFailureView::Other(message) => message,
        }
    }
}

impl HttpFailure {
    /// The message of the failure.
    pub fn into_message(self) -> (message: String)
        ensures
            message@ == self@.message(),
    {
        match self {
            HttpFailure::Unauthorized(message) => message,
            HttpFailure::Other(message) => message,
        }
    }
}

/// What the outcome of one request stands for.
pub open spec fn fetched(outcome: Result<Json, HttpFailure>) -> Result<JsonView, HttpFailureView> {
    match outcome {
        Ok(json) => Ok(json@),
        Err(failure) => Err(failure@),
    }
}

/// What an answer stands for.
pub open spec fn answered(answer: Result<Json, String>) -> Result<JsonView, Seq<char>> {
    match answer {
        Ok(json) => Ok(json@),
        Err(message) => Err(message@),
    }
}

/// What a fetched token stands for.
pub open spec fn token_result(result: Result<String, String>) -> Result<Seq<char>, Seq<char>> {
    match result {
        Ok(token) => Ok(token@),
        Err(message) => Err(message@),
    }
}

/// The token that requests are sent with.
pub open spec fn bearer_of(auth: AuthView) -> Option<Seq<char>> {
    match auth {
        AuthView::NoAuth => None,
        AuthView::StaticBearer(token) => Some(token),
        AuthView::OAuth2(client) => client.access_token,
    }
}

/// A message without the credentials of an authentication.
pub open spec fn scrubbed(auth: AuthView, message: Seq<char>) -> Seq<char> {
    match auth {
        AuthView::NoAuth => message,
        AuthView::StaticBearer(token) => masked(message, token),
        AuthView::OAuth2(client) => match client.access_token {
            Some(token) => masked(masked(message, client.client_secret), token),
            None => masked(message, client.client_secret),
        },
    }
}

impl OAuth2Client {
    /// The token fetched last.
    pub fn current_token(&self) -> (token: Option<String>)
        ensures
            optional(token) == self@.access_token,
    {
        match &self.access_token {
            Some(token) => Some(token.clone()),
            None => None,
        }
    }

    /// The message without the client secret and the token fetched last.
    fn scrub(&self, message: &str) -> (out: String)
        ensures
            out@ == scrubbed(AuthView::OAuth2(self@), message@),
    {
        let masked_secret = redact_value(message, self.client_secret.as_str());
        match self.current_token() {
            Some(token) => redact_value(masked_secret.as_str(), token.as_str()),
            None => masked_secret,
        }
    }
}

impl RestCatalog {
    /// The token that requests are sent with.
    pub fn bearer_token(&self) -> (token: Option<String>)
        ensures
            optional(token) == bearer_of(self@.auth),
    {
        match &self.auth {
            Auth::NoAuth => None,
            Auth::StaticBearer(token) => Some(token.clone()),
            Auth::OAuth2(client) => client.current_token(),
        }
    }

    /// The `Authorization` header that requests are sent with.
    pub fn authorization(&self) -> (header: Option<String>)
        ensures
            optional(header) == (match bearer_of(self@.auth) {
                Some(token) => Some("Bearer "@ + token),
                None => None,
            }),
    {
        match self.bearer_token() {
            Some(token) => Some("Bearer ".to_string().concat(token.as_str())),
            None => None,
        }
    }

    /// The message without the credentials of the catalog, so that it can be reported. The values
    /// that a request holds are masked besides; this covers the fetched token too.
    pub fn scrub(&self, message: &str) -> (out: String)
        ensures
            out@ == scrubbed(self@.auth, message@),
    {
        match &self.auth {
            Auth::NoAuth => message.to_string(),
            Auth::StaticBearer(token) => redact_value(message, token.as_str()),
            Auth::OAuth2(client) => client.scrub(message),
        }
    }

    /// The address of a resource of the catalog.
    pub fn v1_url(&self, tail: &str) -> (out: String)
        ensures
            out@ == resource_url(self@, tail@),
    {
        if self.prefix.as_str().is_empty() {
            self.base.clone().concat("/v1/").concat(tail)
        } else {
            self.base.clone().concat("/v1/").concat(self.prefix.as_str()).concat("/").concat(tail)
        }
    }
}

/// The address of a resource of a catalog.
pub open spec fn resource_url(catalog: CatalogView, tail: Seq<char>) -> Seq<char> {
    if catalog.prefix.len() == 0 {
        catalog.base + "/v1/"@ + tail
    } else {
        catalog.base + "/v1/"@ + catalog.prefix + "/"@ + tail
    }
}

/// What the read body of a successful reply means.
pub open spec fn body_outcome(url: Seq<char>, value: Result<JsonView, Seq<char>>) -> Result<
    JsonView,
    HttpFailureView,
> {
    match value {
        Ok(json) => Ok(json),
        Err(error) => Err(
            HttpFailureView::Other("GET "@ + url + " returned invalid JSON: "@ + error),
        ),
    }
}

/// At most the first `count` characters of a text.
pub open spec fn at_most(s: Seq<char>, count: int) -> Seq<char> {
    if s.len() <= count {
        s
    } else {
        s.take(count)
    }
}

/// The most characters of a body that a message quotes.
pub const MAX_DETAIL: usize = 300;

/// The status of a reply that says that a request is not authorized.
pub const UNAUTHORIZED: u16 = 401;

/// What the reply to a request means.
pub open spec fn reply_outcome(url: Seq<char>, reply: HttpReplyView) -> Result<
    JsonView,
    HttpFailureView,
> {
    match reply {
        HttpReplyView::Body(body) => body_outcome(url, parsed(body)),
        HttpReplyView::Unreadable(error) => Err(
            HttpFailureView::Other(
                "GET "@ + url + " failed while reading the response: "@ + error,
            ),
        ),
        HttpReplyView::Status(code, body) => {
            let message = "GET "@ + url + " returned HTTP "@ + decimal_of(code as nat) + ": "@
                + at_most(body, MAX_DETAIL as int);
            if code == UNAUTHORIZED {
                Err(HttpFailureView::Unauthorized(message))
            } else {
                Err(HttpFailureView::Other(message))
            }
        },
        HttpReplyView::Failed(error) => Err(
            HttpFailureView::Other("GET "@ + url + " failed: "@ + error),
        ),
    }
}

/// What the read body of a successful reply means.
pub fn read_body(url: &str, value: Result<Json, String>) -> (outcome: Result<Json, HttpFailure>)
    ensures
        fetched(outcome) == body_outcome(url@, answered(value)),
{
    match value {
        Ok(json) => Ok(json),
        Err(error) => Err(
            HttpFailure::Other(
                "GET ".to_string().concat(url).concat(" returned invalid JSON: ").concat(
                    error.as_str(),
                ),
            ),
        ),
    }
}

/// What the reply to a request means.
pub fn http_get_once(url: &str, reply: HttpReply) -> (outcome: Result<Json, HttpFailure>)
    ensures
        fetched(outcome) == reply_outcome(url@, reply@),
{
    match reply {
        HttpReply::Body(body) => read_body(url, Json::parse(body.as_str())),
        HttpReply::Unreadable(error) => Err(
            HttpFailure::Other(
                "GET ".to_string().concat(url).concat(
                    " failed while reading the response: ",
                ).concat(error.as_str()),
            ),
        ),
        HttpReply::Status(code, body) => {
            let message = "GET ".to_string().concat(url).concat(" returned HTTP ").concat(
                text::decimal(code as u64).as_str(),
            ).concat(": ").concat(text::first_chars(body.as_str(), MAX_DETAIL).as_str());
            if code == UNAUTHORIZED {
                Err(HttpFailure::Unauthorized(message))
            } else {
                Err(HttpFailure::Other(message))
            }
        },
        HttpReply::Failed(error) => Err(
            HttpFailure::Other(
                "GET ".to_string().concat(url).concat(" failed: ").concat(error.as_str()),
            ),
        ),
    }
}

/// What came back in an authenticated exchange.
pub enum GetEvent {
    /// The outcome of the request.
    First(Result<Json, HttpFailure>),
    /// The outcome of fetching a token.
    Refreshed(Result<String, String>),
    /// The outcome of the request sent again with the fetched token.
    Second(Result<Json, HttpFailure>),
}

/// What an event of an exchange stands for.
pub enum GetEventView {
    First(Result<JsonView, HttpFailureView>),
    Refreshed(Result<Seq<char>, Seq<char>>),
    Second(Result<JsonView, HttpFailureView>),
}

impl View for GetEvent {
    type V = GetEventView;

    open spec fn view(&self) -> GetEventView {
        match self {
            GetEvent::First(outcome) => GetEventView::First(fetched(*outcome)),
            GetEvent::Refreshed(result) => GetEventView::Refreshed(token_result(*result)),
            GetEvent::Second(outcome) => GetEventView::Second(fetched(*outcome)),
        }
    }
}

/// What is to be done next in an authenticated exchange.
pub enum GetAction {
    /// Fetch a token.
    Refresh,
    /// Send the request again.
    Resend,
    /// Nothing: this is the answer.
    Done(Result<Json, String>),
}

/// What an action of an exchange stands for.
pub enum GetActionView {
    Refresh,
    Resend,
    Done(Result<JsonView, Seq<char>>),
}

impl View for GetAction {
    type V = GetActionView;

    open spec fn view(&self) -> GetActionView {
        match self {
            GetAction::Refresh => GetActionView::Refresh,
            GetAction::Resend => GetActionView::Resend,
            GetAction::Done(answer) => GetActionView::Done(answered(*answer)),
        }
    }
}

/// The answer that a last outcome gives.
pub open spec fn last_answer(
    auth: AuthView,
    outcome: Result<JsonView, HttpFailureView>,
) -> Result<JsonView, Seq<char>> {
    match outcome {
        Ok(json) => Ok(json),
        Err(failure) => Err(scrubbed(auth, failure.message())),
    }
}

/// What follows an event of an exchange: a request that is not authorized is sent once more with a
/// fresh token where the catalog uses OAuth2; a second refusal is reported.
pub open spec fn get_step(auth: AuthView, event: GetEventView) -> GetActionView {
    match event {
        GetEventView::First(Err(HttpFailureView::Unauthorized(message))) => if auth is OAuth2 {
            GetActionView::Refresh
        } else {
            GetActionView::Done(Err(scrubbed(auth, message)))
        },
        GetEventView::First(outcome) => GetActionView::Done(last_answer(auth, outcome)),
        GetEventView::Refreshed(Ok(_)) => GetActionView::Resend,
        GetEventView::Refreshed(Err(message)) => GetActionView::Done(
            Err("catalog rejected the OAuth2 token and refreshing it failed: "@ + message),
        ),
        GetEventView::Second(Err(HttpFailureView::Unauthorized(message))) => GetActionView::Done(
            Err(
                "catalog still rejects requests after refreshing the OAuth2 token ("@ + scrubbed(
                    auth,
                    message,
                ) + "). Check that the credential grants access to this catalog."@,
            ),
        ),
        GetEventView::Second(outcome) => GetActionView::Done(last_answer(auth, outcome)),
    }
}

impl RestCatalog {
    /// The answer that a last outcome gives.
    fn answer(&self, outcome: Result<Json, HttpFailure>) -> (out: Result<Json, String>)
        ensures
            answered(out) == last_answer(self@.auth, fetched(outcome)),
    {
        match outcome {
            Ok(json) => Ok(json),
            Err(failure) => Err(self.scrub(failure.into_message().as_str())),
        }
    }

    /// What follows an event of an authenticated exchange.
    pub fn http_get(&self, event: GetEvent) -> (action: GetAction)
        ensures
            action@ == get_step(self@.auth, event@),
    {
        match event {
            GetEvent::First(Err(HttpFailure::Unauthorized(message))) => match &self.auth {
                Auth::OAuth2(_) => GetAction::Refresh,
                _ => GetAction::Done(Err(self.scrub(message.as_str()))),
            },
            GetEvent::First(outcome) => GetAction::Done(self.answer(outcome)),
            GetEvent::Refreshed(Ok(_)) => GetAction::Resend,
            GetEvent::Refreshed(Err(message)) => GetAction::Done(
                Err(
                    "catalog rejected the OAuth2 token and refreshing it failed: ".to_string().concat(
                        message.as_str(),
                    ),
                ),
            ),
            GetEvent::Second(Err(HttpFailure::Unauthorized(message))) => GetAction::Done(
                Err(
                    "catalog still rejects requests after refreshing the OAuth2 token (".to_string().concat(
                        self.scrub(message.as_str()).as_str(),
                    ).concat("). Check that the credential grants access to this catalog."),
                ),
            ),
            GetEvent::Second(outcome) => GetAction::Done(self.answer(outcome)),
        }
    }
}

/// The address of a catalog's configuration.
pub open spec fn config_address(catalog: CatalogView) -> Seq<char> {
    match catalog.warehouse {
        Some(warehouse) => catalog.base + "/v1/config"@ + "?warehouse="@ + encoded(warehouse),
        None => catalog.base + "/v1/config"@,
    }
}

/// A text of a section of a catalog's configuration.
pub open spec fn config_text(
    config: JsonView,
    section: Seq<char>,
    name: Seq<char>,
) -> Option<Seq<char>> {
    string_of(member_of(member(config, section), name))
}

/// The setting of a catalog's configuration: its override, unless that is empty, else its default,
/// unless that is empty.
pub open spec fn config_setting(config: JsonView, name: Seq<char>) -> Option<Seq<char>> {
    match (config_text(config, "overrides"@, name), config_text(config, "defaults"@, name)) {
        (Some(value), _) if value.len() > 0 => Some(value),
        (_, Some(value)) if value.len() > 0 => Some(value),
        _ => None,
    }
}

/// A text without slashes at its ends.
pub open spec fn without_slashes(s: Seq<char>) -> Seq<char> {
    without_trailing(without_leading(s, '/'), '/')
}

/// The prefix of a catalog after it read its configuration.
pub open spec fn configured_prefix(config: JsonView, prefix: Seq<char>) -> Seq<char> {
    match (
        config_text(config, "overrides"@, "prefix"@),
        config_text(config, "defaults"@, "prefix"@),
    ) {
        (Some(value), _) if without_slashes(value).len() > 0 => without_slashes(value),
        (_, Some(value)) => without_slashes(value),
        (Some(_), None) => seq![],
        (None, None) => prefix,
    }
}

/// The authentication of a catalog after it read its configuration: a token endpoint that the
/// catalog advertises is used from now on, unless the user set one.
pub open spec fn configured_auth(config: JsonView, base: Seq<char>, auth: AuthView) -> AuthView {
    match auth {
        AuthView::OAuth2(client) => match config_setting(config, "oauth2-server-uri"@) {
            Some(uri) if !client.endpoint_pinned => AuthView::OAuth2(
                OAuth2View { token_endpoint: endpoint_of(base, uri), ..client },
            ),
            _ => auth,
        },
        _ => auth,
    }
}

/// A catalog after it read its configuration.
pub open spec fn configured(catalog: CatalogView, config: JsonView) -> CatalogView {
    CatalogView {
        prefix: configured_prefix(config, catalog.prefix),
        namespace_separator: match config_setting(config, "namespace-separator"@) {
            Some(separator) => separator,
            None => catalog.namespace_separator,
        },
        auth: configured_auth(config, catalog.base, catalog.auth),
        ..catalog
    }
}

/// A text of a section of a catalog's configuration.
fn section_text<'a>(config: &'a Json, section: &str, name: &str) -> (found: Option<&'a str>)
    ensures
        match found {
            Some(value) => config_text(config@, section@, name@) == Some(value@),
            None => config_text(config@, section@, name@) is None,
        },
{
    match get_in(config.get(section), name) {
        Some(value) => value.as_str(),
        None => None,
    }
}

/// The setting of a catalog's configuration.
fn setting(config: &Json, name: &str) -> (found: Option<String>)
    ensures
        optional(found) == config_setting(config@, name@),
{
    if let Some(value) = section_text(config, "overrides", name) {
        if !value.is_empty() {
            return Some(value.to_string());
        }
    }
    if let Some(value) = section_text(config, "defaults", name) {
        if !value.is_empty() {
            return Some(value.to_string());
        }
    }
    None
}

/// The text without slashes at its ends.
fn trim_slashes(value: &str) -> (out: String)
    ensures
        out@ == without_slashes(value@),
{
    text::trim_trailing(text::trim_leading(value, '/').as_str(), '/')
}

impl RestCatalog {
    /// The address of the catalog's configuration.
    pub fn config_url(&self) -> (url: String)
        ensures
            url@ == config_address(self@),
    {
        let url = self.base.clone().concat("/v1/config");
        match &self.warehouse {
            Some(warehouse) => url.concat("?warehouse=").concat(
                encode_component(warehouse.as_str()).as_str(),
            ),
            None => url,
        }
    }

    /// Takes the answer of the catalog about its configuration.
    pub fn fetch_config(&mut self, answer: Result<Json, String>) -> (result: Result<(), String>)
        ensures
            match answered(answer) {
                Ok(config) => result is Ok && final(self)@ == configured(old(self)@, config),
                Err(error) => {
                    &&& result matches Err(message)
                    &&& message@ == "Iceberg REST catalog is unreachable ("@ + error
                        + "). Check the catalog URI."@
                    &&& final(self)@ == old(self)@
                },
            },
    {
        let config = match answer {
            Ok(config) => config,
            Err(error) => {
                return Err(
                    "Iceberg REST catalog is unreachable (".to_string().concat(
                        error.as_str(),
                    ).concat("). Check the catalog URI."),
                );
            },
        };
        let defaults = section_text(&config, "defaults", "prefix");
        match section_text(&config, "overrides", "prefix") {
            Some(value) => {
                self.prefix = trim_slashes(value);
                if self.prefix.as_str().is_empty() {
                    if let Some(other) = defaults {
                        self.prefix = trim_slashes(other);
                    }
                }
            },
            None => {
                if let Some(other) = defaults {
                    self.prefix = trim_slashes(other);
                }
            },
        }
        if let Some(separator) = setting(&config, "namespace-separator") {
            self.namespace_separator = separator;
        }
        if let Auth::OAuth2(client) = &mut self.auth {
            if !client.endpoint_pinned {
                if let Some(uri) = setting(&config, "oauth2-server-uri") {
                    client.token_endpoint = resolve_token_endpoint(self.base.as_str(), uri.as_str());
                }
            }
        }
        assert(self@ =~= configured(old(self)@, config@));
        Ok(())
    }
}

/// A string member of a value, or the empty text.
pub open spec fn text_or_empty(value: JsonView, name: Seq<char>) -> Seq<char> {
    match string_of(member(value, name)) {
        Some(found) => found,
        None => seq![],
    }
}

/// What a message tells of the body of a refused token request: the fields that the OAuth2 error
/// response defines, and nothing else of the body.
pub open spec fn error_detail(value: Result<JsonView, Seq<char>>) -> Seq<char> {
    match value {
        Err(_) => seq![],
        Ok(json) => {
            let error = text_or_empty(json, "error"@);
            let description = text_or_empty(json, "error_description"@);
            if error.len() == 0 && description.len() == 0 {
                seq![]
            } else if description.len() == 0 {
                ", "@ + error
            } else if error.len() == 0 {
                ", "@ + description
            } else {
                ", "@ + error + ": "@ + description
            }
        },
    }
}

/// A string member of a value, or the empty text.
fn member_text<'a>(value: &'a Json, name: &str) -> (out: &'a str)
    ensures
        out@ == text_or_empty(value@, name@),
{
    match value.text_at(name) {
        Some(found) => found,
        None => {
            proof {
                reveal_strlit("");
                assert(""@ =~= seq![]);
            }
            ""
        },
    }
}

/// What a message tells of the read body of a refused token request.
pub fn error_fields(value: &Result<Json, String>) -> (detail: String)
    ensures
        detail@ == error_detail(answered(*value)),
{
    let json = match value {
        Ok(json) => json,
        Err(_) => {
            return String::new();
        },
    };
    let error = member_text(json, "error");
    let description = member_text(json, "error_description");
    if error.is_empty() && description.is_empty() {
        String::new()
    } else if description.is_empty() {
        ", ".to_string().concat(error)
    } else if error.is_empty() {
        ", ".to_string().concat(description)
    } else {
        ", ".to_string().concat(error).concat(": ").concat(description)
    }
}

/// What a message tells of the body of a refused token request.
pub fn oauth_error_detail(body: &str) -> (detail: String)
    ensures
        detail@ == error_detail(parsed(body@)),
{
    error_fields(&Json::parse(body))
}

/// The token in the read body of a token response.
pub open spec fn token_in(endpoint: Seq<char>, value: Result<JsonView, Seq<char>>) -> Result<
    Seq<char>,
    Seq<char>,
> {
    match value {
        Err(error) => Err(
            "OAuth2 token response from "@ + endpoint + " is not valid JSON: "@ + error,
        ),
        Ok(json) => if text_or_empty(json, "access_token"@).len() > 0 {
            Ok(text_or_empty(json, "access_token"@))
        } else {
            Err(
                "OAuth2 token response from "@ + endpoint + " did not include an access_token"@,
            )
        },
    }
}

/// The token in the reply to a token request.
pub open spec fn token_outcome(endpoint: Seq<char>, reply: HttpReplyView) -> Result<
    Seq<char>,
    Seq<char>,
> {
    match reply {
        HttpReplyView::Body(body) => token_in(endpoint, parsed(body)),
        HttpReplyView::Unreadable(error) => Err(
            "OAuth2 token request to "@ + endpoint + " failed while reading the response: "@
                + error,
        ),
        HttpReplyView::Status(code, body) => Err(
            "OAuth2 token request to "@ + endpoint + " was rejected (HTTP "@ + decimal_of(
                code as nat,
            ) + error_detail(parsed(body))
                + "). Check the client id, client secret, and scope."@,
        ),
        HttpReplyView::Failed(error) => Err(
            "OAuth2 token endpoint "@ + endpoint + " is unreachable ("@ + error
                + "). Check the oauth2ServerUri option or the catalog URI."@,
        ),
    }
}

/// What a client tells of the outcome of a token request: the message of a failure without the
/// client's credentials, whatever the endpoint put into its reply.
pub open spec fn told(client: OAuth2View, outcome: Result<Seq<char>, Seq<char>>) -> Result<
    Seq<char>,
    Seq<char>,
> {
    match outcome {
        Ok(token) => Ok(token),
        Err(message) => Err(scrubbed(AuthView::OAuth2(client), message)),
    }
}

/// An OAuth2 client after a token request: it holds the token that it got.
pub open spec fn holding(client: OAuth2View, token: Result<Seq<char>, Seq<char>>) -> OAuth2View {
    match token {
        Ok(found) => OAuth2View { access_token: Some(found), ..client },
        Err(_) => client,
    }
}

/// What the fields of a form stand for.
pub open spec fn form_view(form: Seq<(String, String)>) -> Seq<(Seq<char>, Seq<char>)> {
    Seq::new(form.len(), |i: int| (form[i].0@, form[i].1@))
}

/// The form that a client sends to its token endpoint.
pub open spec fn token_fields(client: OAuth2View) -> Seq<(Seq<char>, Seq<char>)> {
    let fields = seq![
        ("grant_type"@, "client_credentials"@),
        ("scope"@, client.scope),
        ("client_secret"@, client.client_secret),
    ];
    match client.client_id {
        Some(id) => fields.push(("client_id"@, id)),
        None => fields,
    }
}

impl OAuth2Client {
    /// The form that exchanges the client credentials for an access token.
    pub fn token_form(&self) -> (form: Vec<(String, String)>)
        ensures
            form_view(form@) == token_fields(self@),
    {
        let mut form: Vec<(String, String)> = Vec::new();
        form.push(("grant_type".to_string(), "client_credentials".to_string()));
        form.push(("scope".to_string(), self.scope.clone()));
        form.push(("client_secret".to_string(), self.client_secret.clone()));
        if let Some(client_id) = &self.client_id {
            form.push(("client_id".to_string(), client_id.clone()));
        }
        assert(form_view(form@) =~= token_fields(self@));
        form
    }

    /// What the client tells of the outcome of a token request.
    fn tell(&self, outcome: Result<String, String>) -> (result: Result<String, String>)
        ensures
            token_result(result) == told(self@, token_result(outcome)),
    {
        match outcome {
            Ok(token) => Ok(token),
            Err(message) => Err(self.scrub(message.as_str())),
        }
    }

    /// The token in the read body of a token response.
    fn read_token(&self, value: &Result<Json, String>) -> (outcome: Result<String, String>)
        ensures
            token_result(outcome) == token_in(self@.token_endpoint, answered(*value)),
    {
        let json = match value {
            Ok(json) => json,
            Err(error) => {
                return Err(
                    "OAuth2 token response from ".to_string().concat(
                        self.token_endpoint.as_str(),
                    ).concat(" is not valid JSON: ").concat(error.as_str()),
                );
            },
        };
        let token = member_text(json, "access_token");
        if token.is_empty() {
            return Err(
                "OAuth2 token response from ".to_string().concat(
                    self.token_endpoint.as_str(),
                ).concat(" did not include an access_token"),
            );
        }
        Ok(token.to_string())
    }

    /// Takes the token out of the read body of a token response, and holds it for later requests. In
    /// the message of a failure the client secret and the token held so far are masked.
    pub fn accept_token(&mut self, value: Result<Json, String>) -> (result: Result<String, String>)
        ensures
            token_result(result) == told(
                old(self)@,
                token_in(old(self)@.token_endpoint, answered(value)),
            ),
            final(self)@ == holding(old(self)@, token_result(result)),
    {
        let outcome = self.read_token(&value);
        let result = self.tell(outcome);
        if let Ok(token) = &result {
            self.access_token = Some(token.clone());
        }
        result
    }

    /// Takes the reply to a token request, and holds the token that it got for later requests. In
    /// the message of a failure the client secret and the token held so far are masked.
    pub fn fetch_token(&mut self, reply: HttpReply) -> (result: Result<String, String>)
        ensures
            token_result(result) == told(
                old(self)@,
                token_outcome(old(self)@.token_endpoint, reply@),
            ),
            final(self)@ == holding(old(self)@, token_result(result)),
    {
        let message = match reply {
            HttpReply::Body(body) => {
                return self.accept_token(Json::parse(body.as_str()));
            },
            HttpReply::Unreadable(error) => "OAuth2 token request to ".to_string().concat(
                self.token_endpoint.as_str(),
            ).concat(" failed while reading the response: ").concat(error.as_str()),
            HttpReply::Status(code, body) => "OAuth2 token request to ".to_string().concat(
                self.token_endpoint.as_str(),
            ).concat(" was rejected (HTTP ").concat(text::decimal(code as u64).as_str()).concat(
                oauth_error_detail(body.as_str()).as_str(),
            ).concat("). Check the client id, client secret, and scope."),
            HttpReply::Failed(error) => "OAuth2 token endpoint ".to_string().concat(
                self.token_endpoint.as_str(),
            ).concat(" is unreachable (").concat(error.as_str()).concat(
                "). Check the oauth2ServerUri option or the catalog URI.",
            ),
        };
        self.tell(Err(message))
    }
}

/// A token is fetched in an exchange exactly when the catalog uses OAuth2 and answers the request that
/// it is not authorized; after that the request is sent once more at most, and the exchange ends.
pub proof fn a_token_is_refreshed_once(auth: AuthView, event: GetEventView)
    ensures
        get_step(auth, event) is Refresh <==> auth is OAuth2 && event is First && (event->First_0
            matches Err(failure) && failure is Unauthorized),
        get_step(auth, event) is Resend <==> event is Refreshed && event->Refreshed_0 is Ok,
        event is Second ==> get_step(auth, event) is Done,
{
}

/// Whether a text is one of the credentials of an authentication.
pub open spec fn credential_of(auth: AuthView, secret: Seq<char>) -> bool {
    match auth {
        AuthView::NoAuth => false,
        AuthView::StaticBearer(token) => secret == token,
        AuthView::OAuth2(client) => secret == client.client_secret || client.access_token == Some(
            secret,
        ),
    }
}

/// A scrubbed message holds none of the credentials, unless a credential has characters of the mask.
pub proof fn scrubbing_removes_credentials(auth: AuthView, message: Seq<char>, secret: Seq<char>)
    requires
        credential_of(auth, secret),
        secret.len() > 0,
        !secret.contains('*'),
    ensures
        !occurs(secret, scrubbed(auth, message)),
{
    match auth {
        AuthView::NoAuth => {},
        AuthView::StaticBearer(token) => {
            masking_removes_the_secret(message, secret);
        },
        AuthView::OAuth2(client) => {
            let once = masked(message, client.client_secret);
            if client.access_token == Some(secret) {
                masking_removes_the_secret(once, secret);
            } else {
                masking_removes_the_secret(message, secret);
                if let Some(token) = client.access_token {
                    masking_reveals_nothing(once, token, secret);
                }
            }
        },
    }
}

/// The message of a token request that failed holds none of the credentials of the client, whatever
/// the endpoint replied, unless a credential has characters of the mask.
pub proof fn failed_token_requests_tell_no_credential(
    client: OAuth2View,
    reply: HttpReplyView,
    secret: Seq<char>,
)
    requires
        credential_of(AuthView::OAuth2(client), secret),
        secret.len() > 0,
        !secret.contains('*'),
    ensures
        told(client, token_outcome(client.token_endpoint, reply)) matches Err(message) ==> !occurs(
            secret,
            message,
        ),
{
    if let Err(message) = token_outcome(client.token_endpoint, reply) {
        scrubbing_removes_credentials(AuthView::OAuth2(client), message, secret);
    }
}

/// The message of a request that failed holds none of the credentials of the catalog, unless a
/// credential has characters of the mask. Where a second refusal or a failed refresh is reported, this
/// holds of what is reported inside the fixed text.
pub proof fn failed_requests_tell_no_credential(
    auth: AuthView,
    failure: HttpFailureView,
    reply: HttpReplyView,
    secret: Seq<char>,
)
    requires
        credential_of(auth, secret),
        secret.len() > 0,
        !secret.contains('*'),
    ensures
        get_step(auth, GetEventView::First(Err(failure))) matches GetActionView::Done(Err(message))
            ==> !occurs(secret, message),
        get_step(auth, GetEventView::Second(Err(failure))) matches GetActionView::Done(Err(message))
            && match failure {
            HttpFailureView::Other(_) => !occurs(secret, message),
            HttpFailureView::Unauthorized(refusal) => message
                == "catalog still rejects requests after refreshing the OAuth2 token ("@ + scrubbed(
                auth,
                refusal,
            ) + "). Check that the credential grants access to this catalog."@ && !occurs(
                secret,
                scrubbed(auth, refusal),
            ),
        },
        auth matches AuthView::OAuth2(client) ==> (told(
            client,
            token_outcome(client.token_endpoint, reply),
        ) matches Err(reason) ==> get_step(auth, GetEventView::Refreshed(Err(reason)))
            == GetActionView::Done(
            Err("catalog rejected the OAuth2 token and refreshing it failed: "@ + reason),
        ) && !occurs(secret, reason)),
{
    scrubbing_removes_credentials(auth, failure.message(), secret);
    if let AuthView::OAuth2(client) = auth {
        failed_token_requests_tell_no_credential(client, reply, secret);
    }
}

/// A token that was fetched is the one that requests are sent with from then on.
pub proof fn fetched_tokens_are_sent(client: OAuth2View, reply: HttpReplyView, token: Seq<char>)
    requires
        told(client, token_outcome(client.token_endpoint, reply)) == Ok::<Seq<char>, Seq<char>>(
            token,
        ),
    ensures
        bearer_of(
            AuthView::OAuth2(
                holding(client, told(client, token_outcome(client.token_endpoint, reply))),
            ),
        ) == Some(token),
        token.len() > 0,
{
}

/// The message about a refused token request tells nothing of a body that is not valid, and of
/// another only the two fields of an OAuth2 error.
pub proof fn bodies_are_not_echoed(a: JsonView, b: JsonView, error: Seq<char>)
    requires
        text_or_empty(a, "error"@) == text_or_empty(b, "error"@),
        text_or_empty(a, "error_description"@) == text_or_empty(b, "error_description"@),
    ensures
        error_detail(Ok(a)) == error_detail(Ok(b)),
        error_detail(Err(error)) == Seq::<char>::empty(),
{
}

/// The configuration of a catalog changes neither its address, nor its warehouse, nor what it shows,
/// nor its credentials; a token endpoint that the user set stays.
pub proof fn configuration_keeps_what_the_user_set(catalog: CatalogView, config: JsonView)
    ensures
        ({
            let after = configured(catalog, config);
            &&& after.base == catalog.base
            &&& after.warehouse == catalog.warehouse
            &&& after.table_filter == catalog.table_filter
            &&& bearer_of(after.auth) == bearer_of(catalog.auth)
            &&& match (catalog.auth, after.auth) {
                (AuthView::OAuth2(before), AuthView::OAuth2(now)) => now == (OAuth2View {
                    token_endpoint: now.token_endpoint,
                    ..before
                }) && (before.endpoint_pinned ==> now == before),
                (before, now) => now == before,
            }
        }),
{
}

proof fn lemma_without_slashes(s: Seq<char>)
    ensures
        without_leading(s, '/').len() > 0 ==> without_leading(s, '/')[0] != '/',
    decreases s.len(),
{
    if s.len() > 0 && s[0] == '/' {
        lemma_without_slashes(s.drop_first());
    }
}

/// The prefix that a configuration gives has no slash at either end.
pub proof fn prefixes_have_no_outer_slashes(config: JsonView, prefix: Seq<char>)
    requires
        prefix.len() > 0 ==> prefix[0] != '/' && prefix.last() != '/',
    ensures
        ({
            let after = configured_prefix(config, prefix);
            after.len() > 0 ==> after[0] != '/' && after.last() != '/'
        }),
{
    if let Some(value) = config_text(config, "overrides"@, "prefix"@) {
        lemma_without_slashes(value);
        no_trailing_occurrence_is_left(without_leading(value, '/'), '/');
    }
    if let Some(value) = config_text(config, "defaults"@, "prefix"@) {
        lemma_without_slashes(value);
        no_trailing_occurrence_is_left(without_leading(value, '/'), '/');
    }
}

} // verus!

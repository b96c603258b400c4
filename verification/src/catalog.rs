//! The Iceberg REST catalog that a connection talks to: how a connect request describes it.
//!
//! When a request carries a `catalogUri` option, the connector speaks the Iceberg REST catalog API
//! instead of scanning a single table path. Namespaces surface as schemas and tables as objects.
use crate::json::{Json, JsonView};
use crate::request;
use crate::request::option_of;
use crate::text;
use crate::text::{
    blank, first_at, joined, leading_runs_are_taken_away, lowered, no_trailing_occurrence_is_left,
    optional, pieces, run_of, splitting_undoes_joining, texts, tight, trailing_runs_are_taken_away,
    trimmed, trimming_leaves_tight_texts, trimming_takes_blanks_away, white_space, without_leading,
    without_trailing,
};
use vstd::prelude::*;

verus! {

/// A catalog of the Iceberg REST API.
pub struct RestCatalog {
    /// The address of the catalog, without its version.
    pub base: String,
    /// The path between the version and the resources, without slashes at its ends.
    pub prefix: String,
    /// What stands between the levels of a namespace in a URL.
    pub namespace_separator: String,
    pub auth: Auth,
    pub warehouse: Option<String>,
    /// The one table to show, where the request names it: its namespace and its name.
    pub table_filter: Option<(Vec<String>, String)>,
}

/// How catalog requests are authenticated.
pub enum Auth {
    NoAuth,
    /// A bearer token of the user's, sent as it is. It goes before OAuth2 because it needs no extra
    /// round trip.
    StaticBearer(String),
    /// The OAuth2 client credentials flow: the token is fetched at connect and refreshed once
    /// whenever the catalog answers that a request is not authorized.
    OAuth2(OAuth2Client),
}

/// The client of an OAuth2 token endpoint.
pub struct OAuth2Client {
    pub token_endpoint: String,
    /// Whether the user set the token endpoint, so that the catalog's configuration cannot.
    pub endpoint_pinned: bool,
    pub client_id: Option<String>,
    pub client_secret: String,
    pub scope: String,
    /// The token fetched last.
    pub access_token: Option<String>,
}

/// What a catalog stands for.
#[verifier::ext_equal]
pub struct CatalogView {
    pub base: Seq<char>,
    pub prefix: Seq<char>,
    pub namespace_separator: Seq<char>,
    pub auth: AuthView,
    pub warehouse: Option<Seq<char>>,
    pub table_filter: Option<(Seq<Seq<char>>, Seq<char>)>,
}

/// What an authentication stands for.
#[verifier::ext_equal]
pub enum AuthView {
    NoAuth,
    StaticBearer(Seq<char>),
    OAuth2(OAuth2View),
}

/// What an OAuth2 client stands for.
#[verifier::ext_equal]
pub struct OAuth2View {
    pub token_endpoint: Seq<char>,
    pub endpoint_pinned: bool,
    pub client_id: Option<Seq<char>>,
    pub client_secret: Seq<char>,
    pub scope: Seq<char>,
    pub access_token: Option<Seq<char>>,
}

/// What a qualified table name stands for.
pub open spec fn table_view(table: (Vec<String>, String)) -> (Seq<Seq<char>>, Seq<char>) {
    (texts(table.0@), table.1@)
}

impl View for OAuth2Client {
    type V = OAuth2View;

    open spec fn view(&self) -> OAuth2View {
        OAuth2View {
            token_endpoint: self.token_endpoint@,
            endpoint_pinned: self.endpoint_pinned,
            client_id: optional(self.client_id),
            client_secret: self.client_secret@,
            scope: self.scope@,
            access_token: optional(self.access_token),
        }
    }
}

impl View for Auth {
    type V = AuthView;

    open spec fn view(&self) -> AuthView {
        match self {
            Auth::NoAuth => AuthView::NoAuth,
            Auth::StaticBearer(token) => AuthView::StaticBearer(token@),
            Auth::OAuth2(client) => AuthView::OAuth2(client@),
        }
    }
}

impl View for RestCatalog {
    type V = CatalogView;

    open spec fn view(&self) -> CatalogView {
        CatalogView {
            base: self.base@,
            prefix: self.prefix@,
            namespace_separator: self.namespace_separator@,
            auth: self.auth@,
            warehouse: optional(self.warehouse),
            table_filter: match self.table_filter {
                Some(table) => Some(table_view(table)),
                None => None,
            },
        }
    }
}

/// A text, unless it is empty.
pub open spec fn filled(s: Seq<char>) -> Option<Seq<char>> {
    if s.len() > 0 {
        Some(s)
    } else {
        None
    }
}

/// The first of two options that is there.
pub open spec fn either(a: Option<Seq<char>>, b: Option<Seq<char>>) -> Option<Seq<char>> {
    if a is Some {
        a
    } else {
        b
    }
}

/// The client id and the client secret of a credential: what stands before and after its first
/// colon, or a bare secret where it has none.
pub open spec fn credential_parts(credential: Seq<char>) -> (
    Option<Seq<char>>,
    Option<Seq<char>>,
) {
    let at = first_at(credential, ':') as int;
    if at < credential.len() {
        (filled(trimmed(credential.take(at))), filled(trimmed(credential.skip(at + 1))))
    } else {
        (None, filled(trimmed(credential)))
    }
}

/// Whether an address is one of HTTP.
pub open spec fn http_address(address: Seq<char>) -> bool {
    "http://"@.is_prefix_of(address) || "https://"@.is_prefix_of(address)
}

/// The token endpoint of an address that is absolute or relative to the catalog's.
pub open spec fn endpoint_of(base: Seq<char>, uri: Seq<char>) -> Seq<char> {
    if http_address(trimmed(uri)) {
        without_trailing(trimmed(uri), '/')
    } else {
        base + "/"@ + without_leading(trimmed(uri), '/')
    }
}

/// The address of a catalog without trailing slashes and without a trailing version.
pub open spec fn base_of(uri: Seq<char>) -> Seq<char> {
    let base = without_trailing(trimmed(uri), '/');
    if "/v1"@.is_suffix_of(base) {
        without_trailing(base.take(base.len() - "/v1"@.len()), '/')
    } else {
        base
    }
}

/// The texts of a list without surrounding white space, but for those of which nothing is left.
pub open spec fn filled_parts(list: Seq<Seq<char>>) -> Seq<Seq<char>>
    decreases list.len(),
{
    if list.len() == 0 {
        seq![]
    } else {
        let front = filled_parts(list.drop_last());
        match filled(trimmed(list.last())) {
            Some(part) => front.push(part),
            None => front,
        }
    }
}

/// The namespace and the name of a qualified table, or why it is none.
pub open spec fn table_of(identifier: Seq<char>) -> Result<
    (Seq<Seq<char>>, Seq<char>),
    Seq<char>,
> {
    let levels = filled_parts(pieces(identifier, '.'));
    if levels.len() < 2 {
        Err("tableIdentifier '"@ + identifier + "' must be qualified as namespace.table"@)
    } else {
        Ok((levels.drop_last(), levels.last()))
    }
}

/// What a parsed table identifier stands for.
pub open spec fn table_result(
    result: Result<(Vec<String>, String), String>,
) -> Result<(Seq<Seq<char>>, Seq<char>), Seq<char>> {
    match result {
        Ok(table) => Ok(table_view(table)),
        Err(message) => Err(message@),
    }
}

/// The text, unless it is empty.
fn non_empty(content: String) -> (out: Option<String>)
    ensures
        optional(out) == filled(content@),
{
    if content.as_str().is_empty() {
        None
    } else {
        Some(content)
    }
}

/// The first of two options that is there.
fn first_of(a: Option<String>, b: Option<String>) -> (out: Option<String>)
    ensures
        optional(out) == either(optional(a), optional(b)),
{
    match a {
        Some(value) => Some(value),
        None => b,
    }
}

/// The client id and the client secret of a credential.
pub fn parse_credential(credential: &str) -> (parts: (Option<String>, Option<String>))
    ensures
        optional(parts.0) == credential_parts(credential@).0,
        optional(parts.1) == credential_parts(credential@).1,
{
    match text::split_once(credential, ':') {
        Some((id, secret)) => (
            non_empty(text::trim(id.as_str())),
            non_empty(text::trim(secret.as_str())),
        ),
        None => (None, non_empty(text::trim(credential))),
    }
}

/// Whether an address is one of HTTP.
fn is_http_address(address: &str) -> (found: bool)
    ensures
        found == http_address(address@),
{
    text::starts_with(address, "http://") || text::starts_with(address, "https://")
}

/// The token endpoint of an address that is absolute or relative to the catalog's.
pub fn resolve_token_endpoint(base: &str, uri: &str) -> (endpoint: String)
    ensures
        endpoint@ == endpoint_of(base@, uri@),
{
    let uri = text::trim(uri);
    if is_http_address(uri.as_str()) {
        text::trim_trailing(uri.as_str(), '/')
    } else {
        base.to_string().concat("/").concat(text::trim_leading(uri.as_str(), '/').as_str())
    }
}

/// The address of a catalog without trailing slashes and without a trailing version, so that users
/// can paste either the catalog root or the versioned endpoint.
pub fn normalize_base_uri(uri: &str) -> (base: String)
    ensures
        base@ == base_of(uri@),
{
    let base = text::trim_trailing(text::trim(uri).as_str(), '/');
    match text::strip_suffix(base.as_str(), "/v1") {
        Some(stripped) => text::trim_trailing(stripped.as_str(), '/'),
        None => base,
    }
}

/// The namespace and the name of a qualified table.
pub fn parse_table_identifier(identifier: &str) -> (table: Result<(Vec<String>, String), String>)
    ensures
        table_result(table) == table_of(identifier@),
{
    let parts = text::split(identifier, '.');
    let ghost all = texts(parts@);
    let mut levels: Vec<String> = Vec::new();
    let mut i: usize = 0;
    assert(all.take(0) =~= seq![]);
    assert(texts(levels@) =~= seq![]);
    while i < parts.len()
        invariant
            i <= parts.len(),
            all == texts(parts@),
            texts(levels@) == filled_parts(all.take(i as int)),
        decreases parts.len() - i,
    {
        let ghost before = texts(levels@);
        assert(all.take(i + 1).drop_last() =~= all.take(i as int));
        let level = text::trim(parts[i].as_str());
        if !level.as_str().is_empty() {
            levels.push(level);
            assert(texts(levels@) =~= before.push(level@));
        }
        i += 1;
    }
    assert(all.take(i as int) =~= all);
    let ghost found = texts(levels@);
    if levels.len() < 2 {
        return Err(
            "tableIdentifier '".to_string().concat(identifier).concat(
                "' must be qualified as namespace.table",
            ),
        );
    }
    let last: usize = levels.len() - 1;
    let name = levels.remove(last);
    assert(texts(levels@) =~= found.drop_last());
    Ok((levels, name))
}

/// The message for OAuth2 options without a client secret.
pub open spec fn no_client_secret() -> Seq<char> {
    "OAuth2 catalog authentication is configured but no client secret was found. Set the credential option (clientId:clientSecret), or set oauth2ClientId and put the client secret in the connection password field (which is kept out of saved settings)."@
}

/// The OAuth2 client that a request describes, if it has an OAuth2 option at all. The parts of the
/// credential option go before the separate options, and those before the user and the password of
/// the profile.
pub open spec fn oauth2_of(request: JsonView, base: Seq<char>) -> Result<
    Option<OAuth2View>,
    Seq<char>,
> {
    let credential = option_of(
        request,
        seq!["credential"@, "oauth2Credential"@, "catalogCredential"@],
    );
    let id_option = option_of(request, seq!["oauth2ClientId"@, "clientId"@]);
    let secret_option = option_of(request, seq!["oauth2ClientSecret"@, "clientSecret"@]);
    let server_uri = option_of(request, seq!["oauth2ServerUri"@, "oauthServerUri"@]);
    let parts = match credential {
        Some(value) => credential_parts(value),
        None => (None, None),
    };
    let client_id = either(either(parts.0, id_option), option_of(request, seq!["user"@]));
    let client_secret = either(
        either(parts.1, secret_option),
        option_of(request, seq!["password"@]),
    );
    if credential is None && id_option is None && secret_option is None && server_uri is None {
        Ok(None)
    } else {
        match client_secret {
            None => Err(no_client_secret()),
            Some(secret) => Ok(
                Some(
                    OAuth2View {
                        token_endpoint: match server_uri {
                            Some(uri) => endpoint_of(base, uri),
                            None => base + "/v1/oauth/tokens"@,
                        },
                        endpoint_pinned: server_uri is Some,
                        client_id,
                        client_secret: secret,
                        scope: match option_of(request, seq!["scope"@, "oauth2Scope"@]) {
                            Some(scope) => scope,
                            None => "catalog"@,
                        },
                        access_token: None,
                    },
                ),
            ),
        }
    }
}

/// What a result of reading OAuth2 options stands for.
pub open spec fn oauth2_result(
    result: Result<Option<OAuth2Client>, String>,
) -> Result<Option<OAuth2View>, Seq<char>> {
    match result {
        Ok(Some(client)) => Ok(Some(client@)),
        Ok(None) => Ok(None),
        Err(message) => Err(message@),
    }
}

/// The OAuth2 client that a request describes, if it has an OAuth2 option at all.
pub fn oauth2_from_request(request: &Json, base: &str) -> (result: Result<
    Option<OAuth2Client>,
    String,
>)
    ensures
        oauth2_result(result) == oauth2_of(request@, base@),
{
    let credential = request::option3(
        request,
        "credential",
        "oauth2Credential",
        "catalogCredential",
    );
    let client_id_option = request::option2(request, "oauth2ClientId", "clientId");
    let client_secret_option = request::option2(request, "oauth2ClientSecret", "clientSecret");
    let server_uri = request::option2(request, "oauth2ServerUri", "oauthServerUri");
    if credential.is_none() && client_id_option.is_none() && client_secret_option.is_none()
        && server_uri.is_none() {
        return Ok(None);
    }
    let (credential_id, credential_secret) = match &credential {
        Some(value) => parse_credential(value.as_str()),
        None => (None, None),
    };
    let client_id = first_of(
        first_of(credential_id, client_id_option),
        request::option1(request, "user"),
    );
    let client_secret = match first_of(
        first_of(credential_secret, client_secret_option),
        request::option1(request, "password"),
    ) {
        Some(secret) => secret,
        None => {
            return Err(
                "OAuth2 catalog authentication is configured but no client secret was found. Set the credential option (clientId:clientSecret), or set oauth2ClientId and put the client secret in the connection password field (which is kept out of saved settings).".to_string(),
            );
        },
    };
    let (token_endpoint, endpoint_pinned) = match &server_uri {
        Some(uri) => (resolve_token_endpoint(base, uri.as_str()), true),
        None => (base.to_string().concat("/v1/oauth/tokens"), false),
    };
    let scope = match request::option2(request, "scope", "oauth2Scope") {
        Some(scope) => scope,
        None => "catalog".to_string(),
    };
    Ok(
        Some(
            OAuth2Client {
                token_endpoint,
                endpoint_pinned,
                client_id,
                client_secret,
                scope,
                access_token: None,
            },
        ),
    )
}

/// The message for a catalog of a type that is not served.
pub open spec fn unsupported_type(catalog_type: Seq<char>) -> Seq<char> {
    "catalogType '"@ + catalog_type
        + "' is not supported yet; only 'rest' catalogs are implemented. Clear catalogUri to scan a single table path instead."@
}

/// The message for a catalog address that is none of HTTP.
pub open spec fn no_http_address(uri: Seq<char>) -> Seq<char> {
    "catalogUri must be an http(s) URL, got '"@ + uri
        + "'. For a direct table path, use the table path field instead."@
}

/// The authentication that a request describes.
pub open spec fn auth_of(request: JsonView, base: Seq<char>) -> Result<AuthView, Seq<char>> {
    match option_of(
        request,
        seq!["catalogToken"@, "catalogBearerToken"@, "bearerToken"@, "token"@],
    ) {
        Some(token) => Ok(AuthView::StaticBearer(token)),
        None => match oauth2_of(request, base) {
            Ok(Some(client)) => Ok(AuthView::OAuth2(client)),
            Ok(None) => Ok(AuthView::NoAuth),
            Err(message) => Err(message),
        },
    }
}

/// The one table that a request names, if it names one.
pub open spec fn filter_of(request: JsonView) -> Result<
    Option<(Seq<Seq<char>>, Seq<char>)>,
    Seq<char>,
> {
    match option_of(request, seq!["tableIdentifier"@]) {
        Some(identifier) => match table_of(identifier) {
            Ok(table) => Ok(Some(table)),
            Err(message) => Err(message),
        },
        None => Ok(None),
    }
}

/// The type of catalog that a request asks for.
pub open spec fn type_of(request: JsonView) -> Seq<char> {
    match option_of(request, seq!["catalogType"@]) {
        Some(catalog_type) => lowered(catalog_type),
        None => lowered("rest"@),
    }
}

/// The catalog that a request describes, before it is contacted; nothing where the request has no
/// address of a catalog.
pub open spec fn catalog_of(request: JsonView) -> Result<Option<CatalogView>, Seq<char>> {
    match option_of(request, seq!["catalogUri"@, "catalogUrl"@, "catalogEndpoint"@]) {
        None => Ok(None),
        Some(uri) => if type_of(request) != "rest"@ {
            Err(unsupported_type(type_of(request)))
        } else if !http_address(base_of(uri)) {
            Err(no_http_address(uri))
        } else {
            match (auth_of(request, base_of(uri)), filter_of(request)) {
                (Err(message), _) => Err(message),
                (_, Err(message)) => Err(message),
                (Ok(auth), Ok(table_filter)) => Ok(
                    Some(
                        CatalogView {
                            base: base_of(uri),
                            prefix: seq![],
                            namespace_separator: "%1F"@,
                            auth,
                            warehouse: option_of(request, seq!["warehouse"@, "warehousePath"@]),
                            table_filter,
                        },
                    ),
                ),
            }
        },
    }
}

/// What a result of reading catalog options stands for.
pub open spec fn catalog_result(
    result: Result<Option<RestCatalog>, String>,
) -> Result<Option<CatalogView>, Seq<char>> {
    match result {
        Ok(Some(catalog)) => Ok(Some(catalog@)),
        Ok(None) => Ok(None),
        Err(message) => Err(message@),
    }
}

/// The authentication that a request describes.
fn auth_from_request(request: &Json, base: &str) -> (result: Result<Auth, String>)
    ensures
        match result {
            Ok(auth) => auth_of(request@, base@) == Ok::<AuthView, Seq<char>>(auth@),
            Err(message) => auth_of(request@, base@) == Err::<AuthView, Seq<char>>(message@),
        },
{
    match request::option4(
        request,
        "catalogToken",
        "catalogBearerToken",
        "bearerToken",
        "token",
    ) {
        Some(token) => Ok(Auth::StaticBearer(token)),
        None => match oauth2_from_request(request, base) {
            Ok(Some(client)) => Ok(Auth::OAuth2(client)),
            Ok(None) => Ok(Auth::NoAuth),
            Err(message) => Err(message),
        },
    }
}

/// The catalog that a request describes, before it is contacted. Without an address of a catalog the
/// connector keeps to a single table path.
pub fn from_request(request: &Json) -> (result: Result<Option<RestCatalog>, String>)
    ensures
        catalog_result(result) == catalog_of(request@),
{
    let raw_uri = match request::option3(request, "catalogUri", "catalogUrl", "catalogEndpoint") {
        Some(uri) => uri,
        None => {
            return Ok(None);
        },
    };
    let catalog_type = match request::option1(request, "catalogType") {
        Some(catalog_type) => text::lower(catalog_type.as_str()),
        None => text::lower("rest"),
    };
    if !text::same(catalog_type.as_str(), "rest") {
        return Err(
            "catalogType '".to_string().concat(catalog_type.as_str()).concat(
                "' is not supported yet; only 'rest' catalogs are implemented. Clear catalogUri to scan a single table path instead.",
            ),
        );
    }
    let base = normalize_base_uri(raw_uri.as_str());
    if !is_http_address(base.as_str()) {
        return Err(
            "catalogUri must be an http(s) URL, got '".to_string().concat(raw_uri.as_str()).concat(
                "'. For a direct table path, use the table path field instead.",
            ),
        );
    }
    let auth = match auth_from_request(request, base.as_str()) {
        Ok(auth) => auth,
        Err(message) => {
            return Err(message);
        },
    };
    let warehouse = request::option2(request, "warehouse", "warehousePath");
    let table_filter = match request::option1(request, "tableIdentifier") {
        Some(identifier) => match parse_table_identifier(identifier.as_str()) {
            Ok(table) => Some(table),
            Err(message) => {
                return Err(message);
            },
        },
        None => None,
    };
    Ok(
        Some(
            RestCatalog {
                base,
                prefix: String::new(),
                namespace_separator: "%1F".to_string(),
                auth,
                warehouse,
                table_filter,
            },
        ),
    )
}

/// The root of a catalog and its versioned endpoint give the same address, whatever slashes stand
/// before and after the version, and whatever white space around it all. A root that itself ends in a
/// version is told apart from its own endpoint.
pub proof fn root_and_endpoint_agree(
    before: Seq<char>,
    root: Seq<char>,
    slashes: Seq<char>,
    more_slashes: Seq<char>,
    after: Seq<char>,
)
    requires
        blank(before),
        root.len() > 0 ==> !white_space(root[0]) && root.last() != '/',
        run_of(slashes, '/'),
        run_of(more_slashes, '/'),
        blank(after),
    ensures
        base_of(before + root + slashes + "/v1"@ + more_slashes + after) == root,
        tight(root + slashes) && !"/v1"@.is_suffix_of(root) ==> base_of(
            before + root + slashes + after,
        ) == root,
{
    reveal_strlit("/v1");
    let version = "/v1"@;
    let stem = root + slashes;
    let endpoint = stem + version;
    let address = endpoint + more_slashes;
    assert(tight(address)) by {
        assert(address[0] == if root.len() > 0 {
            root[0]
        } else {
            '/'
        }) by {
            if root.len() == 0 && slashes.len() > 0 {
                assert(address[0] == slashes[0]);
            }
        }
        assert(address.last() == if more_slashes.len() > 0 {
            '/'
        } else {
            '1'
        }) by {
            if more_slashes.len() > 0 {
                assert(address.last() == more_slashes[more_slashes.len() - 1]);
            }
        }
    }
    assert(before + root + slashes + version + more_slashes + after =~= before + address + after);
    trimming_takes_blanks_away(before, address, after);
    trailing_runs_are_taken_away(endpoint, '/', more_slashes);
    assert(endpoint.last() == '1');
    assert(version.is_suffix_of(endpoint)) by {
        assert(endpoint.subrange(stem.len() as int, endpoint.len() as int) =~= version);
    }
    assert(endpoint.take(stem.len() as int) =~= stem);
    trailing_runs_are_taken_away(root, '/', slashes);
    if tight(stem) && !version.is_suffix_of(root) {
        assert(before + root + slashes + after =~= before + stem + after);
        trimming_takes_blanks_away(before, stem, after);
    }
}

/// The address of a catalog never ends in a slash.
pub proof fn addresses_end_in_no_slash(uri: Seq<char>)
    ensures
        base_of(uri).len() > 0 ==> base_of(uri).last() != '/',
{
    let base = without_trailing(trimmed(uri), '/');
    no_trailing_occurrence_is_left(trimmed(uri), '/');
    no_trailing_occurrence_is_left(base.take(base.len() - "/v1"@.len()), '/');
}

proof fn lemma_blank_holds_no_mark(blanks: Seq<char>, mark: char)
    requires
        blank(blanks),
        !white_space(mark),
    ensures
        !blanks.contains(mark),
{
    if blanks.contains(mark) {
        let i = choose|i: int| 0 <= i < blanks.len() && blanks[i] == mark;
        assert(white_space(blanks[i]));
    }
}

proof fn lemma_padded_holds_no_mark(
    before: Seq<char>,
    s: Seq<char>,
    after: Seq<char>,
    mark: char,
)
    requires
        blank(before),
        !s.contains(mark),
        blank(after),
        !white_space(mark),
    ensures
        !(before + s + after).contains(mark),
{
    lemma_blank_holds_no_mark(before, mark);
    lemma_blank_holds_no_mark(after, mark);
    let whole = before + s + after;
    if whole.contains(mark) {
        let i = choose|i: int| 0 <= i < whole.len() && whole[i] == mark;
        if i < before.len() {
            assert(before[i] == mark);
        } else if i < before.len() + s.len() {
            assert(s[i - before.len()] == mark);
        } else {
            assert(after[i - before.len() - s.len()] == mark);
        }
    }
}

/// A credential is read back as the client id and the client secret that it is made of, whatever white
/// space stands around each; a part that is blank is none. Colons after the first belong to the
/// secret.
pub proof fn credentials_are_read_back(
    before_id: Seq<char>,
    id: Seq<char>,
    after_id: Seq<char>,
    before_secret: Seq<char>,
    secret: Seq<char>,
    after_secret: Seq<char>,
)
    requires
        blank(before_id),
        tight(id),
        !id.contains(':'),
        blank(after_id),
        blank(before_secret),
        tight(secret),
        blank(after_secret),
    ensures
        credential_parts(
            before_id + id + after_id + ":"@ + (before_secret + secret + after_secret),
        ) == (filled(id), filled(secret)),
        !secret.contains(':') ==> credential_parts(before_secret + secret + after_secret) == (
            None::<Seq<char>>,
            filled(secret),
        ),
{
    reveal_strlit(":");
    assert(":"@ =~= seq![':']);
    let first = before_id + id + after_id;
    let second = before_secret + secret + after_secret;
    let whole = first + ":"@ + second;
    lemma_padded_holds_no_mark(before_id, id, after_id, ':');
    text::lemma_first_between(first, ':', second);
    assert(whole.take(first.len() as int) =~= first);
    assert(whole.skip(first.len() as int + 1) =~= second);
    trimming_takes_blanks_away(before_id, id, after_id);
    trimming_takes_blanks_away(before_secret, secret, after_secret);
    if !secret.contains(':') {
        lemma_padded_holds_no_mark(before_secret, secret, after_secret, ':');
        text::lemma_first_between(second, ':', seq![]);
    }
}

proof fn lemma_filled_parts(written: Seq<Seq<char>>, parts: Seq<Seq<char>>)
    requires
        written.len() == parts.len(),
        forall|i: int|
            0 <= i < parts.len() ==> (#[trigger] parts[i]).len() > 0 && trimmed(written[i])
                == parts[i],
    ensures
        filled_parts(written) == parts,
    decreases written.len(),
{
    if written.len() > 0 {
        let front = written.drop_last();
        let kept = parts.drop_last();
        assert forall|i: int| 0 <= i < kept.len() implies (#[trigger] kept[i]).len() > 0 && trimmed(
            front[i],
        ) == kept[i] by {
            assert(kept[i] == parts[i] && front[i] == written[i]);
        }
        lemma_filled_parts(front, kept);
        assert(parts[parts.len() - 1].len() > 0);
        assert(kept.push(parts.last()) =~= parts);
    } else {
        assert(filled_parts(written) =~= parts);
    }
}

/// A table identifier is read back as the levels of the namespace and the name that it is made of,
/// whatever white space stands around each as it is written.
pub proof fn table_identifiers_are_read_back(
    levels: Seq<Seq<char>>,
    name: Seq<char>,
    written: Seq<Seq<char>>,
)
    requires
        levels.len() > 0,
        written.len() == levels.len() + 1,
        forall|i: int|
            0 <= i < levels.len() ==> (#[trigger] levels[i]).len() > 0 && trimmed(written[i])
                == levels[i],
        name.len() > 0,
        trimmed(written.last()) == name,
        forall|i: int| 0 <= i < written.len() ==> !(#[trigger] written[i]).contains('.'),
    ensures
        table_of(joined(written, "."@)) == Ok::<_, Seq<char>>((levels, name)),
{
    reveal_strlit(".");
    assert("."@ =~= seq!['.']);
    let parts = levels.push(name);
    assert forall|i: int| 0 <= i < parts.len() implies (#[trigger] parts[i]).len() > 0 && trimmed(
        written[i],
    ) == parts[i] by {
        if i < levels.len() {
            assert(parts[i] == levels[i]);
        }
    }
    splitting_undoes_joining(written, "."@, '.');
    lemma_filled_parts(written, parts);
    assert(parts.drop_last() =~= levels);
}

/// An absolute address of a token endpoint does not depend on the catalog's; white space around it and
/// slashes at its end make no difference.
pub proof fn absolute_endpoints_stand_alone(
    base: Seq<char>,
    before: Seq<char>,
    uri: Seq<char>,
    slashes: Seq<char>,
    after: Seq<char>,
)
    requires
        blank(before),
        tight(uri),
        http_address(uri),
        uri.last() != '/',
        run_of(slashes, '/'),
        blank(after),
    ensures
        endpoint_of(base, before + uri + slashes + after) == uri,
{
    reveal_strlit("http://");
    reveal_strlit("https://");
    let address = uri + slashes;
    assert(address[0] == uri[0]);
    if slashes.len() > 0 {
        assert(address.last() == slashes[slashes.len() - 1]);
    } else {
        assert(address =~= uri);
    }
    assert(before + uri + slashes + after =~= before + address + after);
    trimming_takes_blanks_away(before, address, after);
    assert(http_address(address)) by {
        if "http://"@.is_prefix_of(uri) {
            assert(address.subrange(0, "http://"@.len() as int) =~= "http://"@) by {
                assert(uri.subrange(0, "http://"@.len() as int) =~= "http://"@);
                assert(address.subrange(0, "http://"@.len() as int) =~= uri.subrange(
                    0,
                    "http://"@.len() as int,
                ));
            }
        } else {
            assert(address.subrange(0, "https://"@.len() as int) =~= "https://"@) by {
                assert(uri.subrange(0, "https://"@.len() as int) =~= "https://"@);
                assert(address.subrange(0, "https://"@.len() as int) =~= uri.subrange(
                    0,
                    "https://"@.len() as int,
                ));
            }
        }
    }
    trailing_runs_are_taken_away(uri, '/', slashes);
}

/// White space around a relative address of a token endpoint and slashes at its beginning make no
/// difference.
pub proof fn leading_slashes_make_no_difference(
    base: Seq<char>,
    before: Seq<char>,
    slashes: Seq<char>,
    uri: Seq<char>,
    after: Seq<char>,
)
    requires
        blank(before),
        run_of(slashes, '/'),
        tight(uri),
        !http_address(uri),
        blank(after),
    ensures
        endpoint_of(base, before + slashes + uri + after) == endpoint_of(base, uri),
{
    reveal_strlit("http://");
    reveal_strlit("https://");
    let address = slashes + uri;
    if slashes.len() > 0 {
        assert(address[0] == slashes[0]);
        if uri.len() > 0 {
            assert(address.last() == uri.last());
        } else {
            assert(address.last() == slashes[slashes.len() - 1]);
        }
        assert(!"http://"@.is_prefix_of(address)) by {
            if "http://"@.is_prefix_of(address) {
                assert(address.subrange(0, "http://"@.len() as int)[0] == address[0]);
            }
        }
        assert(!"https://"@.is_prefix_of(address)) by {
            if "https://"@.is_prefix_of(address) {
                assert(address.subrange(0, "https://"@.len() as int)[0] == address[0]);
            }
        }
    } else {
        assert(address =~= uri);
    }
    assert(before + slashes + uri + after =~= before + address + after);
    trimming_takes_blanks_away(before, address, after);
    trimming_leaves_tight_texts(uri);
    leading_runs_are_taken_away(slashes, '/', uri);
}

/// A request describes no catalog exactly when it has no address of one.
pub proof fn only_an_address_makes_a_catalog(request: JsonView)
    ensures
        catalog_of(request) == Ok::<Option<CatalogView>, Seq<char>>(None) <==> option_of(
            request,
            seq!["catalogUri"@, "catalogUrl"@, "catalogEndpoint"@],
        ) is None,
{
}

/// A catalog is one of the REST API, and has an address of HTTP that does not end in a slash.
pub proof fn catalogs_have_http_addresses(request: JsonView)
    ensures
        catalog_of(request) matches Ok(Some(catalog)) ==> type_of(request) == "rest"@
            && http_address(catalog.base) && catalog.base.last() != '/',
{
    if let Some(uri) = option_of(request, seq!["catalogUri"@, "catalogUrl"@, "catalogEndpoint"@]) {
        reveal_strlit("http://");
        reveal_strlit("https://");
        addresses_end_in_no_slash(uri);
    }
}

/// A bearer token of the user's goes before OAuth2, whatever OAuth2 options there are.
pub proof fn bearer_tokens_go_before_oauth2(request: JsonView, token: Seq<char>)
    requires
        option_of(
            request,
            seq!["catalogToken"@, "catalogBearerToken"@, "bearerToken"@, "token"@],
        ) == Some(token),
    ensures
        catalog_of(request) matches Ok(Some(catalog)) ==> catalog.auth == AuthView::StaticBearer(
            token,
        ),
{
}

} // verus!

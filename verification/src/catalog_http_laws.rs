//! What the exchange with a catalog promises, stated on what is sent and what comes back.
use crate::catalog::{endpoint_of, AuthView, CatalogView, OAuth2View};
use crate::catalog_http::{
    bearer_of, body_outcome, config_address, configured, error_detail, get_step, holding,
    reply_outcome, scrubbed, token_fields, token_in, token_outcome, told, without_slashes,
    GetActionView, GetEventView, HttpFailureView, HttpReplyView,
};
use crate::json::{member, JsonView};
use crate::json_text::parsed;
use crate::redaction::{masked, masked_all};
use crate::text::{
    decimal_of, leading_runs_are_taken_away, run_of, trailing_runs_are_taken_away, without_leading,
};
use crate::text_laws::{
    other_texts_are_not_replaced, stands_at, the_first_occurrence_is_replaced,
};
use crate::url::encoded;
use vstd::prelude::*;

verus! {

/// Each occurrence of a secret gives way to four asterisks, from the first on, and all else of the
/// message stays; nothing is masked for an empty secret.
pub proof fn occurrences_are_masked(before: Seq<char>, secret: Seq<char>, after: Seq<char>)
    ensures
        secret.len() > 0 && (forall|i: int|
            0 <= i < before.len() ==> !stands_at(secret, before + secret + after, i)) ==> masked(
            before + secret + after,
            secret,
        ) == before + seq!['*', '*', '*', '*'] + masked(after, secret),
        masked(before, seq![]) == before,
{
    reveal_strlit("****");
    assert("****"@ =~= seq!['*', '*', '*', '*']);
    if secret.len() > 0 && (forall|i: int|
        0 <= i < before.len() ==> !stands_at(secret, before + secret + after, i)) {
        the_first_occurrence_is_replaced(before, secret, after, "****"@);
    }
}

/// A message in which a secret does not occur is not changed for it.
pub proof fn other_messages_are_not_masked(message: Seq<char>, secret: Seq<char>)
    requires
        forall|i: int| !stands_at(secret, message, i),
    ensures
        masked(message, secret) == message,
{
    other_texts_are_not_replaced(message, secret, "****"@);
}

/// Several secrets are masked one after the other.
pub proof fn secrets_are_masked_in_order(
    message: Seq<char>,
    secrets: Seq<Seq<char>>,
    last: Seq<char>,
)
    ensures
        masked_all(message, seq![]) == message,
        masked_all(message, secrets.push(last)) == masked(masked_all(message, secrets), last),
{
    assert(secrets.push(last).drop_last() =~= secrets);
}

/// Requests are sent with the bearer token that was set, or with the token that was fetched last; a
/// message is scrubbed of that token, and before it of the client secret.
pub proof fn tokens_are_sent_and_scrubbed(
    token: Seq<char>,
    client: OAuth2View,
    message: Seq<char>,
)
    ensures
        bearer_of(AuthView::NoAuth) is None,
        bearer_of(AuthView::StaticBearer(token)) == Some(token),
        bearer_of(AuthView::OAuth2(client)) == client.access_token,
        scrubbed(AuthView::NoAuth, message) == message,
        scrubbed(AuthView::StaticBearer(token), message) == masked(message, token),
        client.access_token is None ==> scrubbed(AuthView::OAuth2(client), message) == masked(
            message,
            client.client_secret,
        ),
        client.access_token == Some(token) ==> scrubbed(AuthView::OAuth2(client), message)
            == masked_all(message, seq![client.client_secret, token]),
{
    reveal_with_fuel(masked_all, 3);
    let both = seq![client.client_secret, token];
    assert(both.drop_last() =~= seq![client.client_secret]);
    assert(both.drop_last().drop_last() =~= seq![]);
}

/// What a reply says: a body is read as JSON, and whatever else came is a failure. One with the status
/// 401 is told apart as not authorized, and it alone; of the body of a refusal three hundred characters
/// are quoted at most.
pub proof fn replies_are_told_apart(
    url: Seq<char>,
    body: Seq<char>,
    error: Seq<char>,
    code: u16,
    json: JsonView,
)
    ensures
        parsed(body) == Ok::<JsonView, Seq<char>>(json) ==> reply_outcome(
            url,
            HttpReplyView::Body(body),
        ) == Ok::<JsonView, HttpFailureView>(json),
        parsed(body) == Err::<JsonView, Seq<char>>(error) ==> reply_outcome(
            url,
            HttpReplyView::Body(body),
        ) == Err::<JsonView, HttpFailureView>(
            HttpFailureView::Other("GET "@ + url + " returned invalid JSON: "@ + error),
        ),
        body_outcome(url, Ok(json)) == Ok::<JsonView, HttpFailureView>(json),
        body_outcome(url, Err(error)) == Err::<JsonView, HttpFailureView>(
            HttpFailureView::Other("GET "@ + url + " returned invalid JSON: "@ + error),
        ),
        reply_outcome(url, HttpReplyView::Unreadable(error)) == Err::<JsonView, HttpFailureView>(
            HttpFailureView::Other("GET "@ + url + " failed while reading the response: "@ + error),
        ),
        reply_outcome(url, HttpReplyView::Failed(error)) == Err::<JsonView, HttpFailureView>(
            HttpFailureView::Other("GET "@ + url + " failed: "@ + error),
        ),
        ({
            let quoted_part = if body.len() > 300 {
                body.take(300)
            } else {
                body
            };
            let message = "GET "@ + url + " returned HTTP "@ + decimal_of(code as nat) + ": "@
                + quoted_part;
            reply_outcome(url, HttpReplyView::Status(code, body)) == Err::<
                JsonView,
                HttpFailureView,
            >(
                if code == 401 {
                    HttpFailureView::Unauthorized(message)
                } else {
                    HttpFailureView::Other(message)
                },
            )
        }),
{
}

/// An answer is handed on as it came, at the first try and at the second; a failure is told without the
/// credentials; and a first refusal is told too where there is no OAuth2 to mend it.
pub proof fn answers_are_handed_on(auth: AuthView, json: JsonView, message: Seq<char>)
    ensures
        get_step(auth, GetEventView::First(Ok(json))) == GetActionView::Done(Ok(json)),
        get_step(auth, GetEventView::Second(Ok(json))) == GetActionView::Done(Ok(json)),
        get_step(auth, GetEventView::First(Err(HttpFailureView::Other(message))))
            == GetActionView::Done(Err(scrubbed(auth, message))),
        get_step(auth, GetEventView::Second(Err(HttpFailureView::Other(message))))
            == GetActionView::Done(Err(scrubbed(auth, message))),
        !(auth is OAuth2) ==> get_step(
            auth,
            GetEventView::First(Err(HttpFailureView::Unauthorized(message))),
        ) == GetActionView::Done(Err(scrubbed(auth, message))),
        auth is OAuth2 ==> get_step(
            auth,
            GetEventView::First(Err(HttpFailureView::Unauthorized(message))),
        ) is Refresh,
        get_step(auth, GetEventView::Refreshed(Ok(message))) is Resend,
        get_step(auth, GetEventView::Refreshed(Err(message))) == GetActionView::Done(
            Err("catalog rejected the OAuth2 token and refreshing it failed: "@ + message),
        ),
        get_step(auth, GetEventView::Second(Err(HttpFailureView::Unauthorized(message))))
            == GetActionView::Done(
            Err(
                "catalog still rejects requests after refreshing the OAuth2 token ("@ + scrubbed(
                    auth,
                    message,
                ) + "). Check that the credential grants access to this catalog."@,
            ),
        ),
{
}

/// The configuration of a catalog is asked for under its address, with its encoded warehouse where it
/// has one, and whatever its prefix.
pub proof fn configurations_have_addresses(catalog: CatalogView, warehouse: Seq<char>)
    ensures
        catalog.warehouse is None ==> config_address(catalog) == catalog.base + "/v1/config"@,
        catalog.warehouse == Some(warehouse) ==> config_address(catalog) == catalog.base
            + "/v1/config"@ + "?warehouse="@ + encoded(warehouse),
{
}

/// Whether a configuration holds a text under a name in a section.
pub open spec fn sets(
    config: JsonView,
    section: Seq<char>,
    name: Seq<char>,
    value: Seq<char>,
) -> bool {
    member(config, section) matches Some(settings) && member(settings, name) == Some(
        JsonView::Text(value),
    )
}

/// Whether a configuration holds no text under a name in a section.
pub open spec fn sets_nothing(config: JsonView, section: Seq<char>, name: Seq<char>) -> bool {
    forall|value: Seq<char>| !#[trigger] sets(config, section, name, value)
}

proof fn lemma_set(config: JsonView, section: Seq<char>, name: Seq<char>, value: Seq<char>)
    ensures
        sets(config, section, name, value) ==> crate::catalog_http::config_text(
            config,
            section,
            name,
        ) == Some(value),
        sets_nothing(config, section, name) ==> crate::catalog_http::config_text(
            config,
            section,
            name,
        ) is None,
{
    if let Some(found) = crate::catalog_http::config_text(config, section, name) {
        assert(sets(config, section, name, found));
    }
}

/// The separator between the levels of a namespace is the one that the catalog sets: its override, or
/// its default where there is no override or an empty one; and it stays where the catalog sets neither.
pub proof fn separators_are_configured(
    catalog: CatalogView,
    config: JsonView,
    value: Seq<char>,
    other: Seq<char>,
)
    ensures
        value.len() > 0 && sets(config, "overrides"@, "namespace-separator"@, value) ==> configured(
            catalog,
            config,
        ).namespace_separator == value,
        (sets_nothing(config, "overrides"@, "namespace-separator"@) || sets(
            config,
            "overrides"@,
            "namespace-separator"@,
            seq![],
        )) && sets(config, "defaults"@, "namespace-separator"@, other) ==> configured(
            catalog,
            config,
        ).namespace_separator == if other.len() > 0 {
            other
        } else {
            catalog.namespace_separator
        },
        (sets_nothing(config, "overrides"@, "namespace-separator"@) || sets(
            config,
            "overrides"@,
            "namespace-separator"@,
            seq![],
        )) && sets_nothing(config, "defaults"@, "namespace-separator"@) ==> configured(
            catalog,
            config,
        ).namespace_separator == catalog.namespace_separator,
{
    lemma_set(config, "overrides"@, "namespace-separator"@, value);
    lemma_set(config, "overrides"@, "namespace-separator"@, seq![]);
    lemma_set(config, "defaults"@, "namespace-separator"@, other);
}

/// A client whose token endpoint the user did not set takes the one that the catalog sets, resolved
/// against the address of the catalog: the override, or the default where there is no override or an
/// empty one. One that the user set stays, and so does one that the catalog says nothing of.
pub proof fn endpoints_are_configured(
    catalog: CatalogView,
    config: JsonView,
    client: OAuth2View,
    value: Seq<char>,
    other: Seq<char>,
)
    requires
        catalog.auth == AuthView::OAuth2(client),
    ensures
        ({
            let none_over = sets_nothing(config, "overrides"@, "oauth2-server-uri"@) || sets(
                config,
                "overrides"@,
                "oauth2-server-uri"@,
                seq![],
            );
            let over = value.len() > 0 && sets(
                config,
                "overrides"@,
                "oauth2-server-uri"@,
                value,
            );
            let default = other.len() > 0 && sets(
                config,
                "defaults"@,
                "oauth2-server-uri"@,
                other,
            );
            let none = none_over && (sets_nothing(config, "defaults"@, "oauth2-server-uri"@) || sets(
                config,
                "defaults"@,
                "oauth2-server-uri"@,
                seq![],
            ));
            let after = configured(catalog, config).auth;
            &&& client.endpoint_pinned || none ==> after == AuthView::OAuth2(client)
            &&& !client.endpoint_pinned && over ==> after == AuthView::OAuth2(
                (OAuth2View { token_endpoint: endpoint_of(catalog.base, value), ..client }),
            )
            &&& !client.endpoint_pinned && none_over && default ==> after == AuthView::OAuth2(
                (OAuth2View { token_endpoint: endpoint_of(catalog.base, other), ..client }),
            )
        }),
{
    lemma_set(config, "overrides"@, "oauth2-server-uri"@, value);
    lemma_set(config, "overrides"@, "oauth2-server-uri"@, seq![]);
    lemma_set(config, "defaults"@, "oauth2-server-uri"@, other);
    lemma_set(config, "defaults"@, "oauth2-server-uri"@, seq![]);
}

/// Slashes at either end of a prefix are taken away, and nothing else of it.
pub proof fn outer_slashes_are_taken_away(before: Seq<char>, prefix: Seq<char>, after: Seq<char>)
    requires
        run_of(before, '/'),
        run_of(after, '/'),
        prefix.len() > 0 ==> prefix[0] != '/' && prefix.last() != '/',
    ensures
        without_slashes(before + prefix + after) == prefix,
{
    if prefix.len() == 0 {
        let run = before + prefix + after;
        assert forall|i: int| 0 <= i < run.len() implies #[trigger] run[i] == '/' by {
            if i < before.len() {
                assert(before[i] == '/');
            } else {
                assert(after[i - before.len()] == '/');
            }
        }
        leading_runs_are_taken_away(run, '/', seq![]);
        assert(run + Seq::<char>::empty() =~= run);
        assert(without_leading(run, '/') =~= prefix);
    } else {
        assert(before + (prefix + after) =~= before + prefix + after);
        leading_runs_are_taken_away(before, '/', prefix + after);
        trailing_runs_are_taken_away(prefix, '/', after);
    }
}

/// The prefix of a catalog is the one that the catalog sets, without slashes at its ends: its override,
/// or its default where there is no override or nothing is left of it; and it stays where the catalog
/// sets neither.
pub proof fn prefixes_are_configured(
    catalog: CatalogView,
    config: JsonView,
    value: Seq<char>,
    other: Seq<char>,
)
    ensures
        ({
            let after = configured(catalog, config).prefix;
            &&& sets(config, "overrides"@, "prefix"@, value) && without_slashes(value).len() > 0
                ==> after == without_slashes(value)
            &&& (sets_nothing(config, "overrides"@, "prefix"@) || (sets(
                config,
                "overrides"@,
                "prefix"@,
                value,
            ) && without_slashes(value).len() == 0)) && sets(config, "defaults"@, "prefix"@, other)
                ==> after == without_slashes(other)
            &&& sets(config, "overrides"@, "prefix"@, value) && without_slashes(value).len() == 0
                && sets_nothing(config, "defaults"@, "prefix"@) ==> after.len() == 0
            &&& sets_nothing(config, "overrides"@, "prefix"@) && sets_nothing(
                config,
                "defaults"@,
                "prefix"@,
            ) ==> after == catalog.prefix
        }),
{
    lemma_set(config, "overrides"@, "prefix"@, value);
    lemma_set(config, "defaults"@, "prefix"@, other);
}

/// The form of a token request names the grant, the scope, the secret and, where there is one, the id of
/// the client, in this order and with nothing else.
pub proof fn token_requests_name_the_client(client: OAuth2View, id: Seq<char>)
    ensures
        client.client_id is None ==> token_fields(client) == seq![
            ("grant_type"@, "client_credentials"@),
            ("scope"@, client.scope),
            ("client_secret"@, client.client_secret),
        ],
        client.client_id == Some(id) ==> token_fields(client) == seq![
            ("grant_type"@, "client_credentials"@),
            ("scope"@, client.scope),
            ("client_secret"@, client.client_secret),
            ("client_id"@, id),
        ],
{
    if client.client_id == Some(id) {
        assert(token_fields(client) =~= seq![
            ("grant_type"@, "client_credentials"@),
            ("scope"@, client.scope),
            ("client_secret"@, client.client_secret),
            ("client_id"@, id),
        ]);
    }
}

/// The text that a value holds under a name, or the empty text.
pub open spec fn text_at(value: JsonView, name: Seq<char>) -> Seq<char> {
    match member(value, name) {
        Some(JsonView::Text(content)) => content,
        _ => seq![],
    }
}

/// A token is found in a reply exactly when its body is JSON with a text `access_token` that is not
/// empty, and it is that text; any other reply is a failure, told with the endpoint and the reason.
pub proof fn tokens_are_found_in_replies(
    endpoint: Seq<char>,
    body: Seq<char>,
    json: JsonView,
    error: Seq<char>,
    code: u16,
)
    ensures
        token_in(endpoint, Ok(json)) == if text_at(json, "access_token"@).len() > 0 {
            Ok::<Seq<char>, Seq<char>>(text_at(json, "access_token"@))
        } else {
            Err("OAuth2 token response from "@ + endpoint + " did not include an access_token"@)
        },
        token_in(endpoint, Err(error)) == Err::<Seq<char>, Seq<char>>(
            "OAuth2 token response from "@ + endpoint + " is not valid JSON: "@ + error,
        ),
        token_outcome(endpoint, HttpReplyView::Body(body)) == token_in(endpoint, parsed(body)),
        token_outcome(endpoint, HttpReplyView::Unreadable(error)) == Err::<Seq<char>, Seq<char>>(
            "OAuth2 token request to "@ + endpoint + " failed while reading the response: "@
                + error,
        ),
        token_outcome(endpoint, HttpReplyView::Status(code, body)) == Err::<Seq<char>, Seq<char>>(
            "OAuth2 token request to "@ + endpoint + " was rejected (HTTP "@ + decimal_of(
                code as nat,
            ) + error_detail(parsed(body))
                + "). Check the client id, client secret, and scope."@,
        ),
        token_outcome(endpoint, HttpReplyView::Failed(error)) == Err::<Seq<char>, Seq<char>>(
            "OAuth2 token endpoint "@ + endpoint + " is unreachable ("@ + error
                + "). Check the oauth2ServerUri option or the catalog URI."@,
        ),
{
}

/// Of the body of a refused token request the error and its description are told, each where it is
/// there, and nothing of a body that is no JSON.
pub proof fn oauth2_errors_are_told(json: JsonView, error: Seq<char>)
    ensures
        error_detail(Err(error)).len() == 0,
        ({
            let code = text_at(json, "error"@);
            let description = text_at(json, "error_description"@);
            error_detail(Ok(json)) == if code.len() == 0 && description.len() == 0 {
                Seq::<char>::empty()
            } else if description.len() == 0 {
                ", "@ + code
            } else if code.len() == 0 {
                ", "@ + description
            } else {
                ", "@ + code + ": "@ + description
            }
        }),
{
}

/// A token that was fetched is told as it is and held from then on, in place of the one before; a
/// failure is told without the credentials, and leaves the client as it was.
pub proof fn fetched_tokens_are_held(client: OAuth2View, token: Seq<char>, message: Seq<char>)
    ensures
        told(client, Ok(token)) == Ok::<Seq<char>, Seq<char>>(token),
        told(client, Err(message)) == Err::<Seq<char>, Seq<char>>(
            scrubbed(AuthView::OAuth2(client), message),
        ),
        holding(client, Ok(token)) == (OAuth2View { access_token: Some(token), ..client }),
        holding(client, Err(message)) == client,
{
}

} // verus!

//! The video platform's records, its client credentials, and the requests and
//! replies of its token and streams endpoints.
use vstd::prelude::*;

use crate::pipeline::PipelineError;

verus! {

/// One live stream as the streams endpoint reports it.
#[derive(Debug)]
pub struct TwitchStream {
    pub id: String,
    pub user_id: String,
    pub user_login: String,
    pub user_name: String,
    pub game_id: String,
    pub game_name: String,
    /// The content type discriminator (`type` on the wire).
    pub tw_type: String,
    pub title: String,
    pub tags: Vec<String>,
    pub viewer_count: u16,
    pub started_at: String,
    pub language: String,
    /// Address of the stream's thumbnail, with `{width}` and `{height}`
    /// placeholders.
    pub thumbnail_url: String,
    pub tag_ids: Vec<String>,
    pub is_mature: bool,
}

/// The cursor of a further page of results.
#[derive(Debug)]
pub struct TwitchPagination {
    pub cursor: String,
}

/// The body of a reply of the streams endpoint: the live streams found, in
/// the order the platform gave them.
#[derive(Debug)]
pub struct TwitchStreams {
    pub data: Vec<TwitchStream>,
}

/// The application's client credentials.
pub struct TwitchConfig {
    pub client_id: String,
    pub client_secret: String,
}

/// The body of a reply of the token endpoint, as far as it could be read.
/// `access_token` is `None` where the field was missing or not a string.
pub struct TokenBody {
    pub access_token: Option<String>,
    pub token_type: Option<String>,
    pub expires_in: Option<u64>,
}

/// A bearer token, valid for one run of the pipeline.
pub struct AccessToken {
    pub access_token: String,
    pub token_type: Option<String>,
    pub expires_in: Option<u64>,
}

/// A client-credentials grant request: a form posted to `url`.
pub struct TokenRequest {
    pub url: String,
    pub form: Vec<(String, String)>,
}

/// A query of the streams endpoint: a GET of `url` with these query
/// parameters and headers.
pub struct StreamsRequest {
    pub url: String,
    pub query: Vec<(String, String)>,
    pub headers: Vec<(String, String)>,
}

/// A client of the platform, holding its credentials.
pub struct TwitchClient {
    config: TwitchConfig,
}

/// Whether an HTTP status code reports success.
pub open spec fn is_success(status: u16) -> bool {
    200 <= status <= 299
}

/// Whether a pair of strings holds `k` and `v`.
pub open spec fn pair_is(p: (String, String), k: Seq<char>, v: Seq<char>) -> bool {
    p.0@ == k && p.1@ == v
}

/// Whether a reply of the token endpoint carries a usable token: a success
/// status and a body with a non-empty `access_token` string.
pub open spec fn token_accepted(status: u16, body: Option<TokenBody>) -> bool {
    is_success(status) && body is Some && body->0.access_token is Some
        && body->0.access_token->0@.len() > 0
}

/// The `Authorization` header value that carries a bearer token.
pub open spec fn bearer_of(token: Seq<char>) -> Seq<char> {
    "Bearer "@ + token
}

fn pair(k: &str, v: &str) -> (r: (String, String))
    ensures
        pair_is(r, k@, v@),
{
    (String::from_str(k), String::from_str(v))
}

/// Reads a reply of the token endpoint.
///
/// The token is taken where the status is a success and the body has a
/// non-empty `access_token`; anything else is an `AuthError`.
pub fn accept_token(status: u16, body: Option<TokenBody>) -> (r: Result<AccessToken, PipelineError>)
    ensures
        r is Ok <==> token_accepted(status, body),
        r is Err ==> r == Err::<AccessToken, PipelineError>(PipelineError::AuthError),
        r is Ok ==> r->Ok_0.access_token@ == body->0.access_token->0@
            && r->Ok_0.access_token@.len() > 0
            && r->Ok_0.token_type == body->0.token_type
            && r->Ok_0.expires_in == body->0.expires_in,
{
    if status < 200 || status > 299 {
        return Err(PipelineError::AuthError);
    }
    match body {
        Some(b) => match b.access_token {
            Some(t) => {
                if t.as_str().is_empty() {
                    proof {
                        reveal_strlit("");
                    }
                    Err(PipelineError::AuthError)
                } else {
                    Ok(AccessToken { access_token: t, token_type: b.token_type, expires_in: b.expires_in })
                }
            },
            None => Err(PipelineError::AuthError),
        },
        None => Err(PipelineError::AuthError),
    }
}

/// Reads a reply of the streams endpoint: the streams where the status is a
/// success and the body could be read, else a `LookupError`.
pub fn accept_streams(status: u16, body: Option<TwitchStreams>) -> (r: Result<
    TwitchStreams,
    PipelineError,
>)
    ensures
        r is Ok <==> is_success(status) && body is Some,
        r is Ok ==> r->Ok_0 == body->0,
        r is Err ==> r == Err::<TwitchStreams, PipelineError>(PipelineError::LookupError),
{
    if status < 200 || status > 299 {
        return Err(PipelineError::LookupError);
    }
    match body {
        Some(b) => Ok(b),
        None => Err(PipelineError::LookupError),
    }
}

impl TwitchClient {
    /// The credentials this client was made with.
    pub closed spec fn spec_config(&self) -> &TwitchConfig {
        &self.config
    }

    pub fn new(config: TwitchConfig) -> (r: Self)
        ensures
            r.spec_config() == config,
    {
        Self { config }
    }

    /// The credentials this client was made with.
    pub fn config(&self) -> (r: &TwitchConfig)
        ensures
            r == self.spec_config(),
    {
        &self.config
    }

    /// The client-credentials grant request for this client.
    pub fn token_request(&self) -> (r: TokenRequest)
        ensures
            r.url@ == "https://id.twitch.tv/oauth2/token"@,
            r.form@.len() == 3,
            pair_is(r.form@[0], "client_id"@, self.spec_config().client_id@),
            pair_is(r.form@[1], "client_secret"@, self.spec_config().client_secret@),
            pair_is(r.form@[2], "grant_type"@, "client_credentials"@),
    {
        let mut form: Vec<(String, String)> = Vec::new();
        form.push(pair("client_id", self.config.client_id.as_str()));
        form.push(pair("client_secret", self.config.client_secret.as_str()));
        form.push(pair("grant_type", "client_credentials"));
        TokenRequest { url: String::from_str("https://id.twitch.tv/oauth2/token"), form }
    }

    /// The query for the live streams of the channel `login`, authorised by
    /// `token`.
    pub fn streams_request(&self, login: &str, token: &AccessToken) -> (r: StreamsRequest)
        ensures
            r.url@ == "https://api.twitch.tv/helix/streams"@,
            r.query@.len() == 1,
            pair_is(r.query@[0], "user_login"@, login@),
            r.headers@.len() == 2,
            pair_is(r.headers@[0], "Client-Id"@, self.spec_config().client_id@),
            pair_is(r.headers@[1], "Authorization"@, bearer_of(token.access_token@)),
    {
        let mut query: Vec<(String, String)> = Vec::new();
        query.push(pair("user_login", login));
        let mut bearer = String::from_str("Bearer ");
        bearer.append(token.access_token.as_str());
        let mut headers: Vec<(String, String)> = Vec::new();
        headers.push(pair("Client-Id", self.config.client_id.as_str()));
        headers.push((String::from_str("Authorization"), bearer));
        StreamsRequest { url: String::from_str("https://api.twitch.tv/helix/streams"), query, headers }
    }
}

} // verus!

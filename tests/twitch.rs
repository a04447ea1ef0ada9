use stream_thumbnail::pipeline::PipelineError;
use stream_thumbnail::twitch::{
    accept_streams, accept_token, AccessToken, TokenBody, TwitchClient, TwitchConfig,
    TwitchStreams,
};

fn body(token: Option<&str>) -> Option<TokenBody> {
    Some(TokenBody {
        access_token: token.map(String::from),
        token_type: Some(String::from("bearer")),
        expires_in: Some(3600),
    })
}

fn client() -> TwitchClient {
    TwitchClient::new(TwitchConfig {
        client_id: String::from("cid"),
        client_secret: String::from("secret"),
    })
}

#[test]
fn token_accepted_on_success() {
    let token = accept_token(200, body(Some("T"))).ok().unwrap();
    assert_eq!(token.access_token, "T");
    assert_eq!(token.expires_in, Some(3600));
    assert_eq!(token.token_type.as_deref(), Some("bearer"));
}

#[test]
fn token_refused_on_error_status() {
    assert!(matches!(accept_token(401, body(Some("T"))), Err(PipelineError::AuthError)));
    assert!(matches!(accept_token(500, body(Some("T"))), Err(PipelineError::AuthError)));
}

#[test]
fn token_refused_on_missing_field() {
    assert!(matches!(accept_token(200, body(None)), Err(PipelineError::AuthError)));
    assert!(matches!(accept_token(200, None), Err(PipelineError::AuthError)));
    assert!(matches!(accept_token(200, body(Some(""))), Err(PipelineError::AuthError)));
}

#[test]
fn streams_reply_reading() {
    let ok = accept_streams(200, Some(TwitchStreams { data: Vec::new() }));
    assert!(ok.ok().unwrap().data.is_empty());
    assert!(matches!(
        accept_streams(404, Some(TwitchStreams { data: Vec::new() })),
        Err(PipelineError::LookupError)
    ));
    assert!(matches!(accept_streams(200, None), Err(PipelineError::LookupError)));
}

#[test]
fn token_request_carries_credentials() {
    let c = client();
    assert_eq!(c.config().client_id, "cid");
    let r = c.token_request();
    assert_eq!(r.url, "https://id.twitch.tv/oauth2/token");
    let form: Vec<(&str, &str)> = r.form.iter().map(|(k, v)| (k.as_str(), v.as_str())).collect();
    assert_eq!(
        form,
        vec![
            ("client_id", "cid"),
            ("client_secret", "secret"),
            ("grant_type", "client_credentials")
        ]
    );
}

#[test]
fn streams_request_uses_bearer_authorization() {
    let token = AccessToken {
        access_token: String::from("T"),
        token_type: None,
        expires_in: None,
    };
    let r = client().streams_request("alice", &token);
    assert_eq!(r.url, "https://api.twitch.tv/helix/streams");
    assert_eq!(r.query, vec![(String::from("user_login"), String::from("alice"))]);
    assert_eq!(
        r.headers,
        vec![
            (String::from("Client-Id"), String::from("cid")),
            (String::from("Authorization"), String::from("Bearer T")),
        ]
    );
}

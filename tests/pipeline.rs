use stream_thumbnail::pipeline::{Action, Event, Pipeline, PipelineError, Stage};
use stream_thumbnail::twitch::{TokenBody, TwitchClient, TwitchConfig, TwitchStream, TwitchStreams};

fn start() -> Pipeline {
    let client = TwitchClient::new(TwitchConfig {
        client_id: String::from("cid"),
        client_secret: String::from("secret"),
    });
    let (p, a) = Pipeline::begin(client, String::from("alice"), String::from("bucket"));
    assert!(matches!(a, Action::RequestToken(_)));
    p
}

fn token_ok() -> Event {
    Event::TokenReply {
        status: 200,
        body: Some(TokenBody {
            access_token: Some(String::from("T")),
            token_type: None,
            expires_in: None,
        }),
    }
}

fn stream(thumbnail_url: &str) -> TwitchStream {
    let s = |v: &str| String::from(v);
    TwitchStream {
        id: s("1"),
        user_id: s("2"),
        user_login: s("alice"),
        user_name: s("Alice"),
        game_id: s("3"),
        game_name: s("game"),
        tw_type: s("live"),
        title: s("title"),
        tags: Vec::new(),
        viewer_count: 5,
        started_at: s("2024-01-01T00:00:00Z"),
        language: s("en"),
        thumbnail_url: s(thumbnail_url),
        tag_ids: Vec::new(),
        is_mature: false,
    }
}

fn streams_reply(data: Vec<TwitchStream>) -> Event {
    Event::StreamsReply { status: 200, body: Some(TwitchStreams { data }) }
}

#[test]
fn scenario_alice_is_published() {
    let mut p = start();
    match p.step(token_ok()) {
        Action::QueryStreams(q) => assert_eq!(q.headers[1].1, "Bearer T"),
        _ => panic!("expected the streams query"),
    }
    assert_eq!(p.stage, Stage::TokenAcquired);
    let a = p.step(streams_reply(vec![stream("https://x/{user_login}-{width}x{height}.jpg")]));
    match a {
        Action::FetchThumbnail(u) => assert_eq!(u, "https://x/{user_login}-1280x720.jpg"),
        _ => panic!("expected the thumbnail download"),
    }
    let a = p.step(Event::ThumbnailReply { status: 200, body: vec![1, 2, 3] });
    match a {
        Action::PutObject(w) => {
            assert_eq!(w.key, "alice.jpg");
            assert_eq!(w.bucket, "bucket");
            assert_eq!(w.body, vec![1, 2, 3]);
        }
        _ => panic!("expected the storage write"),
    }
    assert!(matches!(p.step(Event::StoreReply { stored: true }), Action::Finish(Ok(()))));
    assert_eq!(p.stage, Stage::Done);
}

#[test]
fn scenario_no_live_stream() {
    let mut p = start();
    p.step(token_ok());
    let a = p.step(streams_reply(Vec::new()));
    assert!(matches!(a, Action::Finish(Err(PipelineError::NoLiveStream))));
    assert_eq!(p.stage, Stage::Failed(PipelineError::NoLiveStream));
    let later = p.step(Event::StoreReply { stored: true });
    assert!(matches!(later, Action::Finish(Err(PipelineError::NoLiveStream))));
    assert_ne!(p.stage, Stage::Done);
}

#[test]
fn scenario_token_refused() {
    let mut p = start();
    let a = p.step(Event::TokenReply { status: 401, body: None });
    assert!(matches!(a, Action::Finish(Err(PipelineError::AuthError))));
    assert_eq!(p.stage, Stage::Failed(PipelineError::AuthError));
}

#[test]
fn scenario_storage_write_fails() {
    let mut p = start();
    p.step(token_ok());
    p.step(streams_reply(vec![stream("https://x/{width}x{height}.jpg")]));
    p.step(Event::ThumbnailReply { status: 200, body: vec![9] });
    let a = p.step(Event::StoreReply { stored: false });
    assert!(matches!(a, Action::Finish(Err(PipelineError::PublishError))));
    assert_eq!(p.stage, Stage::Failed(PipelineError::PublishError));
}

#[test]
fn transport_failures_map_to_stage_errors() {
    let mut p = start();
    p.step(Event::TransportFailed);
    assert_eq!(p.stage, Stage::Failed(PipelineError::AuthError));

    let mut p = start();
    p.step(token_ok());
    p.step(Event::TransportFailed);
    assert_eq!(p.stage, Stage::Failed(PipelineError::LookupError));

    let mut p = start();
    p.step(token_ok());
    p.step(streams_reply(vec![stream("u")]));
    let a = p.step(Event::ThumbnailReply { status: 404, body: Vec::new() });
    assert!(matches!(a, Action::Finish(Err(PipelineError::FetchError))));
}

#[test]
fn streams_lookup_errors() {
    let mut p = start();
    p.step(token_ok());
    p.step(Event::StreamsReply { status: 500, body: None });
    assert_eq!(p.stage, Stage::Failed(PipelineError::LookupError));
}

#[test]
fn first_stream_wins() {
    let mut p = start();
    p.step(token_ok());
    let a = p.step(streams_reply(vec![stream("first/{width}"), stream("second/{width}")]));
    match a {
        Action::FetchThumbnail(u) => assert_eq!(u, "first/1280"),
        _ => panic!("expected the thumbnail download"),
    }
}

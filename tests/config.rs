use stream_thumbnail::config::{login_from_event, FuncEnv};
use stream_thumbnail::pipeline::PipelineError;

fn some(s: &str) -> Option<String> {
    Some(String::from(s))
}

#[test]
fn config_with_all_values() {
    let env = FuncEnv::from_values(some("bucket"), some("cid"), some("secret")).ok().unwrap();
    assert_eq!(env.bucket_name, "bucket");
    let tc = env.twitch_config();
    assert_eq!(tc.client_id, "cid");
    assert_eq!(tc.client_secret, "secret");
}

#[test]
fn config_missing_value_is_error() {
    assert!(matches!(
        FuncEnv::from_values(None, some("cid"), some("secret")),
        Err(PipelineError::ConfigError)
    ));
    assert!(matches!(
        FuncEnv::from_values(some("b"), None, some("secret")),
        Err(PipelineError::ConfigError)
    ));
    assert!(matches!(
        FuncEnv::from_values(some("b"), some("cid"), None),
        Err(PipelineError::ConfigError)
    ));
}

#[test]
fn config_keeps_empty_values() {
    let env = FuncEnv::from_values(some(""), some("cid"), some("")).ok().unwrap();
    assert_eq!(env.bucket_name, "");
    assert_eq!(env.client_id, "cid");
    assert_eq!(env.client_secret, "");
}

#[test]
fn event_login_is_required() {
    assert_eq!(login_from_event(some("alice")).ok().unwrap(), "alice");
    assert!(matches!(login_from_event(None), Err(PipelineError::MalformedEvent)));
}

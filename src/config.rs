//! The run's configuration and the validation of its triggering event.
use vstd::prelude::*;

use crate::pipeline::PipelineError;
use crate::twitch::TwitchConfig;

verus! {

/// The configuration a run needs: where to publish and the platform
/// credentials.
pub struct FuncEnv {
    pub bucket_name: String,
    pub client_id: String,
    pub client_secret: String,
}

/// Whether a configuration value is present. An empty value is present.
pub open spec fn is_given(v: Option<String>) -> bool {
    v is Some
}

impl FuncEnv {
    /// Builds the configuration from the raw values; each of the three is
    /// required, and a missing one is a `ConfigError`.
    pub fn from_values(
        bucket_name: Option<String>,
        client_id: Option<String>,
        client_secret: Option<String>,
    ) -> (r: Result<FuncEnv, PipelineError>)
        ensures
            r is Ok <==> is_given(bucket_name) && is_given(client_id) && is_given(client_secret),
            r is Err ==> r == Err::<FuncEnv, PipelineError>(PipelineError::ConfigError),
            r is Ok ==> r->Ok_0.bucket_name == bucket_name->0 && r->Ok_0.client_id == client_id->0
                && r->Ok_0.client_secret == client_secret->0,
    {
        match (bucket_name, client_id, client_secret) {
            (Some(b), Some(i), Some(s)) => Ok(FuncEnv { bucket_name: b, client_id: i, client_secret: s }),
            _ => Err(PipelineError::ConfigError),
        }
    }

    /// The platform credentials of this configuration.
    pub fn twitch_config(&self) -> (r: TwitchConfig)
        ensures
            r.client_id == self.client_id,
            r.client_secret == self.client_secret,
    {
        TwitchConfig { client_id: self.client_id.clone(), client_secret: self.client_secret.clone() }
    }
}

/// The channel login carried by a triggering event, or `MalformedEvent`
/// where the event has none.
pub fn login_from_event(twitch_user_login: Option<String>) -> (r: Result<String, PipelineError>)
    ensures
        r is Ok <==> twitch_user_login is Some,
        r is Ok ==> r->Ok_0 == twitch_user_login->0,
        r is Err ==> r == Err::<String, PipelineError>(PipelineError::MalformedEvent),
{
    match twitch_user_login {
        Some(login) => Ok(login),
        None => Err(PipelineError::MalformedEvent),
    }
}

} // verus!

//! The pipeline that archives a live channel's thumbnail, as a state machine:
//! from its stage and the reply to its last request to its next stage and
//! the next thing to do.
use vstd::prelude::*;

use crate::thumbnail::{resolve_thumbnail_url, resolved_url, storage_key, storage_key_of};
use crate::twitch::{
    accept_streams, accept_token, bearer_of, is_success, pair_is, token_accepted, StreamsRequest,
    TokenBody, TokenRequest, TwitchClient, TwitchStreams,
};

verus! {

/// Why a run of the pipeline failed.
#[derive(Debug, Clone, Copy, PartialEq, Eq, Structural)]
pub enum PipelineError {
    /// The token exchange failed.
    AuthError,
    /// The streams query could not be sent, failed, or its reply was unreadable.
    LookupError,
    /// The streams query succeeded but found no live stream.
    NoLiveStream,
    /// The thumbnail could not be downloaded.
    FetchError,
    /// The thumbnail could not be written to storage.
    PublishError,
    /// A required configuration value is missing.
    ConfigError,
    /// The triggering event lacks the channel login.
    MalformedEvent,
}

/// How far a run has come. Each stage names the last step that succeeded.
#[derive(Debug, Clone, Copy, PartialEq, Eq, Structural)]
pub enum Stage {
    /// Nothing done yet: the token request is out.
    Start,
    /// A token was obtained: the streams query is out.
    TokenAcquired,
    /// A live stream was found: the thumbnail download is out.
    StreamsQueried,
    /// The thumbnail was downloaded: the storage write is out.
    ThumbnailResolved,
    /// The thumbnail was published.
    Done,
    /// The run failed for this reason.
    Failed(PipelineError),
}

/// The outcome of the request that the last action asked for.
pub enum Event {
    /// The request could not be sent, or its reply could not be received.
    TransportFailed,
    /// The token endpoint answered; `body` is `None` where it could not be read.
    TokenReply { status: u16, body: Option<TokenBody> },
    /// The streams endpoint answered; `body` is `None` where it could not be read.
    StreamsReply { status: u16, body: Option<TwitchStreams> },
    /// The thumbnail address answered with these bytes.
    ThumbnailReply { status: u16, body: Vec<u8> },
    /// The storage write finished; `stored` says whether it succeeded.
    StoreReply { stored: bool },
}

/// A write of `body` under `key` in `bucket`, replacing what was there.
pub struct PutRequest {
    pub bucket: String,
    pub key: String,
    pub body: Vec<u8>,
}

/// What the caller is to do next.
pub enum Action {
    RequestToken(TokenRequest),
    QueryStreams(StreamsRequest),
    /// Download the thumbnail at this address, without authentication.
    FetchThumbnail(String),
    PutObject(PutRequest),
    /// The run is over, with this outcome.
    Finish(Result<(), PipelineError>),
}

/// The state of one run for one channel.
pub struct Pipeline {
    pub client: TwitchClient,
    pub login: String,
    pub bucket: String,
    pub stage: Stage,
}

/// The failure that ends a run at `stage` when its request does not succeed.
pub open spec fn stage_error(stage: Stage) -> PipelineError {
    match stage {
        Stage::Start => PipelineError::AuthError,
        Stage::TokenAcquired => PipelineError::LookupError,
        Stage::StreamsQueried => PipelineError::FetchError,
        _ => PipelineError::PublishError,
    }
}

/// Whether a stage ends the run.
pub open spec fn is_terminal(stage: Stage) -> bool {
    stage is Done || stage is Failed
}

/// The stage that follows `stage` on `event`. A reply that does not belong to
/// the request that is out counts as that request's failure; a finished run
/// stays as it is.
pub open spec fn next_stage(stage: Stage, event: Event) -> Stage {
    if is_terminal(stage) {
        stage
    } else {
        let ok = match stage {
            Stage::Start => match event {
                Event::TokenReply { status, body } => token_accepted(status, body),
                _ => false,
            },
            Stage::TokenAcquired => match event {
                Event::StreamsReply { status, body } => is_success(status) && body is Some,
                _ => false,
            },
            Stage::StreamsQueried => match event {
                Event::ThumbnailReply { status, .. } => is_success(status),
                _ => false,
            },
            _ => match event {
                Event::StoreReply { stored } => stored,
                _ => false,
            },
        };
        if !ok {
            Stage::Failed(stage_error(stage))
        } else {
            match stage {
                Stage::Start => Stage::TokenAcquired,
                Stage::TokenAcquired => if event->StreamsReply_body->0.data@.len() == 0 {
                    Stage::Failed(PipelineError::NoLiveStream)
                } else {
                    Stage::StreamsQueried
                },
                Stage::StreamsQueried => Stage::ThumbnailResolved,
                _ => Stage::Done,
            }
        }
    }
}

/// The stage a run reaches from `stage` on the events in order.
pub open spec fn run_stages(stage: Stage, events: Seq<Event>) -> Stage
    decreases events.len(),
{
    if events.len() == 0 {
        stage
    } else {
        run_stages(next_stage(stage, events[0]), events.subrange(1, events.len() as int))
    }
}

/// The outcome that a finished run reports.
pub open spec fn outcome_of(stage: Stage) -> Result<(), PipelineError> {
    match stage {
        Stage::Failed(e) => Err(e),
        _ => Ok(()),
    }
}

impl Pipeline {
    /// Starts a run for the channel `login`, publishing into `bucket`: the
    /// first action is the token request.
    pub fn begin(client: TwitchClient, login: String, bucket: String) -> (r: (Pipeline, Action))
        ensures
            r.0.stage == Stage::Start,
            r.0.client == client,
            r.0.login == login,
            r.0.bucket == bucket,
            r.1 matches Action::RequestToken(q) && q.url@ == "https://id.twitch.tv/oauth2/token"@
                && q.form@.len() == 3
                && pair_is(q.form@[0], "client_id"@, client.spec_config().client_id@)
                && pair_is(q.form@[1], "client_secret"@, client.spec_config().client_secret@)
                && pair_is(q.form@[2], "grant_type"@, "client_credentials"@),
    {
        let request = client.token_request();
        (Pipeline { client, login, bucket, stage: Stage::Start }, Action::RequestToken(request))
    }

    /// Takes the outcome of the request that is out and moves to the next
    /// stage, returning what to do next.
    pub fn step(&mut self, event: Event) -> (a: Action)
        ensures
            final(self).stage == next_stage(old(self).stage, event),
            final(self).client == old(self).client,
            final(self).login == old(self).login,
            final(self).bucket == old(self).bucket,
            is_terminal(final(self).stage) ==> a == Action::Finish(outcome_of(final(self).stage)),
            final(self).stage is TokenAcquired ==> (a matches Action::QueryStreams(q)
                && q.url@ == "https://api.twitch.tv/helix/streams"@
                && q.query@.len() == 1
                && pair_is(q.query@[0], "user_login"@, old(self).login@)
                && q.headers@.len() == 2
                && pair_is(q.headers@[0], "Client-Id"@, old(self).client.spec_config().client_id@)
                && pair_is(
                q.headers@[1],
                "Authorization"@,
                bearer_of(event->TokenReply_body->0.access_token->0@),
            )),
            final(self).stage is StreamsQueried ==> (a matches Action::FetchThumbnail(u) && u@
                == resolved_url(event->StreamsReply_body->0.data@[0].thumbnail_url@)),
            final(self).stage is ThumbnailResolved ==> (a matches Action::PutObject(w) && w.bucket@
                == old(self).bucket@ && w.key@ == storage_key_of(old(self).login@) && w.body
                == event->ThumbnailReply_body),
    {
        let stage = self.stage;
        match stage {
            Stage::Done => {
                return Action::Finish(Ok(()));
            },
            Stage::Failed(e) => {
                return Action::Finish(Err(e));
            },
            Stage::Start => {
                if let Event::TokenReply { status, body } = event {
                    match accept_token(status, body) {
                        Ok(token) => {
                            self.stage = Stage::TokenAcquired;
                            let request = self.client.streams_request(self.login.as_str(), &token);
                            return Action::QueryStreams(request);
                        },
                        Err(_) => {},
                    }
                }
            },
            Stage::TokenAcquired => {
                if let Event::StreamsReply { status, body } = event {
                    match accept_streams(status, body) {
                        Ok(streams) => {
                            if streams.data.len() == 0 {
                                self.stage = Stage::Failed(PipelineError::NoLiveStream);
                                return Action::Finish(Err(PipelineError::NoLiveStream));
                            }
                            self.stage = Stage::StreamsQueried;
                            let url = resolve_thumbnail_url(streams.data[0].thumbnail_url.as_str());
                            return Action::FetchThumbnail(url);
                        },
                        Err(_) => {},
                    }
                }
            },
            Stage::StreamsQueried => {
                if let Event::ThumbnailReply { status, body } = event {
                    if 200 <= status && status <= 299 {
                        self.stage = Stage::ThumbnailResolved;
                        let key = storage_key(self.login.as_str());
                        let bucket = self.bucket.clone();
                        return Action::PutObject(PutRequest { bucket, key, body });
                    }
                }
            },
            Stage::ThumbnailResolved => {
                if let Event::StoreReply { stored } = event {
                    if stored {
                        self.stage = Stage::Done;
                        return Action::Finish(Ok(()));
                    }
                }
            },
        }
        let e = match stage {
            Stage::Start => PipelineError::AuthError,
            Stage::TokenAcquired => PipelineError::LookupError,
            Stage::StreamsQueried => PipelineError::FetchError,
            _ => PipelineError::PublishError,
        };
        self.stage = Stage::Failed(e);
        Action::Finish(Err(e))
    }
}

/// A finished run stays finished, whatever events follow.
pub proof fn lemma_terminal_is_final(stage: Stage, events: Seq<Event>)
    requires
        is_terminal(stage),
    ensures
        run_stages(stage, events) == stage,
    decreases events.len(),
{
    if events.len() > 0 {
        lemma_terminal_is_final(stage, events.subrange(1, events.len() as int));
    }
}

/// When the streams query succeeds but finds no stream, the run ends failed
/// with `NoLiveStream` whatever follows, and so never reaches `Done`.
pub proof fn lemma_no_live_stream_ends_run(status: u16, body: TwitchStreams, later: Seq<Event>)
    requires
        is_success(status),
        body.data@.len() == 0,
    ensures
        run_stages(
            next_stage(Stage::TokenAcquired, Event::StreamsReply { status, body: Some(body) }),
            later,
        ) == Stage::Failed(PipelineError::NoLiveStream),
        run_stages(
            next_stage(Stage::TokenAcquired, Event::StreamsReply { status, body: Some(body) }),
            later,
        ) != Stage::Done,
{
    let after = next_stage(Stage::TokenAcquired, Event::StreamsReply { status, body: Some(body) });
    assert(after == Stage::Failed(PipelineError::NoLiveStream));
    lemma_terminal_is_final(after, later);
}

} // verus!

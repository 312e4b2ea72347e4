//! A speech-to-text provider with an OpenAI-compatible API
//! (`POST /audio/transcriptions`, `GET /models`, `GET /models/{model}`):
//! its identity, and what the client decides from each reply.

use vstd::prelude::*;

use crate::speech::{spec_is_transient, ProviderCapabilities, SpeechError};
use crate::text::{concat_str, decimal, spec_decimal};

verus! {

/// Provider against an OpenAI-compatible endpoint. The HTTP client itself
/// lives with the code that performs the requests.
pub struct OpenAiCompatibleProvider {
    pub id: &'static str,
    pub base_url: String,
    pub api_key: String,
}

impl OpenAiCompatibleProvider {
    pub fn new(id: &'static str, base_url: &str, api_key: String) -> (p: Self)
        ensures
            p.id == id,
            p.base_url@ == base_url@,
            p.api_key@ == api_key@,
    {
        OpenAiCompatibleProvider { id, base_url: String::from_str(base_url), api_key }
    }

    /// Points the provider at another endpoint.
    pub fn with_base_url(self, base_url: &str) -> (p: Self)
        ensures
            p.id == self.id,
            p.base_url@ == base_url@,
            p.api_key@ == self.api_key@,
    {
        OpenAiCompatibleProvider { base_url: String::from_str(base_url), ..self }
    }

    pub fn id(&self) -> (id: &'static str)
        ensures
            id == self.id,
    {
        self.id
    }

    /// Batch transcription only.
    pub fn capabilities(&self) -> (c: ProviderCapabilities)
        ensures
            c.batch && !c.streaming,
    {
        ProviderCapabilities { batch: true, streaming: false }
    }
}


/// What an HTTP status of `POST /audio/transcriptions` means: `None` for 200;
/// 401 and 403 are an authentication failure; 429 the rate limit; 400 and
/// 422 invalid audio; anything else a provider error carrying the status.
pub fn transcription_status_error(status: u16) -> (e: Option<SpeechError>)
    ensures
        status == 200 ==> e is None,
        (status == 401 || status == 403) ==> e == Some(SpeechError::Auth),
        status == 429 ==> e == Some(SpeechError::RateLimited),
        (status == 400 || status == 422) ==> e == Some(SpeechError::InvalidAudio),
        status != 200 && status != 401 && status != 403 && status != 429 && status != 400 && status
            != 422 ==> (e matches Some(SpeechError::Provider { code }) && code@ == spec_decimal(
            status as nat,
        )),
{
    if status == 200 {
        None
    } else if status == 401 || status == 403 {
        Some(SpeechError::Auth)
    } else if status == 429 {
        Some(SpeechError::RateLimited)
    } else if status == 400 || status == 422 {
        Some(SpeechError::InvalidAudio)
    } else {
        Some(SpeechError::Provider { code: decimal(status as u64) })
    }
}

/// What an HTTP status of `GET /models` or `GET /models/{model}` means:
/// `None` for 200; 401 and 403 are an authentication failure; 429 the rate
/// limit; anything else (404 included: the key is valid but the model does
/// not exist) a provider error carrying the status.
pub fn listing_status_error(status: u16) -> (e: Option<SpeechError>)
    ensures
        status == 200 ==> e is None,
        (status == 401 || status == 403) ==> e == Some(SpeechError::Auth),
        status == 429 ==> e == Some(SpeechError::RateLimited),
        status != 200 && status != 401 && status != 403 && status != 429 ==> (e matches Some(
            SpeechError::Provider { code },
        ) && code@ == spec_decimal(status as nat)),
{
    if status == 200 {
        None
    } else if status == 401 || status == 403 {
        Some(SpeechError::Auth)
    } else if status == 429 {
        Some(SpeechError::RateLimited)
    } else {
        Some(SpeechError::Provider { code: decimal(status as u64) })
    }
}

/// A request that could not be sent: a timeout or a failed connection is a
/// network error; anything else a provider error with its description.
pub fn send_error(timeout_or_connect: bool, detail: String) -> (e: SpeechError)
    ensures
        timeout_or_connect ==> e == SpeechError::Network,
        !timeout_or_connect ==> (e matches SpeechError::Provider { code } && code@ == detail@),
{
    if timeout_or_connect {
        SpeechError::Network
    } else {
        SpeechError::Provider { code: detail }
    }
}

/// A reply whose body does not parse: a provider error
/// `respuesta inválida: {detail}`.
pub fn invalid_response(detail: &str) -> (e: SpeechError)
    ensures
        e matches SpeechError::Provider { code } && code@ == "respuesta inválida: "@ + detail@,
{
    SpeechError::Provider { code: concat_str("respuesta inválida: ", detail) }
}

/// The listed models that are active: entries marked `active: false` (only
/// Groq sends the flag) are left out; an absent flag means active.
pub open spec fn spec_active_ids(entries: Seq<(String, Option<bool>)>) -> Seq<Seq<char>> {
    entries.filter(|e: (String, Option<bool>)| e.1 != Some(false)).map_values(
        |e: (String, Option<bool>)| e.0@,
    )
}

/// Ids of the active models of a listing, in order.
pub fn active_model_ids(entries: Vec<(String, Option<bool>)>) -> (ids: Vec<String>)
    ensures
        ids@.map_values(|s: String| s@) == spec_active_ids(entries@),
{
    let ghost keep = |e: (String, Option<bool>)| e.1 != Some(false);
    let mut ids: Vec<String> = Vec::new();
    let mut i: usize = 0;
    while i < entries.len()
        invariant
            i <= entries@.len(),
            keep == (|e: (String, Option<bool>)| e.1 != Some(false)),
            ids@.map_values(|s: String| s@) == entries@.take(i as int).filter(keep).map_values(
                |e: (String, Option<bool>)| e.0@,
            ),
        decreases entries@.len() - i,
    {
        let ghost prev = entries@.take(i as int).filter(keep);
        let ghost e = entries@[i as int];
        proof {
            reveal_with_fuel(Seq::filter, 1);
            assert(entries@.take(i + 1).drop_last() =~= entries@.take(i as int));
            assert(entries@.take(i + 1).last() == e);
            assert(entries@.take(i + 1).filter(keep) == if keep(e) {
                prev.push(e)
            } else {
                prev
            });
        }
        let active = match entries[i].1 {
            Some(false) => false,
            _ => true,
        };
        assert(active == keep(e));
        if active {
            ids.push(entries[i].0.clone());
            assert(prev.push(e).map_values(|x: (String, Option<bool>)| x.0@) =~= prev.map_values(
                |x: (String, Option<bool>)| x.0@,
            ).push(e.0@));
        }
        assert(ids@.map_values(|s: String| s@) =~= entries@.take(i + 1).filter(keep).map_values(
            |e: (String, Option<bool>)| e.0@,
        ));
        i = i + 1;
    }
    assert(entries@.take(entries@.len() as int) =~= entries@);
    ids
}

/// Pause before the single retry of a transcription, in milliseconds.
pub const RETRY_BACKOFF_MS: u64 = 1_000;

/// Next step of a transcription after an attempt.
pub enum AttemptStep {
    /// Send the same request once more, after a pause of `after_ms`.
    Retry { after_ms: u64 },
    /// The transcription is over, with this outcome.
    Done(Result<String, SpeechError>),
}

/// Whether attempt number `attempt` is followed by another one: only a
/// first attempt that failed transiently.
pub open spec fn spec_retries(attempt: u32, outcome: Result<String, SpeechError>) -> bool {
    attempt == 1 && match outcome {
        Err(e) => spec_is_transient(e),
        Ok(_) => false,
    }
}

/// After attempt number `attempt` (1 or 2) of a transcription: a transient
/// failure (network or rate limit) of the first attempt is retried once,
/// after a pause of `RETRY_BACKOFF_MS`;
/// everything else ends the transcription with its outcome.
pub fn after_attempt(attempt: u32, outcome: Result<String, SpeechError>) -> (step: AttemptStep)
    ensures
        step is Retry <==> spec_retries(attempt, outcome),
        step is Retry <==> (attempt == 1 && (outcome == Err::<String, SpeechError>(
            SpeechError::Network,
        ) || outcome == Err::<String, SpeechError>(SpeechError::RateLimited))),
        step matches AttemptStep::Retry { after_ms } ==> after_ms == RETRY_BACKOFF_MS,
        step matches AttemptStep::Done(r) ==> r == outcome,
{
    match outcome {
        Err(e) => {
            if attempt == 1 && e.is_transient() {
                AttemptStep::Retry { after_ms: RETRY_BACKOFF_MS }
            } else {
                AttemptStep::Done(Err(e))
            }
        },
        Ok(text) => AttemptStep::Done(Ok(text)),
    }
}

/// A transcription sends at most two requests, and the second only after a
/// transient failure of the first: a success, a permanent error or any
/// outcome of the second attempt ends it.
pub proof fn law_at_most_one_retry(outcome: Result<String, SpeechError>)
    ensures
        !spec_retries(2, outcome),
        outcome is Ok ==> !spec_retries(1, outcome),
        (outcome matches Err(e) && !spec_is_transient(e)) ==> !spec_retries(1, outcome),
{
}

/// Only a network failure or the rate limit of the first attempt is
/// retried: a success, an authentication failure, invalid audio or any
/// other provider error ends the transcription at once, with that outcome.
pub proof fn law_retry_only_after_network_or_rate_limit(attempt: u32, outcome: Result<String, SpeechError>)
    ensures
        spec_retries(attempt, outcome) <==> (attempt == 1 && (outcome == Err::<String, SpeechError>(
            SpeechError::Network,
        ) || outcome == Err::<String, SpeechError>(SpeechError::RateLimited))),
        outcome matches Err(SpeechError::Provider { .. }) ==> !spec_retries(attempt, outcome),
        outcome == Err::<String, SpeechError>(SpeechError::Auth) ==> !spec_retries(attempt, outcome),
        outcome == Err::<String, SpeechError>(SpeechError::InvalidAudio) ==> !spec_retries(
            attempt,
            outcome,
        ),
{
}

} // verus!

//! What the dictation cycle knows of a speech-to-text provider: its
//! capabilities, the options of a transcription, its result and its errors.

use std::time::Duration;

use vstd::prelude::*;

use crate::text::concat_str;

verus! {

/// What a provider can do.
#[derive(Debug, Clone, Copy, Default)]
pub struct ProviderCapabilities {
    pub batch: bool,
    pub streaming: bool,
}

/// Options of one transcription.
pub struct TranscribeOptions {
    pub language: Option<String>,
    pub model: String,
    pub timeout: Duration,
}

/// Result of a transcription.
#[derive(Debug)]
pub struct Transcript {
    pub text: String,
    pub language: Option<String>,
    pub latency: Duration,
}

/// Failure of a provider call.
#[derive(Debug, Clone, PartialEq, Eq)]
pub enum SpeechError {
    Auth,
    Network,
    RateLimited,
    InvalidAudio,
    Provider { code: String },
}

/// The text shown for an error.
pub open spec fn spec_speech_error_message(e: SpeechError) -> Seq<char> {
    match e {
        SpeechError::Auth => "autenticación inválida o ausente"@,
        SpeechError::Network => "error de red o timeout"@,
        SpeechError::RateLimited => "rate limit del proveedor"@,
        SpeechError::InvalidAudio => "audio inválido"@,
        SpeechError::Provider { code } => "error del proveedor: "@ + code@,
    }
}

/// Transient errors: worth one more try.
pub open spec fn spec_is_transient(e: SpeechError) -> bool {
    e is Network || e is RateLimited
}

impl SpeechError {
    /// The text shown for the error.
    pub fn message(&self) -> (s: String)
        ensures
            s@ == spec_speech_error_message(*self),
    {
        match self {
            SpeechError::Auth => String::from_str("autenticación inválida o ausente"),
            SpeechError::Network => String::from_str("error de red o timeout"),
            SpeechError::RateLimited => String::from_str("rate limit del proveedor"),
            SpeechError::InvalidAudio => String::from_str("audio inválido"),
            SpeechError::Provider { code } => concat_str("error del proveedor: ", code.as_str()),
        }
    }

    /// Whether the error is transient (network trouble or rate limit).
    pub fn is_transient(&self) -> (r: bool)
        ensures
            r == spec_is_transient(*self),
            r == (*self == SpeechError::Network || *self == SpeechError::RateLimited),
    {
        match self {
            SpeechError::Network | SpeechError::RateLimited => true,
            _ => false,
        }
    }
}

/// Exactly the network failures and the rate limit are transient: an
/// authentication failure, invalid audio and a provider error are not.
pub proof fn law_transient_errors(e: SpeechError)
    ensures
        spec_is_transient(e) <==> (e == SpeechError::Network || e == SpeechError::RateLimited),
        e is Provider ==> !spec_is_transient(e),
        e is Auth ==> !spec_is_transient(e),
        e is InvalidAudio ==> !spec_is_transient(e),
{
}

} // verus!

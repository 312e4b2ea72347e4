//! Domain events of the dictation cycle. Every module talks to the cycle
//! through these events; the user interface receives each of them one to one.

use vstd::prelude::*;

use crate::delivery::DeliveryMode;

verus! {

/// Mode in which the overlay opens.
#[derive(Debug, Clone, Copy, PartialEq, Eq, Structural)]
pub enum OverlayMode {
    Listening,
}

/// How a dictation cycle ended, as shown by the overlay when it closes.
#[derive(Debug, Clone, Copy, PartialEq, Eq, Structural)]
pub enum OverlayOutcome {
    /// The cycle delivered its text.
    Success,
    Error,
    Cancelled,
}

/// Domain event of the dictation cycle.
#[derive(Debug, Clone)]
pub enum DomainEvent {
    HotkeyPressed { timestamp: i64 },
    HotkeyReleased { timestamp: i64 },
    /// Sustained silence seen by the voice detector while recording: in
    /// toggle mode it stops the dictation like releasing the hotkey does in
    /// push-to-talk; in push-to-talk it is ignored.
    SilenceDetected { silence_ms: u64 },
    OverlayOpened { mode: OverlayMode },
    RecordingStarted { device_id: String, sample_rate: u32 },
    RecordingStopped { duration_ms: u64, samples: u32 },
    RecordingFailed { error_key: String, detail: String },
    TranscriptionStarted { provider_id: String, model: String },
    TranscriptionCompleted { text: String, latency_ms: u64, provider_id: String },
    TranscriptionFailed { error_key: String, retryable: bool, detail: String },
    /// The language-model pass finished (on failure it arrives degraded,
    /// carrying the literal transcription).
    PostProcessingCompleted { text: String, latency_ms: u64, degraded: bool },
    /// Notice that the language-model pass failed; the cycle goes on.
    PostProcessingFailed { error_key: String, retryable: bool, detail: String },
    TextDeliveryStarted { mode: DeliveryMode },
    TextDeliveryCompleted { mode: DeliveryMode, chars: u32 },
    TextDeliveryFailed { error_key: String, fallback_used: bool },
    OverlayClosed { outcome: OverlayOutcome },
    ConfigChanged { changed_keys: Vec<String> },
    UpdateAvailable { version: String, notes: String, pub_date: Option<String> },
    UpdateDownloadProgress { downloaded: u64, content_length: Option<u64> },
    UpdateFailed { error_key: String, detail: String },
}

/// The events that report the failure of a stage of the cycle.
pub open spec fn spec_is_failure(event: DomainEvent) -> bool {
    ||| event is RecordingFailed
    ||| event is TranscriptionFailed
    ||| event is TextDeliveryFailed
}

impl DomainEvent {
    /// `true` when the event reports the failure of a stage of the cycle
    /// (recording, transcription or delivery).
    pub fn is_failure(&self) -> (r: bool)
        ensures
            r == spec_is_failure(*self),
    {
        match self {
            DomainEvent::RecordingFailed { .. } => true,
            DomainEvent::TranscriptionFailed { .. } => true,
            DomainEvent::TextDeliveryFailed { .. } => true,
            _ => false,
        }
    }
}

} // verus!

//! Decisions of the orchestrator of the dictation cycle. The orchestrator
//! loop receives domain events (or a clock tick), lets the state machine
//! decide, tells the overlay when a cycle opens and closes, and turns the
//! results of audio, speech and delivery back into domain events. The loop
//! and the I/O live outside this library; every decision is made here.

use vstd::prelude::*;

use crate::audio::{spec_audio_error_key, spec_audio_error_message, AudioData, AudioError};
use crate::delivery::DeliveryMode;
use crate::events::{DomainEvent, OverlayMode, OverlayOutcome};
use crate::speech::{spec_is_transient, spec_speech_error_message, SpeechError};
use crate::state_machine::{
    spec_handle, spec_tick, ActivationMode, Command, CommandView, CoreState, DictationMode,
    MachineView, StateMachine,
};
use crate::text::str_eq;

verus! {

/// The overlay event that a state change produces: entering `Recording`
/// from `Idle` opens the overlay in listening mode; coming back to `Idle`
/// closes it, with an error outcome when the cycle ended in `Error`.
pub open spec fn spec_overlay_event(prev: CoreState, next: CoreState) -> Option<DomainEvent> {
    if prev == CoreState::Idle && next == CoreState::Recording {
        Some(DomainEvent::OverlayOpened { mode: OverlayMode::Listening })
    } else if prev != CoreState::Idle && next == CoreState::Idle {
        Some(
            DomainEvent::OverlayClosed {
                outcome: if prev == CoreState::Error {
                    OverlayOutcome::Error
                } else {
                    OverlayOutcome::Success
                },
            },
        )
    } else {
        None
    }
}

/// The overlay event of a state change, if any.
pub fn overlay_event(prev: CoreState, next: CoreState) -> (e: Option<DomainEvent>)
    ensures
        e == spec_overlay_event(prev, next),
{
    if prev == CoreState::Idle && next == CoreState::Recording {
        Some(DomainEvent::OverlayOpened { mode: OverlayMode::Listening })
    } else if prev != CoreState::Idle && next == CoreState::Idle {
        let outcome = if prev == CoreState::Error {
            OverlayOutcome::Error
        } else {
            OverlayOutcome::Success
        };
        Some(DomainEvent::OverlayClosed { outcome })
    } else {
        None
    }
}

/// What one turn of the orchestrator loop decided.
pub struct Turn {
    /// The command to carry out.
    pub command: Command,
    /// The overlay event to emit, if the cycle opened or closed.
    pub overlay: Option<DomainEvent>,
}

/// One turn of the loop as a mathematical step: the modes are refreshed
/// from the stored settings, the machine handles the event (or the tick,
/// when no event arrived), and the overlay event follows from the state
/// change. Gives the machine after the turn, the command and the overlay
/// event.
pub open spec fn spec_turn(
    m: MachineView,
    event: Option<DomainEvent>,
    now: u64,
    activation: Seq<char>,
    dictation: Seq<char>,
) -> (MachineView, CommandView, Option<DomainEvent>) {
    let m2 = MachineView {
        mode: ActivationMode::from_setting_spec(activation),
        dictation_mode: DictationMode::from_setting_spec(dictation),
        ..m
    };
    let (after, cmd) = match event {
        Some(e) => spec_handle(m2, e, now),
        None => spec_tick(m2, now),
    };
    (after, cmd, spec_overlay_event(m.state, after.state))
}

/// One turn of the loop: the activation and dictation modes are refreshed
/// from the stored settings (a change applies from the next decision on),
/// then the machine handles the event — or the tick, when no event arrived
/// — and the overlay event follows from the state change.
pub fn turn(
    sm: &mut StateMachine,
    event: Option<&DomainEvent>,
    now_ms: u64,
    activation_setting: &str,
    dictation_setting: &str,
) -> (t: Turn)
    ensures
        (final(sm)@, t.command@, t.overlay) == spec_turn(
            old(sm)@,
            match event {
                Some(e) => Some(*e),
                None => None,
            },
            now_ms,
            activation_setting@,
            dictation_setting@,
        ),
{
    sm.set_mode(ActivationMode::from_setting(activation_setting));
    sm.set_dictation_mode(DictationMode::from_setting(dictation_setting));
    let prev = sm.state();
    let command = match event {
        Some(e) => sm.handle(e, now_ms),
        None => sm.tick(now_ms),
    };
    let next = sm.state();
    Turn { command, overlay: overlay_event(prev, next) }
}

/// The language sent to the provider: the `auto` setting lets the provider
/// detect it.
pub fn stt_language(setting: &str) -> (l: Option<String>)
    ensures
        setting@ == "auto"@ ==> l is None,
        setting@ != "auto"@ ==> (l matches Some(s) && s@ == setting@),
{
    if str_eq(setting, "auto") {
        None
    } else {
        Some(String::from_str(setting))
    }
}

/// The i18n key of a failed transcription.
pub open spec fn spec_stt_error_key(e: SpeechError) -> Seq<char> {
    match e {
        SpeechError::Auth => "err.stt.auth"@,
        SpeechError::Network => "err.stt.network"@,
        SpeechError::RateLimited => "err.stt.rate"@,
        SpeechError::InvalidAudio => "err.stt.audio"@,
        SpeechError::Provider { .. } => "err.stt.provider"@,
    }
}

/// The event of a failed transcription: its i18n key, whether retrying may
/// help (network or rate limit), and the text of the error.
pub fn transcription_failed(e: &SpeechError) -> (ev: DomainEvent)
    ensures
        ev matches DomainEvent::TranscriptionFailed { error_key, retryable, detail } && error_key@
            == spec_stt_error_key(*e) && retryable == spec_is_transient(*e) && detail@
            == spec_speech_error_message(*e),
        ev matches DomainEvent::TranscriptionFailed { retryable, .. } && retryable == (*e
            == SpeechError::Network || *e == SpeechError::RateLimited),
{
    let key = match e {
        SpeechError::Auth => "err.stt.auth",
        SpeechError::Network => "err.stt.network",
        SpeechError::RateLimited => "err.stt.rate",
        SpeechError::InvalidAudio => "err.stt.audio",
        SpeechError::Provider { .. } => "err.stt.provider",
    };
    DomainEvent::TranscriptionFailed {
        error_key: String::from_str(key),
        retryable: e.is_transient(),
        detail: e.message(),
    }
}

/// The event when no API key is stored for the provider.
pub fn missing_api_key() -> (ev: DomainEvent)
    ensures
        ev matches DomainEvent::TranscriptionFailed { error_key, retryable, detail } && error_key@
            == "err.stt.auth"@ && !retryable && detail@ == "api key no configurada"@,
{
    DomainEvent::TranscriptionFailed {
        error_key: String::from_str("err.stt.auth"),
        retryable: false,
        detail: String::from_str("api key no configurada"),
    }
}

/// The event when the system keyring cannot be read.
pub fn keyring_unavailable(detail: String) -> (ev: DomainEvent)
    ensures
        ev matches DomainEvent::TranscriptionFailed { error_key, retryable, detail: d } && error_key@
            == "err.keyring.unavailable"@ && !retryable && d@ == detail@,
{
    DomainEvent::TranscriptionFailed {
        error_key: String::from_str("err.keyring.unavailable"),
        retryable: false,
        detail,
    }
}

/// The event of a failed recording: the i18n key and text of the error.
pub fn recording_failed(e: &AudioError) -> (ev: DomainEvent)
    ensures
        ev matches DomainEvent::RecordingFailed { error_key, detail } && error_key@
            == spec_audio_error_key(*e) && detail@ == spec_audio_error_message(*e),
{
    DomainEvent::RecordingFailed { error_key: String::from_str(e.error_key()), detail: e.message() }
}

/// The event of a recording that stopped: its duration and its number of
/// samples (as a 32-bit count).
pub fn recording_stopped(audio: &AudioData) -> (ev: DomainEvent)
    requires
        audio.sample_rate > 0,
        audio.samples@.len() * 1000 <= u64::MAX,
    ensures
        ev matches DomainEvent::RecordingStopped { duration_ms, samples } && duration_ms == (
        audio.samples@.len() * 1000) as int / (audio.sample_rate as int) && samples
            == audio.samples@.len() as u32,
{
    DomainEvent::RecordingStopped {
        duration_ms: audio.duration_ms(),
        samples: audio.samples.len() as u32,
    }
}

/// Number of chars of a delivered text (as a 32-bit count).
pub fn char_count(text: &str) -> (n: u32)
    ensures
        n == text@.len() as u32,
{
    text.unicode_len() as u32
}

/// The event that ends a delivery: completed with the mode and the number of
/// chars, or failed with the i18n key of the failure (without fallback).
pub fn delivery_finished(mode: DeliveryMode, chars: u32, failure_key: Option<&str>) -> (ev: DomainEvent)
    ensures
        failure_key is None ==> ev == (DomainEvent::TextDeliveryCompleted { mode, chars }),
        failure_key matches Some(k) ==> (ev matches DomainEvent::TextDeliveryFailed {
            error_key,
            fallback_used,
        } && error_key@ == k@ && !fallback_used),
{
    match failure_key {
        None => DomainEvent::TextDeliveryCompleted { mode, chars },
        Some(k) => DomainEvent::TextDeliveryFailed {
            error_key: String::from_str(k),
            fallback_used: false,
        },
    }
}

/// The overlay opens exactly when a cycle starts, and closes exactly when
/// the cycle comes back to idle — with an error outcome exactly when it
/// ended in `Error`.
pub proof fn law_overlay_follows_the_cycle(prev: CoreState, next: CoreState)
    ensures
        (spec_overlay_event(prev, next) matches Some(DomainEvent::OverlayOpened { .. })) <==> (prev
            == CoreState::Idle && next == CoreState::Recording),
        (spec_overlay_event(prev, next) matches Some(DomainEvent::OverlayClosed { .. })) <==> (prev
            != CoreState::Idle && next == CoreState::Idle),
        spec_overlay_event(prev, next) == Some(
            DomainEvent::OverlayClosed { outcome: OverlayOutcome::Error },
        ) <==> (prev == CoreState::Error && next == CoreState::Idle),
{
}

/// One input of the loop: the event received (or `None` for a tick), the
/// clock, and the activation and dictation settings read for the turn.
pub type LoopInput = (Option<DomainEvent>, u64, Seq<char>, Seq<char>);

/// The turns of the loop over a run of inputs from machine `m`: for each
/// turn, the machine after it, its command and its overlay event.
pub open spec fn loop_trace(m: MachineView, inputs: Seq<LoopInput>) -> Seq<
    (MachineView, CommandView, Option<DomainEvent>),
>
    decreases inputs.len(),
{
    if inputs.len() == 0 {
        Seq::empty()
    } else {
        let t = spec_turn(m, inputs[0].0, inputs[0].1, inputs[0].2, inputs[0].3);
        seq![t] + loop_trace(t.0, inputs.drop_first())
    }
}

/// The machine before turn `k`.
pub open spec fn machine_before(m: MachineView, inputs: Seq<LoopInput>, k: int) -> MachineView {
    if k == 0 {
        m
    } else {
        loop_trace(m, inputs)[k - 1].0
    }
}

/// What turn `x` sends to the user interface, in order: the event it
/// received, then its overlay event.
pub open spec fn emitted(m: MachineView, inputs: Seq<LoopInput>, x: int) -> Seq<DomainEvent> {
    (match inputs[x].0 {
        Some(e) => seq![e],
        None => Seq::empty(),
    }) + (match loop_trace(m, inputs)[x].2 {
        Some(o) => seq![o],
        None => Seq::empty(),
    })
}

/// Events that the loop itself makes for the overlay.
pub open spec fn is_overlay_event(e: DomainEvent) -> bool {
    e is OverlayOpened || e is OverlayClosed
}

/// Events by which the capture reports its end.
pub open spec fn ends_recording(e: DomainEvent) -> bool {
    e is RecordingStopped || e is RecordingFailed
}

proof fn lemma_trace_len(m: MachineView, inputs: Seq<LoopInput>)
    ensures
        loop_trace(m, inputs).len() == inputs.len(),
    decreases inputs.len(),
{
    if inputs.len() > 0 {
        let t = spec_turn(m, inputs[0].0, inputs[0].1, inputs[0].2, inputs[0].3);
        lemma_trace_len(t.0, inputs.drop_first());
    }
}

proof fn lemma_trace_step(m: MachineView, inputs: Seq<LoopInput>, k: int)
    requires
        0 <= k < inputs.len(),
    ensures
        loop_trace(m, inputs).len() == inputs.len(),
        loop_trace(m, inputs)[k] == spec_turn(
            machine_before(m, inputs, k),
            inputs[k].0,
            inputs[k].1,
            inputs[k].2,
            inputs[k].3,
        ),
    decreases inputs.len(),
{
    let t = spec_turn(m, inputs[0].0, inputs[0].1, inputs[0].2, inputs[0].3);
    let rest = inputs.drop_first();
    lemma_trace_len(m, inputs);
    lemma_trace_len(t.0, rest);
    if k > 0 {
        lemma_trace_step(t.0, rest, k - 1);
        assert(rest[k - 1] == inputs[k]);
        if k > 1 {
            assert(loop_trace(m, inputs)[k - 1] == loop_trace(t.0, rest)[k - 2]);
        }
    } else if inputs.len() > 1 {
        lemma_trace_step(t.0, rest, 0);
    }
}

proof fn lemma_recording_holds(m: MachineView, inputs: Seq<LoopInput>, j: int, x: int)
    requires
        0 <= j < x < inputs.len(),
        loop_trace(m, inputs)[j].0.state == CoreState::Recording,
        forall|y: int|
            j < y < x ==> !(#[trigger] inputs[y].0 matches Some(e) && ends_recording(e)),
    ensures
        machine_before(m, inputs, x).state == CoreState::Recording,
        forall|y: int| j < y < x ==> (#[trigger] loop_trace(m, inputs)[y]).2 is None,
    decreases x - j,
{
    if x > j + 1 {
        lemma_recording_holds(m, inputs, j, x - 1);
        lemma_trace_step(m, inputs, x - 1);
        assert(loop_trace(m, inputs)[x - 1].2 is None);
    }
}

/// The recording indicator is on whenever recording is reported. The loop
/// reports `RecordingStarted` only for a capture it started in an earlier
/// turn (the one that ordered `StartRecording`), before that capture can
/// report its end; and overlay events are only made by the loop, never
/// received. Then, in what the loop sends to the user interface, the
/// `RecordingStarted` of turn `k` comes after the `OverlayOpened` of the
/// turn that started the capture, with no `OverlayClosed` in between.
pub proof fn law_recording_shown_before_reported(
    m: MachineView,
    inputs: Seq<LoopInput>,
    k: int,
    start: int,
)
    requires
        0 <= start < k < inputs.len(),
        (inputs[k].0 matches Some(e) && e is RecordingStarted),
        loop_trace(m, inputs)[start].1 == CommandView::StartRecording,
        forall|y: int|
            start < y < k ==> !(#[trigger] inputs[y].0 matches Some(e) && ends_recording(e)),
        forall|y: int|
            0 <= y < inputs.len() ==> !(#[trigger] inputs[y].0 matches Some(e) && is_overlay_event(
                e,
            )),
    ensures
        emitted(m, inputs, start).last() == (DomainEvent::OverlayOpened {
            mode: OverlayMode::Listening,
        }),
        forall|y: int, i: int|
            start < y < k && 0 <= i < emitted(m, inputs, y).len() ==> !(#[trigger] emitted(
                m,
                inputs,
                y,
            )[i] is OverlayClosed),
        emitted(m, inputs, k)[0] == inputs[k].0->0,
{
    lemma_trace_step(m, inputs, start);
    let tr = loop_trace(m, inputs);
    assert(tr[start].0.state == CoreState::Recording);
    assert(machine_before(m, inputs, start).state == CoreState::Idle);
    lemma_recording_holds(m, inputs, start, k);
    assert forall|y: int, i: int|
        start < y < k && 0 <= i < emitted(m, inputs, y).len() implies !(#[trigger] emitted(
            m,
            inputs,
            y,
        )[i] is OverlayClosed) by {
        assert(tr[y].2 is None);
        assert(!(inputs[y].0 matches Some(e) && is_overlay_event(e)));
    }
}

} // verus!

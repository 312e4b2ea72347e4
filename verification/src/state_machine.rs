//! State machine of the dictation cycle. Pure and free of I/O: it receives
//! domain events (and clock ticks) and returns the command that the
//! orchestrator must carry out against audio, speech and delivery. Time always
//! enters as a parameter (`now_ms`).

use vstd::prelude::*;

use crate::events::DomainEvent;

verus! {

/// State of the dictation cycle.
#[derive(Debug, Clone, Copy, PartialEq, Eq, Structural)]
pub enum CoreState {
    Idle,
    Recording,
    Transcribing,
    /// Optional language-model stage; only entered when the dictation mode
    /// is not literal.
    PostProcessing,
    Delivering,
    Error,
}

/// Dictation mode. `Literal` delivers the transcription as is; the other two
/// add a language-model pass.
#[derive(Debug, Clone, Copy, PartialEq, Eq, Structural)]
pub enum DictationMode {
    Literal,
    /// Clean-up with a fixed prompt: filler words, punctuation, wording,
    /// without changing the meaning.
    Mejorado,
    /// The voice is an instruction; the model writes the text to insert.
    Prompt,
}

/// Activation mode of the cycle. In `Ptt` the recording lives while the
/// hotkey is held; in `Toggle` one press starts it and another press, the
/// silence cut or the 120 s limit ends it.
#[derive(Debug, Clone, Copy, PartialEq, Eq, Structural)]
pub enum ActivationMode {
    Ptt,
    Toggle,
}

impl DictationMode {
    /// The mode that a stored setting selects.
    pub open spec fn from_setting_spec(value: Seq<char>) -> DictationMode {
        if value == "mejorado"@ {
            DictationMode::Mejorado
        } else if value == "prompt"@ {
            DictationMode::Prompt
        } else {
            DictationMode::Literal
        }
    }

    /// Maps the stored setting; unknown values fall back to literal (the
    /// language model is never switched on by accident).
    pub fn from_setting(value: &str) -> (mode: DictationMode)
        ensures
            mode == DictationMode::from_setting_spec(value@),
    {
        if crate::text::str_eq(value, "mejorado") {
            DictationMode::Mejorado
        } else if crate::text::str_eq(value, "prompt") {
            DictationMode::Prompt
        } else {
            DictationMode::Literal
        }
    }
}

impl ActivationMode {
    /// The mode that a stored setting selects.
    pub open spec fn from_setting_spec(value: Seq<char>) -> ActivationMode {
        if value == "toggle"@ {
            ActivationMode::Toggle
        } else {
            ActivationMode::Ptt
        }
    }

    /// Maps the stored setting; unknown values fall back to push-to-talk.
    pub fn from_setting(value: &str) -> (mode: ActivationMode)
        ensures
            mode == ActivationMode::from_setting_spec(value@),
    {
        if crate::text::str_eq(value, "toggle") {
            ActivationMode::Toggle
        } else {
            ActivationMode::Ptt
        }
    }
}

impl Default for DictationMode {
    fn default() -> (mode: Self)
        ensures
            mode == DictationMode::Literal,
    {
        DictationMode::Literal
    }
}

impl Default for ActivationMode {
    fn default() -> (mode: Self)
        ensures
            mode == ActivationMode::Ptt,
    {
        ActivationMode::Ptt
    }
}

/// Command that the machine orders after processing an event. The machine
/// decides; the orchestrator performs the I/O and feeds back the resulting
/// event.
#[derive(Debug, Clone, PartialEq, Eq)]
pub enum Command {
    /// Start capturing the microphone (entering `Recording`).
    StartRecording,
    /// Stop the capture; audio answers with `RecordingStopped`.
    StopRecording,
    /// Send the captured audio to the speech provider.
    StartTranscription,
    /// Pass the transcription through the language model.
    StartPostProcessing { text: String },
    /// Deliver the text (clipboard or insertion).
    DeliverText { text: String },
    /// Nothing to do (ignored event or transition without effect).
    NoOp,
}

/// A command as a mathematical value: texts are taken by their chars.
pub enum CommandView {
    StartRecording,
    StopRecording,
    StartTranscription,
    StartPostProcessing { text: Seq<char> },
    DeliverText { text: Seq<char> },
    NoOp,
}

impl View for Command {
    type V = CommandView;

    open spec fn view(&self) -> CommandView {
        match self {
            Command::StartRecording => CommandView::StartRecording,
            Command::StopRecording => CommandView::StopRecording,
            Command::StartTranscription => CommandView::StartTranscription,
            Command::StartPostProcessing { text } => CommandView::StartPostProcessing {
                text: text@,
            },
            Command::DeliverText { text } => CommandView::DeliverText { text: text@ },
            Command::NoOp => CommandView::NoOp,
        }
    }
}

/// Recordings shorter than this are discarded as accidental presses.
pub const MIN_RECORDING_MS: u64 = 300;

/// Longest dictation; when reached, the recording is stopped and what was
/// recorded is transcribed.
pub const MAX_RECORDING_MS: u64 = 120_000;

/// Time spent in `Error` before going back to `Idle`.
pub const ERROR_RESET_MS: u64 = 3_000;

/// The dictation cycle: current state, the instant it was entered, and the
/// modes in force.
#[derive(Debug)]
pub struct StateMachine {
    state: CoreState,
    /// Instant (ms, caller's clock) at which the current state was entered.
    entered_at_ms: u64,
    mode: ActivationMode,
    dictation_mode: DictationMode,
}

/// The machine as a mathematical value.
pub struct MachineView {
    pub state: CoreState,
    pub entered_at_ms: u64,
    pub mode: ActivationMode,
    pub dictation_mode: DictationMode,
}

impl View for StateMachine {
    type V = MachineView;

    closed spec fn view(&self) -> MachineView {
        MachineView {
            state: self.state,
            entered_at_ms: self.entered_at_ms,
            mode: self.mode,
            dictation_mode: self.dictation_mode,
        }
    }
}

/// The machine after entering `next` at `now`.
pub open spec fn enter(m: MachineView, next: CoreState, now: u64) -> MachineView {
    MachineView { state: next, entered_at_ms: now, ..m }
}

/// What handling `event` at `now` does: the machine afterwards and the
/// command to carry out. Events that do not apply to the current state leave
/// the machine as it is and order nothing; this includes a hotkey press
/// during an active cycle.
pub open spec fn spec_handle(m: MachineView, event: DomainEvent, now: u64) -> (MachineView, CommandView) {
    match (m.state, event) {
        (CoreState::Idle, DomainEvent::HotkeyPressed { .. }) => (
            enter(m, CoreState::Recording, now),
            CommandView::StartRecording,
        ),
        (CoreState::Recording, DomainEvent::HotkeyReleased { .. }) => (
            m,
            if m.mode == ActivationMode::Ptt {
                CommandView::StopRecording
            } else {
                CommandView::NoOp
            },
        ),
        (CoreState::Recording, DomainEvent::HotkeyPressed { .. }) => (
            m,
            if m.mode == ActivationMode::Toggle {
                CommandView::StopRecording
            } else {
                CommandView::NoOp
            },
        ),
        (CoreState::Recording, DomainEvent::SilenceDetected { .. }) => (
            m,
            if m.mode == ActivationMode::Toggle {
                CommandView::StopRecording
            } else {
                CommandView::NoOp
            },
        ),
        (CoreState::Recording, DomainEvent::RecordingStopped { duration_ms, .. }) => {
            if duration_ms < MIN_RECORDING_MS {
                (enter(m, CoreState::Idle, now), CommandView::NoOp)
            } else {
                (enter(m, CoreState::Transcribing, now), CommandView::StartTranscription)
            }
        },
        (CoreState::Recording, DomainEvent::RecordingFailed { .. }) => (
            enter(m, CoreState::Error, now),
            CommandView::NoOp,
        ),
        (CoreState::Transcribing, DomainEvent::TranscriptionCompleted { text, .. }) => {
            if m.dictation_mode == DictationMode::Literal {
                (enter(m, CoreState::Delivering, now), CommandView::DeliverText { text: text@ })
            } else {
                (
                    enter(m, CoreState::PostProcessing, now),
                    CommandView::StartPostProcessing { text: text@ },
                )
            }
        },
        (CoreState::Transcribing, DomainEvent::TranscriptionFailed { .. }) => (
            enter(m, CoreState::Error, now),
            CommandView::NoOp,
        ),
        (CoreState::PostProcessing, DomainEvent::PostProcessingCompleted { text, .. }) => (
            enter(m, CoreState::Delivering, now),
            CommandView::DeliverText { text: text@ },
        ),
        (CoreState::Delivering, DomainEvent::TextDeliveryCompleted { .. }) => (
            enter(m, CoreState::Idle, now),
            CommandView::NoOp,
        ),
        (CoreState::Delivering, DomainEvent::TextDeliveryFailed { .. }) => (
            enter(m, CoreState::Error, now),
            CommandView::NoOp,
        ),
        _ => (m, CommandView::NoOp),
    }
}

/// Time elapsed since the current state was entered (zero if the clock went
/// backwards).
pub open spec fn spec_elapsed(m: MachineView, now: u64) -> int {
    if now >= m.entered_at_ms {
        now - m.entered_at_ms
    } else {
        0
    }
}

/// What a clock tick at `now` does: it stops a recording that reached the
/// maximum length (the state changes only when audio confirms the stop) and
/// brings `Error` back to `Idle` once its time is up.
pub open spec fn spec_tick(m: MachineView, now: u64) -> (MachineView, CommandView) {
    if m.state == CoreState::Recording && spec_elapsed(m, now) >= MAX_RECORDING_MS {
        (m, CommandView::StopRecording)
    } else if m.state == CoreState::Error && spec_elapsed(m, now) >= ERROR_RESET_MS {
        (enter(m, CoreState::Idle, now), CommandView::NoOp)
    } else {
        (m, CommandView::NoOp)
    }
}

impl StateMachine {
    /// A machine at rest, in push-to-talk and literal modes.
    pub fn new() -> (sm: StateMachine)
        ensures
            sm@ == (MachineView {
                state: CoreState::Idle,
                entered_at_ms: 0,
                mode: ActivationMode::Ptt,
                dictation_mode: DictationMode::Literal,
            }),
    {
        StateMachine {
            state: CoreState::Idle,
            entered_at_ms: 0,
            mode: ActivationMode::Ptt,
            dictation_mode: DictationMode::Literal,
        }
    }

    /// Current state of the cycle.
    pub fn state(&self) -> (s: CoreState)
        ensures
            s == self@.state,
    {
        self.state
    }

    /// Sets the activation mode; changing it mid-cycle only changes which
    /// triggers stop the recording.
    pub fn set_mode(&mut self, mode: ActivationMode)
        ensures
            final(self)@ == (MachineView { mode, ..old(self)@ }),
    {
        self.mode = mode;
    }

    /// Sets the dictation mode, which decides whether the transcription goes
    /// through the language model.
    pub fn set_dictation_mode(&mut self, mode: DictationMode)
        ensures
            final(self)@ == (MachineView { dictation_mode: mode, ..old(self)@ }),
    {
        self.dictation_mode = mode;
    }

    fn transition(&mut self, next: CoreState, now_ms: u64)
        ensures
            final(self)@ == enter(old(self)@, next, now_ms),
    {
        self.state = next;
        self.entered_at_ms = now_ms;
    }

    /// Processes a domain event and returns the command to carry out.
    pub fn handle(&mut self, event: &DomainEvent, now_ms: u64) -> (cmd: Command)
        ensures
            (final(self)@, cmd@) == spec_handle(old(self)@, *event, now_ms),
            old(self)@.state == CoreState::Idle && *event is HotkeyPressed ==> final(self)@.state
                == CoreState::Recording && final(self)@.entered_at_ms == now_ms && cmd is StartRecording,
    {
        match (self.state, event) {
            (CoreState::Idle, DomainEvent::HotkeyPressed { .. }) => {
                self.transition(CoreState::Recording, now_ms);
                Command::StartRecording
            },
            (CoreState::Recording, DomainEvent::HotkeyReleased { .. }) => match self.mode {
                ActivationMode::Ptt => Command::StopRecording,
                ActivationMode::Toggle => Command::NoOp,
            },
            (CoreState::Recording, DomainEvent::HotkeyPressed { .. }) => match self.mode {
                ActivationMode::Toggle => Command::StopRecording,
                ActivationMode::Ptt => Command::NoOp,
            },
            (CoreState::Recording, DomainEvent::SilenceDetected { .. }) => match self.mode {
                ActivationMode::Toggle => Command::StopRecording,
                ActivationMode::Ptt => Command::NoOp,
            },
            (CoreState::Recording, DomainEvent::RecordingStopped { duration_ms, .. }) => {
                if *duration_ms < MIN_RECORDING_MS {
                    self.transition(CoreState::Idle, now_ms);
                    Command::NoOp
                } else {
                    self.transition(CoreState::Transcribing, now_ms);
                    Command::StartTranscription
                }
            },
            (CoreState::Recording, DomainEvent::RecordingFailed { .. }) => {
                self.transition(CoreState::Error, now_ms);
                Command::NoOp
            },
            (CoreState::Transcribing, DomainEvent::TranscriptionCompleted { text, .. }) => {
                match self.dictation_mode {
                    DictationMode::Literal => {
                        self.transition(CoreState::Delivering, now_ms);
                        Command::DeliverText { text: text.clone() }
                    },
                    DictationMode::Mejorado | DictationMode::Prompt => {
                        self.transition(CoreState::PostProcessing, now_ms);
                        Command::StartPostProcessing { text: text.clone() }
                    },
                }
            },
            (CoreState::Transcribing, DomainEvent::TranscriptionFailed { .. }) => {
                self.transition(CoreState::Error, now_ms);
                Command::NoOp
            },
            (CoreState::PostProcessing, DomainEvent::PostProcessingCompleted { text, .. }) => {
                self.transition(CoreState::Delivering, now_ms);
                Command::DeliverText { text: text.clone() }
            },
            (CoreState::Delivering, DomainEvent::TextDeliveryCompleted { .. }) => {
                self.transition(CoreState::Idle, now_ms);
                Command::NoOp
            },
            (CoreState::Delivering, DomainEvent::TextDeliveryFailed { .. }) => {
                self.transition(CoreState::Error, now_ms);
                Command::NoOp
            },
            _ => Command::NoOp,
        }
    }

    /// Periodic tick: applies the time limits of the cycle.
    pub fn tick(&mut self, now_ms: u64) -> (cmd: Command)
        ensures
            (final(self)@, cmd@) == spec_tick(old(self)@, now_ms),
    {
        let elapsed = now_ms.saturating_sub(self.entered_at_ms);
        match self.state {
            CoreState::Recording => {
                if elapsed >= MAX_RECORDING_MS {
                    Command::StopRecording
                } else {
                    Command::NoOp
                }
            },
            CoreState::Error => {
                if elapsed >= ERROR_RESET_MS {
                    self.transition(CoreState::Idle, now_ms);
                }
                Command::NoOp
            },
            _ => Command::NoOp,
        }
    }
}

impl Default for StateMachine {
    fn default() -> (sm: Self)
        ensures
            sm@ == (MachineView {
                state: CoreState::Idle,
                entered_at_ms: 0,
                mode: ActivationMode::Ptt,
                dictation_mode: DictationMode::Literal,
            }),
    {
        Self::new()
    }
}

} // verus!

verus! {

/// The states that one step of the cycle may lead to from `from`:
/// Idle → Recording → (Idle | Transcribing | Error), Transcribing →
/// (PostProcessing | Delivering | Error), PostProcessing → Delivering,
/// Delivering → (Idle | Error), Error → Idle; or staying put.
pub open spec fn allowed_step(from: CoreState, to: CoreState) -> bool {
    ||| from == to
    ||| from == CoreState::Idle && to == CoreState::Recording
    ||| from == CoreState::Recording && (to == CoreState::Idle || to == CoreState::Transcribing
        || to == CoreState::Error)
    ||| from == CoreState::Transcribing && (to == CoreState::PostProcessing || to
        == CoreState::Delivering || to == CoreState::Error)
    ||| from == CoreState::PostProcessing && to == CoreState::Delivering
    ||| from == CoreState::Delivering && (to == CoreState::Idle || to == CoreState::Error)
    ||| from == CoreState::Error && to == CoreState::Idle
}

/// Every event and every tick moves the cycle along its documented graph
/// only, and never changes the activation or dictation mode.
pub proof fn law_steps_follow_the_cycle(m: MachineView, event: DomainEvent, now: u64)
    ensures
        allowed_step(m.state, spec_handle(m, event, now).0.state),
        allowed_step(m.state, spec_tick(m, now).0.state),
        spec_handle(m, event, now).0.mode == m.mode,
        spec_handle(m, event, now).0.dictation_mode == m.dictation_mode,
        spec_tick(m, now).0.mode == m.mode,
        spec_tick(m, now).0.dictation_mode == m.dictation_mode,
{
}

/// A hotkey press during an active cycle is ignored: the machine stays as it
/// is and nothing is ordered, except in toggle mode while recording, where
/// the second press stops the recording (still without changing state).
pub proof fn law_hotkey_reentry_is_ignored(m: MachineView, timestamp: i64, now: u64)
    requires
        m.state != CoreState::Idle,
    ensures
        spec_handle(m, DomainEvent::HotkeyPressed { timestamp }, now).0 == m,
        spec_handle(m, DomainEvent::HotkeyPressed { timestamp }, now).1 == (
        if m.state == CoreState::Recording && m.mode == ActivationMode::Toggle {
            CommandView::StopRecording
        } else {
            CommandView::NoOp
        }),
{
}

/// A recording shorter than the minimum goes back to idle without ever
/// calling the speech provider.
pub proof fn law_short_recording_is_discarded(m: MachineView, duration_ms: u64, samples: u32, now: u64)
    requires
        m.state == CoreState::Recording,
        duration_ms < MIN_RECORDING_MS,
    ensures
        spec_handle(m, DomainEvent::RecordingStopped { duration_ms, samples }, now) == (
        enter(m, CoreState::Idle, now), CommandView::NoOp),
{
}

/// Transcription is ordered only when a recording of at least the minimum
/// length has stopped.
pub proof fn law_transcription_needs_long_enough_recording(m: MachineView, event: DomainEvent, now: u64)
    requires
        spec_handle(m, event, now).1 == CommandView::StartTranscription,
    ensures
        m.state == CoreState::Recording,
        event matches DomainEvent::RecordingStopped { duration_ms, .. } && duration_ms
            >= MIN_RECORDING_MS,
        spec_handle(m, event, now).0.state == CoreState::Transcribing,
{
}

/// Recording starts only from idle, on a hotkey press.
pub proof fn law_recording_starts_only_from_idle(m: MachineView, event: DomainEvent, now: u64)
    ensures
        (spec_handle(m, event, now).1 == CommandView::StartRecording) <==> (m.state
            == CoreState::Idle && event is HotkeyPressed),
        spec_tick(m, now).1 != CommandView::StartRecording,
{
}

/// In idle, every event but a hotkey press is ignored.
pub proof fn law_idle_ignores_other_events(m: MachineView, event: DomainEvent, now: u64)
    requires
        m.state == CoreState::Idle,
        !(event is HotkeyPressed),
    ensures
        spec_handle(m, event, now) == (m, CommandView::NoOp),
{
}

/// In literal mode the language model is never reached: the cycle never
/// enters post-processing and never orders it.
pub proof fn law_literal_mode_skips_the_language_model(m: MachineView, event: DomainEvent, now: u64)
    requires
        m.dictation_mode == DictationMode::Literal,
        m.state != CoreState::PostProcessing,
    ensures
        spec_handle(m, event, now).0.state != CoreState::PostProcessing,
        !(spec_handle(m, event, now).1 is StartPostProcessing),
        spec_tick(m, now).0.state != CoreState::PostProcessing,
{
}

/// A failure notice of the language model does not break the cycle: the
/// machine keeps waiting for the (possibly degraded) completion.
pub proof fn law_language_model_failure_keeps_the_cycle(
    m: MachineView,
    error_key: String,
    retryable: bool,
    detail: String,
    now: u64,
)
    requires
        m.state == CoreState::PostProcessing,
    ensures
        spec_handle(m, DomainEvent::PostProcessingFailed { error_key, retryable, detail }, now)
            == (m, CommandView::NoOp),
{
}

/// The text handed to delivery is exactly the transcription in literal mode,
/// and exactly the post-processed text otherwise.
pub proof fn law_delivered_text_is_the_received_text(m: MachineView, event: DomainEvent, now: u64)
    ensures
        spec_handle(m, event, now).1 matches CommandView::DeliverText { text } ==> {
            ||| {
                &&& m.state == CoreState::Transcribing
                &&& m.dictation_mode == DictationMode::Literal
                &&& event matches DomainEvent::TranscriptionCompleted { text: t, .. }
                &&& t@ == text
            }
            ||| {
                &&& m.state == CoreState::PostProcessing
                &&& event matches DomainEvent::PostProcessingCompleted { text: t, .. }
                &&& t@ == text
            }
        },
{
}

/// A tick changes the state only by bringing `Error` back to `Idle`, which
/// happens exactly when the error has lasted its reset time; its only order
/// is stopping a recording that reached the maximum length.
pub proof fn law_tick_only_applies_time_limits(m: MachineView, now: u64)
    ensures
        spec_tick(m, now).0 == m || (m.state == CoreState::Error && spec_tick(m, now).0 == enter(
            m,
            CoreState::Idle,
            now,
        )),
        m.state == CoreState::Error ==> (spec_tick(m, now).0.state == CoreState::Idle <==> spec_elapsed(
            m,
            now,
        ) >= ERROR_RESET_MS),
        spec_tick(m, now).1 == CommandView::StopRecording || spec_tick(m, now).1
            == CommandView::NoOp,
        spec_tick(m, now).1 == CommandView::StopRecording <==> (m.state == CoreState::Recording
            && spec_elapsed(m, now) >= MAX_RECORDING_MS),
{
}

/// A hotkey press in idle at `t` starts a recording whose clock starts at
/// `t`, keeping the modes; so the 120 s limit is counted from the press: a
/// tick before `t + 120 000` ms orders nothing and changes nothing, and a
/// tick from then on orders the stop.
pub proof fn law_press_starts_the_recording_clock(
    m: MachineView,
    timestamp: i64,
    t: u64,
    later: u64,
)
    requires
        m.state == CoreState::Idle,
    ensures
        spec_handle(m, DomainEvent::HotkeyPressed { timestamp }, t) == (
        MachineView {
            state: CoreState::Recording,
            entered_at_ms: t,
            mode: m.mode,
            dictation_mode: m.dictation_mode,
        },
        CommandView::StartRecording),
        ({
            let r = spec_handle(m, DomainEvent::HotkeyPressed { timestamp }, t).0;
            &&& (t <= later && later < t + 120_000) ==> spec_tick(r, later) == (r, CommandView::NoOp)
            &&& later >= t + 120_000 ==> spec_tick(r, later) == (r, CommandView::StopRecording)
        }),
{
}

/// No tick stops a recording before 120 000 ms have passed since the
/// recording was entered.
pub proof fn law_no_early_stop(m: MachineView, now: u64)
    requires
        m.state == CoreState::Recording,
        now < m.entered_at_ms + 120_000,
    ensures
        spec_tick(m, now) == (m, CommandView::NoOp),
{
}

} // verus!

//! What the commands of the user interface answer: errors as
//! `{ code, error_key }`, the masked state of an API key, the name of the
//! cycle state, and the i18n keys of provider failures.

use vstd::prelude::*;

use crate::hotkeys::{spec_hotkey_error_key, spec_hotkey_error_message, HotkeyError};
use crate::speech::SpeechError;
use crate::config::GeneralSettings;
use crate::state_machine::CoreState;
use crate::text::{chars_of, push_char, trim, trim_seq};

verus! {

/// Error at the command boundary: `code` for the logs, `error_key` for the
/// user interface to look up in its message catalogue.
#[derive(Debug, Clone, PartialEq, Eq)]
pub struct IpcError {
    pub code: String,
    pub error_key: String,
}

impl IpcError {
    pub fn new(code: &str, error_key: &str) -> (e: IpcError)
        ensures
            e.code@ == code@,
            e.error_key@ == error_key@,
    {
        IpcError { code: String::from_str(code), error_key: String::from_str(error_key) }
    }
}

/// The command error for a hotkey error: its text and its i18n key.
pub fn hotkey_ipc_error(e: &HotkeyError) -> (r: IpcError)
    ensures
        r.code@ == spec_hotkey_error_message(*e),
        r.error_key@ == spec_hotkey_error_key(*e),
{
    IpcError { code: e.message(), error_key: String::from_str(e.error_key()) }
}

/// State of a provider's API key for the user interface: never the whole
/// key.
#[derive(Debug, Clone, PartialEq, Eq)]
pub struct ApiKeyStatus {
    pub is_set: bool,
    pub masked: Option<String>,
}

/// The i18n key that the settings commands show for a failed provider call
/// (testing the credentials, listing the models).
pub open spec fn spec_stt_command_error_key(e: SpeechError) -> Seq<char> {
    match e {
        SpeechError::Auth => "err.stt.auth"@,
        SpeechError::Network => "err.stt.network"@,
        SpeechError::RateLimited => "err.stt.rate"@,
        _ => "err.stt.provider"@,
    }
}

/// i18n key of a failed provider call in the settings commands.
pub fn stt_command_error_key(e: &SpeechError) -> (k: &'static str)
    ensures
        k@ == spec_stt_command_error_key(*e),
{
    match e {
        SpeechError::Auth => "err.stt.auth",
        SpeechError::Network => "err.stt.network",
        SpeechError::RateLimited => "err.stt.rate",
        _ => "err.stt.provider",
    }
}

/// The name of each cycle state, as the user interface asks for it.
pub open spec fn spec_state_name(s: CoreState) -> Seq<char> {
    match s {
        CoreState::Idle => "idle"@,
        CoreState::Recording => "recording"@,
        CoreState::Transcribing => "transcribing"@,
        CoreState::PostProcessing => "postprocessing"@,
        CoreState::Delivering => "delivering"@,
        CoreState::Error => "error"@,
    }
}

/// Name of the cycle state for the user interface.
pub fn state_name(s: CoreState) -> (n: String)
    ensures
        n@ == spec_state_name(s),
{
    match s {
        CoreState::Idle => String::from_str("idle"),
        CoreState::Recording => String::from_str("recording"),
        CoreState::Transcribing => String::from_str("transcribing"),
        CoreState::PostProcessing => String::from_str("postprocessing"),
        CoreState::Delivering => String::from_str("delivering"),
        CoreState::Error => String::from_str("error"),
    }
}

/// What the user interface shows of an API key: a fixed mask followed by
/// the last four characters of the key (all of it when shorter).
pub open spec fn spec_masked_key(key: Seq<char>) -> Seq<char> {
    let start = if key.len() > 4 {
        key.len() - 4
    } else {
        0
    };
    "••••"@ + key.subrange(start, key.len() as int)
}

/// Masks an API key for display: never the whole key, only its last four
/// characters behind a fixed mask.
pub fn mask_api_key(key: &str) -> (m: String)
    ensures
        m@ == spec_masked_key(key@),
{
    let v = chars_of(key);
    let n: usize = v.len();
    let start: usize = if n > 4 {
        n - 4
    } else {
        0
    };
    let mut m = String::from_str("••••");
    let ghost mask = m@;
    let mut i: usize = start;
    while i < n
        invariant
            n == key@.len(),
            v@ == key@,
            start <= i <= n,
            start == (if n > 4 { n - 4 } else { 0 }),
            mask == "••••"@,
            m@ == mask + key@.subrange(start as int, i as int),
        decreases n - i,
    {
        push_char(&mut m, v[i]);
        assert(key@.subrange(start as int, i + 1) =~= key@.subrange(start as int, i as int).push(
            v@[i as int],
        ));
        i = i + 1;
    }
    m
}

/// What storing an API key typed by the user does: the key without
/// surrounding white space is stored; an empty one deletes the stored key
/// (`None`).
pub fn api_key_to_store(key: &str) -> (r: Option<String>)
    ensures
        trim_seq(key@).len() == 0 ==> r is None,
        trim_seq(key@).len() > 0 ==> (r matches Some(k) && k@ == trim_seq(key@)),
{
    let t = trim(key);
    if t.unicode_len() == 0 {
        None
    } else {
        Some(t)
    }
}

/// What saving new settings must apply besides storing them: whether the
/// operating system's autostart must be reconciled, and whether the hotkey
/// must be registered again.
pub struct SettingsChanges {
    pub autostart_changed: bool,
    pub hotkey_changed: bool,
}

/// Compares the general settings in force with the new ones.
pub fn settings_changes(previous: &GeneralSettings, next: &GeneralSettings) -> (c: SettingsChanges)
    ensures
        c.autostart_changed == (previous.autostart != next.autostart),
        c.hotkey_changed == (previous.hotkey@ != next.hotkey@),
{
    SettingsChanges {
        autostart_changed: previous.autostart != next.autostart,
        hotkey_changed: previous.hotkey != next.hotkey,
    }
}

/// Reconciling the operating system's autostart with the setting (the
/// setting is the source of truth): nothing to do when they agree, else
/// enable (`Some(true)`) or disable (`Some(false)`).
pub fn autostart_action(enabled: bool, want: bool) -> (a: Option<bool>)
    ensures
        enabled == want ==> a is None,
        enabled != want ==> a == Some(want),
{
    if enabled == want {
        None
    } else {
        Some(want)
    }
}

} // verus!

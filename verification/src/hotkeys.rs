//! Errors of the global hotkey registration, as the user interface shows
//! them.

use vstd::prelude::*;

use crate::text::concat_str;

verus! {

/// Failure to parse or register an accelerator.
#[derive(Debug, Clone, PartialEq, Eq)]
pub enum HotkeyError {
    InvalidAccelerator(String),
    Register(String),
}

/// The i18n key of each hotkey error.
pub open spec fn spec_hotkey_error_key(e: HotkeyError) -> Seq<char> {
    match e {
        HotkeyError::InvalidAccelerator(_) => "err.hotkey.invalid"@,
        HotkeyError::Register(_) => "err.hotkey.register"@,
    }
}

/// The text of each hotkey error.
pub open spec fn spec_hotkey_error_message(e: HotkeyError) -> Seq<char> {
    match e {
        HotkeyError::InvalidAccelerator(d) => "acelerador inválido: "@ + d@,
        HotkeyError::Register(d) => "registro falló: "@ + d@,
    }
}

impl HotkeyError {
    /// i18n key for the user interface (`err.*` catalogue).
    pub fn error_key(&self) -> (k: &'static str)
        ensures
            k@ == spec_hotkey_error_key(*self),
    {
        match self {
            HotkeyError::InvalidAccelerator(_) => "err.hotkey.invalid",
            HotkeyError::Register(_) => "err.hotkey.register",
        }
    }

    /// The text of the error.
    pub fn message(&self) -> (s: String)
        ensures
            s@ == spec_hotkey_error_message(*self),
    {
        match self {
            HotkeyError::InvalidAccelerator(d) => concat_str("acelerador inválido: ", d.as_str()),
            HotkeyError::Register(d) => concat_str("registro falló: ", d.as_str()),
        }
    }
}

/// The detail of an accelerator that does not parse: `{accelerator}: {reason}`.
pub fn invalid_accelerator(accelerator: &str, reason: &str) -> (e: HotkeyError)
    ensures
        e matches HotkeyError::InvalidAccelerator(d) && d@ == accelerator@ + ": "@ + reason@,
{
    let mut d = concat_str(accelerator, ": ");
    d.append(reason);
    HotkeyError::InvalidAccelerator(d)
}

} // verus!

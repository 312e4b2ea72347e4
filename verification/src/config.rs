//! Settings model, versioned by `schema_version`, with its documented
//! defaults.

use std::collections::HashMap;

use vstd::prelude::*;

verus! {

/// Current version of the settings schema.
pub const CURRENT_SCHEMA_VERSION: u32 = 1;

/// All settings.
#[derive(Debug, Clone, PartialEq)]
pub struct Settings {
    pub schema_version: u32,
    pub general: GeneralSettings,
    pub stt: SttSettings,
    pub delivery: DeliverySettings,
}

/// General settings.
#[derive(Debug, Clone, PartialEq)]
pub struct GeneralSettings {
    pub ui_language: String,
    pub hotkey: String,
    pub autostart: bool,
    pub start_minimized: bool,
    pub output_mode: String,
    /// Overlay position in physical pixels; `None` = bottom centre.
    pub overlay_position: Option<OverlayPos>,
}

/// Stored overlay position (physical pixels of the monitor).
#[derive(Debug, Clone, Copy, PartialEq, Eq, Structural)]
pub struct OverlayPos {
    pub x: i32,
    pub y: i32,
}

/// Speech-to-text settings.
#[derive(Debug, Clone, PartialEq)]
pub struct SttSettings {
    pub provider: String,
    pub model: String,
    pub language: String,
}

/// Delivery settings.
#[derive(Debug, Clone, PartialEq)]
pub struct DeliverySettings {
    pub paste_combo_overrides: HashMap<String, String>,
    pub fallback_typing: bool,
}

pub fn default_schema_version() -> (v: u32)
    ensures
        v == CURRENT_SCHEMA_VERSION,
{
    CURRENT_SCHEMA_VERSION
}

pub fn default_ui_language() -> (s: String)
    ensures
        s@ == "es"@,
{
    String::from_str("es")
}

pub fn default_hotkey() -> (s: String)
    ensures
        s@ == "Ctrl+Super+Space"@,
{
    String::from_str("Ctrl+Super+Space")
}

pub fn default_true() -> (b: bool)
    ensures
        b,
{
    true
}

/// The documented default is `insert`.
pub fn default_output_mode() -> (s: String)
    ensures
        s@ == "insert"@,
{
    String::from_str("insert")
}

pub fn default_provider() -> (s: String)
    ensures
        s@ == "openai"@,
{
    String::from_str("openai")
}

pub fn default_model() -> (s: String)
    ensures
        s@ == "gpt-4o-mini-transcribe"@,
{
    String::from_str("gpt-4o-mini-transcribe")
}

pub fn default_stt_language() -> (s: String)
    ensures
        s@ == "auto"@,
{
    String::from_str("auto")
}

impl GeneralSettings {
    /// The documented defaults of the general settings.
    pub open spec fn is_default(&self) -> bool {
        &&& self.ui_language@ == "es"@
        &&& self.hotkey@ == "Ctrl+Super+Space"@
        &&& !self.autostart
        &&& self.start_minimized
        &&& self.output_mode@ == "insert"@
        &&& self.overlay_position is None
    }
}

impl SttSettings {
    /// The documented defaults of the speech-to-text settings.
    pub open spec fn is_default(&self) -> bool {
        &&& self.provider@ == "openai"@
        &&& self.model@ == "gpt-4o-mini-transcribe"@
        &&& self.language@ == "auto"@
    }
}

impl DeliverySettings {
    /// The defaults of the delivery settings: no overrides, no typing
    /// fallback.
    pub open spec fn is_default(&self) -> bool {
        &&& self.paste_combo_overrides@ == Map::<String, String>::empty()
        &&& !self.fallback_typing
    }
}

impl Default for GeneralSettings {
    fn default() -> (s: Self)
        ensures
            s.is_default(),
    {
        GeneralSettings {
            ui_language: default_ui_language(),
            hotkey: default_hotkey(),
            autostart: false,
            start_minimized: default_true(),
            output_mode: default_output_mode(),
            overlay_position: None,
        }
    }
}

impl Default for SttSettings {
    fn default() -> (s: Self)
        ensures
            s.is_default(),
    {
        SttSettings {
            provider: default_provider(),
            model: default_model(),
            language: default_stt_language(),
        }
    }
}

impl Default for DeliverySettings {
    fn default() -> (s: Self)
        ensures
            s.is_default(),
    {
        DeliverySettings { paste_combo_overrides: HashMap::new(), fallback_typing: false }
    }
}

impl Default for Settings {
    fn default() -> (s: Self)
        ensures
            s.schema_version == CURRENT_SCHEMA_VERSION,
            s.general.is_default(),
            s.stt.is_default(),
            s.delivery.is_default(),
    {
        Settings {
            schema_version: CURRENT_SCHEMA_VERSION,
            general: GeneralSettings::default(),
            stt: SttSettings::default(),
            delivery: DeliverySettings::default(),
        }
    }
}

} // verus!

//! How a finished dictation reaches the user: inserted into the focused
//! application, or left on the clipboard.

use vstd::prelude::*;

verus! {

/// Delivery mode of the dictated text.
#[derive(Debug, Clone, Copy, PartialEq, Eq, Structural)]
pub enum DeliveryMode {
    Insert,
    Clipboard,
}

impl DeliveryMode {
    /// Maps the `general.output_mode` setting: `insert` inserts into the
    /// focused application; any other value falls back to the clipboard.
    pub fn from_setting(value: &str) -> (mode: DeliveryMode)
        ensures
            mode == (if value@ == "insert"@ {
                DeliveryMode::Insert
            } else {
                DeliveryMode::Clipboard
            }),
    {
        if crate::text::str_eq(value, "insert") {
            DeliveryMode::Insert
        } else {
            DeliveryMode::Clipboard
        }
    }
}

} // verus!

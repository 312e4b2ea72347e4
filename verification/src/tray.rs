//! Texts of the system tray menu, localized by the interface language (the
//! menu is native and does not go through the interface message catalogue).

use vstd::prelude::*;

use crate::text::str_eq;

verus! {

/// Labels of the tray menu.
pub struct TrayLabels {
    pub settings: &'static str,
    pub quit: &'static str,
}

/// English for `en`, Spanish for any other language.
pub fn labels(ui_language: &str) -> (l: TrayLabels)
    ensures
        ui_language@ == "en"@ ==> l.settings@ == "Settings"@ && l.quit@ == "Quit"@,
        ui_language@ != "en"@ ==> l.settings@ == "Configuración"@ && l.quit@ == "Salir"@,
{
    if str_eq(ui_language, "en") {
        TrayLabels { settings: "Settings", quit: "Quit" }
    } else {
        TrayLabels { settings: "Configuración", quit: "Salir" }
    }
}

} // verus!

//! Decision logic of a voice-dictation assistant: the dictation cycle state
//! machine, the silence cut of the voice detector, provider model catalogs,
//! usage accounting and the texts and error keys shown to the user.

pub mod audio;
pub mod config;
pub mod delivery;
pub mod events;
pub mod hotkeys;
pub mod ipc;
pub mod llm;
pub mod orchestrator;
pub mod prompts;
pub mod providers;
pub mod speech;
pub mod state_machine;
pub mod text;
pub mod tray;
pub mod updater;
pub mod usage;
pub mod vad;

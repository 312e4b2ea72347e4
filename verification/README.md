# voicetext

Push-to-talk dictation: hold a global hotkey (or toggle it and let the voice
detector cut on silence), speak, and the text is transcribed by a
speech-to-text provider (OpenAI or Groq), optionally improved by a language
model, and pasted into the active application or left in the clipboard.

## Layout

- `src/` — the library, verified with Verus:
  - `state_machine` — the dictation cycle (idle, recording, transcribing,
    post-processing, delivering, error), its time limits and its laws;
  - `orchestrator` — one step of the dictation loop and the events it
    reports;
  - `vad` — the silence cut of toggle mode;
  - `audio` — capture limits, durations and WAV encoding;
  - `providers`, `llm`, `prompts`, `speech` — what provider replies mean,
    the retry policy, the model catalogue and the language-model prompts;
  - `usage` — the local ledger of estimated costs and its rates;
  - `config`, `ipc`, `hotkeys`, `tray`, `updater`, `delivery`, `events`,
    `text` — settings defaults, command decisions, errors and helpers.
- `tests/` — tests of the library.
- `app/` — the desktop shell (Tauri windows, tray, hotkey registration,
  microphone capture, HTTP, files): it performs the I/O and asks the library
  for every decision.

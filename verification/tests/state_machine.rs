use voicetext::delivery::DeliveryMode;
use voicetext::events::DomainEvent;
use voicetext::state_machine::{
    ActivationMode, Command, CoreState, DictationMode, StateMachine, ERROR_RESET_MS,
    MAX_RECORDING_MS, MIN_RECORDING_MS,
};

fn hotkey_pressed() -> DomainEvent {
    DomainEvent::HotkeyPressed { timestamp: 0 }
}

fn recording_stopped(duration_ms: u64) -> DomainEvent {
    DomainEvent::RecordingStopped {
        duration_ms,
        samples: 1_000,
    }
}

fn transcription_completed(text: &str) -> DomainEvent {
    DomainEvent::TranscriptionCompleted {
        text: text.into(),
        latency_ms: 500,
        provider_id: "openai".into(),
    }
}

#[test]
fn ciclo_feliz_completo() {
    let mut sm = StateMachine::new();
    assert_eq!(sm.state(), CoreState::Idle);

    assert_eq!(sm.handle(&hotkey_pressed(), 0), Command::StartRecording);
    assert_eq!(sm.state(), CoreState::Recording);

    assert_eq!(
        sm.handle(&DomainEvent::HotkeyReleased { timestamp: 4_000 }, 4_000),
        Command::StopRecording
    );
    assert_eq!(sm.state(), CoreState::Recording);

    assert_eq!(
        sm.handle(&recording_stopped(4_000), 4_050),
        Command::StartTranscription
    );
    assert_eq!(sm.state(), CoreState::Transcribing);

    assert_eq!(
        sm.handle(&transcription_completed("hola mundo"), 5_000),
        Command::DeliverText {
            text: "hola mundo".into()
        }
    );
    assert_eq!(sm.state(), CoreState::Delivering);

    assert_eq!(
        sm.handle(
            &DomainEvent::TextDeliveryCompleted {
                mode: DeliveryMode::Clipboard,
                chars: 10,
            },
            5_100,
        ),
        Command::NoOp
    );
    assert_eq!(sm.state(), CoreState::Idle);
}

#[test]
fn grabacion_corta_se_descarta_sin_transcribir() {
    let mut sm = StateMachine::new();
    sm.handle(&hotkey_pressed(), 0);
    assert_eq!(
        sm.handle(&recording_stopped(MIN_RECORDING_MS - 1), 300),
        Command::NoOp
    );
    assert_eq!(sm.state(), CoreState::Idle);
}

#[test]
fn hotkey_durante_ciclo_activo_se_ignora() {
    let mut sm = StateMachine::new();
    sm.handle(&hotkey_pressed(), 0);
    assert_eq!(sm.handle(&hotkey_pressed(), 100), Command::NoOp);
    assert_eq!(sm.state(), CoreState::Recording);

    sm.handle(&recording_stopped(1_000), 1_000);
    assert_eq!(sm.handle(&hotkey_pressed(), 1_100), Command::NoOp);
    assert_eq!(sm.state(), CoreState::Transcribing);
}

#[test]
fn fallo_de_grabacion_va_a_error_y_vuelve_a_idle_por_timeout() {
    let mut sm = StateMachine::new();
    sm.handle(&hotkey_pressed(), 0);
    sm.handle(
        &DomainEvent::RecordingFailed {
            error_key: "err.audio.device".into(),
            detail: "no device".into(),
        },
        1_000,
    );
    assert_eq!(sm.state(), CoreState::Error);

    assert_eq!(sm.tick(1_000 + ERROR_RESET_MS - 1), Command::NoOp);
    assert_eq!(sm.state(), CoreState::Error);

    sm.tick(1_000 + ERROR_RESET_MS);
    assert_eq!(sm.state(), CoreState::Idle);
    assert_eq!(sm.handle(&hotkey_pressed(), 10_000), Command::StartRecording);
}

#[test]
fn fallo_de_transcripcion_va_a_error() {
    let mut sm = StateMachine::new();
    sm.handle(&hotkey_pressed(), 0);
    sm.handle(&recording_stopped(2_000), 2_000);
    sm.handle(
        &DomainEvent::TranscriptionFailed {
            error_key: "err.stt.network".into(),
            retryable: true,
            detail: "timeout".into(),
        },
        3_000,
    );
    assert_eq!(sm.state(), CoreState::Error);
}

#[test]
fn fallo_de_entrega_va_a_error() {
    let mut sm = StateMachine::new();
    sm.handle(&hotkey_pressed(), 0);
    sm.handle(&recording_stopped(2_000), 2_000);
    sm.handle(&transcription_completed("hola"), 3_000);
    sm.handle(
        &DomainEvent::TextDeliveryFailed {
            error_key: "err.delivery.blocked".into(),
            fallback_used: false,
        },
        3_100,
    );
    assert_eq!(sm.state(), CoreState::Error);
}

#[test]
fn dictado_maximo_corta_la_grabacion() {
    let mut sm = StateMachine::new();
    sm.handle(&hotkey_pressed(), 0);

    assert_eq!(sm.tick(MAX_RECORDING_MS - 1), Command::NoOp);
    assert_eq!(sm.tick(MAX_RECORDING_MS), Command::StopRecording);
    assert_eq!(sm.state(), CoreState::Recording);
    assert_eq!(
        sm.handle(&recording_stopped(MAX_RECORDING_MS), MAX_RECORDING_MS + 50),
        Command::StartTranscription
    );
}

#[test]
fn toggle_ignora_release_y_corta_con_segunda_pulsacion() {
    let mut sm = StateMachine::new();
    sm.set_mode(ActivationMode::Toggle);

    assert_eq!(sm.handle(&hotkey_pressed(), 0), Command::StartRecording);
    assert_eq!(
        sm.handle(&DomainEvent::HotkeyReleased { timestamp: 120 }, 120),
        Command::NoOp
    );
    assert_eq!(sm.state(), CoreState::Recording);

    assert_eq!(sm.handle(&hotkey_pressed(), 5_000), Command::StopRecording);
    assert_eq!(sm.state(), CoreState::Recording);
    assert_eq!(
        sm.handle(&recording_stopped(5_000), 5_050),
        Command::StartTranscription
    );
}

#[test]
fn toggle_corta_por_silencio_del_vad() {
    let mut sm = StateMachine::new();
    sm.set_mode(ActivationMode::Toggle);
    sm.handle(&hotkey_pressed(), 0);

    assert_eq!(
        sm.handle(&DomainEvent::SilenceDetected { silence_ms: 1_200 }, 6_000),
        Command::StopRecording
    );
}

#[test]
fn ptt_ignora_silencio_del_vad() {
    let mut sm = StateMachine::new();
    sm.handle(&hotkey_pressed(), 0);
    assert_eq!(
        sm.handle(&DomainEvent::SilenceDetected { silence_ms: 1_200 }, 6_000),
        Command::NoOp
    );
    assert_eq!(sm.state(), CoreState::Recording);
}

#[test]
fn from_setting_mapea_toggle_y_cae_a_ptt() {
    assert_eq!(
        ActivationMode::from_setting("toggle"),
        ActivationMode::Toggle
    );
    assert_eq!(ActivationMode::from_setting("ptt"), ActivationMode::Ptt);
    assert_eq!(ActivationMode::from_setting("otro"), ActivationMode::Ptt);
}

#[test]
fn modo_mejorado_pasa_por_post_procesado() {
    let mut sm = StateMachine::new();
    sm.set_dictation_mode(DictationMode::Mejorado);
    sm.handle(&hotkey_pressed(), 0);
    sm.handle(&recording_stopped(2_000), 2_000);

    assert_eq!(
        sm.handle(&transcription_completed("eh… hola mundo"), 3_000),
        Command::StartPostProcessing {
            text: "eh… hola mundo".into()
        }
    );
    assert_eq!(sm.state(), CoreState::PostProcessing);

    assert_eq!(
        sm.handle(
            &DomainEvent::PostProcessingCompleted {
                text: "Hola, mundo.".into(),
                latency_ms: 640,
                degraded: false,
            },
            4_000,
        ),
        Command::DeliverText {
            text: "Hola, mundo.".into()
        }
    );
    assert_eq!(sm.state(), CoreState::Delivering);
}

#[test]
fn fallo_del_llm_no_corta_el_ciclo_y_entrega_el_degradado() {
    let mut sm = StateMachine::new();
    sm.set_dictation_mode(DictationMode::Prompt);
    sm.handle(&hotkey_pressed(), 0);
    sm.handle(&recording_stopped(2_000), 2_000);
    sm.handle(&transcription_completed("redacta un saludo"), 3_000);
    assert_eq!(sm.state(), CoreState::PostProcessing);

    assert_eq!(
        sm.handle(
            &DomainEvent::PostProcessingFailed {
                error_key: "err.llm.network".into(),
                retryable: true,
                detail: "timeout".into(),
            },
            4_000,
        ),
        Command::NoOp
    );
    assert_eq!(sm.state(), CoreState::PostProcessing);

    assert_eq!(
        sm.handle(
            &DomainEvent::PostProcessingCompleted {
                text: "redacta un saludo".into(),
                latency_ms: 30_000,
                degraded: true,
            },
            34_000,
        ),
        Command::DeliverText {
            text: "redacta un saludo".into()
        }
    );
    assert_eq!(sm.state(), CoreState::Delivering);
}

#[test]
fn modo_literal_no_pasa_por_el_llm() {
    let mut sm = StateMachine::new();
    sm.set_dictation_mode(DictationMode::Literal);
    sm.handle(&hotkey_pressed(), 0);
    sm.handle(&recording_stopped(2_000), 2_000);
    assert_eq!(
        sm.handle(&transcription_completed("hola"), 3_000),
        Command::DeliverText {
            text: "hola".into()
        }
    );
    assert_eq!(sm.state(), CoreState::Delivering);
}

#[test]
fn dictation_mode_from_setting_cae_a_literal() {
    assert_eq!(
        DictationMode::from_setting("mejorado"),
        DictationMode::Mejorado
    );
    assert_eq!(DictationMode::from_setting("prompt"), DictationMode::Prompt);
    assert_eq!(
        DictationMode::from_setting("literal"),
        DictationMode::Literal
    );
    assert_eq!(DictationMode::from_setting("otro"), DictationMode::Literal);
}

#[test]
fn eventos_fuera_de_estado_se_ignoran() {
    let mut sm = StateMachine::new();
    assert_eq!(sm.handle(&recording_stopped(5_000), 0), Command::NoOp);
    assert_eq!(sm.handle(&transcription_completed("x"), 0), Command::NoOp);
    assert_eq!(sm.state(), CoreState::Idle);
}

// Laws on concrete values.

#[test]
fn toggle_segunda_pulsacion_no_cambia_el_estado_hasta_el_corte() {
    let mut sm = StateMachine::new();
    sm.set_mode(ActivationMode::Toggle);
    sm.handle(&hotkey_pressed(), 0);
    sm.handle(&recording_stopped(2_000), 2_000);
    // During transcription a press is ignored, even in toggle mode.
    assert_eq!(sm.handle(&hotkey_pressed(), 2_500), Command::NoOp);
    assert_eq!(sm.state(), CoreState::Transcribing);
}

#[test]
fn tick_en_error_antes_del_plazo_no_hace_nada() {
    let mut sm = StateMachine::new();
    assert_eq!(sm.tick(1_000_000), Command::NoOp);
    assert_eq!(sm.state(), CoreState::Idle);
}

#[test]
fn grabacion_del_minimo_exacto_se_transcribe() {
    let mut sm = StateMachine::new();
    sm.handle(&hotkey_pressed(), 0);
    assert_eq!(
        sm.handle(&recording_stopped(MIN_RECORDING_MS), 300),
        Command::StartTranscription
    );
}

#[test]
fn reloj_hacia_atras_no_corta_la_grabacion() {
    let mut sm = StateMachine::new();
    sm.handle(&hotkey_pressed(), 5_000);
    assert_eq!(sm.tick(0), Command::NoOp);
    assert_eq!(sm.state(), CoreState::Recording);
}

#[test]
fn post_procesado_fallido_en_literal_se_ignora() {
    let mut sm = StateMachine::default();
    sm.handle(&hotkey_pressed(), 0);
    sm.handle(&recording_stopped(2_000), 2_000);
    sm.handle(&transcription_completed("hola"), 3_000);
    assert_eq!(
        sm.handle(
            &DomainEvent::PostProcessingCompleted {
                text: "otro".into(),
                latency_ms: 1,
                degraded: false,
            },
            3_500,
        ),
        Command::NoOp
    );
    assert_eq!(sm.state(), CoreState::Delivering);
}

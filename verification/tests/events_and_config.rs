use voicetext::audio::{encode_wav, AudioData, AudioError, TARGET_SAMPLE_RATE};
use voicetext::config::{GeneralSettings, Settings};
use voicetext::delivery::DeliveryMode;
use voicetext::events::DomainEvent;
use voicetext::hotkeys::{invalid_accelerator, HotkeyError};
use voicetext::ipc::{
    api_key_to_store, autostart_action, hotkey_ipc_error, settings_changes, state_name,
    stt_command_error_key, IpcError,
};
use voicetext::speech::SpeechError;
use voicetext::state_machine::CoreState;
use voicetext::tray::labels;

#[test]
fn is_failure_solo_para_los_eventos_de_fallo() {
    assert!(DomainEvent::RecordingFailed {
        error_key: "err.audio.device".into(),
        detail: "x".into(),
    }
    .is_failure());
    assert!(DomainEvent::TranscriptionFailed {
        error_key: "err.stt.network".into(),
        retryable: true,
        detail: "x".into(),
    }
    .is_failure());
    assert!(DomainEvent::TextDeliveryFailed {
        error_key: "err.delivery.blocked".into(),
        fallback_used: false,
    }
    .is_failure());
    assert!(!DomainEvent::TextDeliveryCompleted {
        mode: DeliveryMode::Insert,
        chars: 3,
    }
    .is_failure());
}

#[test]
fn defaults_coinciden_con_el_esquema_documentado() {
    let s = Settings::default();
    assert_eq!(s.schema_version, 1);
    assert_eq!(s.general.ui_language, "es");
    assert_eq!(s.general.hotkey, "Ctrl+Super+Space");
    assert!(!s.general.autostart);
    assert!(s.general.start_minimized);
    assert_eq!(s.general.output_mode, "insert");
    assert_eq!(s.stt.provider, "openai");
    assert_eq!(s.stt.model, "gpt-4o-mini-transcribe");
    assert_eq!(s.stt.language, "auto");
    assert!(!s.delivery.fallback_typing);
}

#[test]
fn audio_data_calcula_duracion() {
    let data = AudioData {
        samples: vec![0; 32_000],
        sample_rate: 16_000,
    };
    assert_eq!(data.duration_ms(), 2_000);
}

#[test]
fn encode_wav_produce_header_riff_valido() {
    let samples = vec![0i16; 160];
    let wav = encode_wav(&samples, TARGET_SAMPLE_RATE);
    assert_eq!(&wav[0..4], b"RIFF");
    assert_eq!(&wav[8..12], b"WAVE");
    assert_eq!(wav.len(), 44 + samples.len() * 2);
    let reader = hound::WavReader::new(std::io::Cursor::new(&wav)).unwrap();
    assert_eq!(reader.spec().sample_rate, TARGET_SAMPLE_RATE);
    assert_eq!(reader.spec().channels, 1);
}

#[test]
fn encode_wav_conserva_las_muestras() {
    let samples = vec![1i16, -2, 300, i16::MIN, i16::MAX];
    let wav = encode_wav(&samples, 8_000);
    let mut reader = hound::WavReader::new(std::io::Cursor::new(&wav)).unwrap();
    let back: Vec<i16> = reader.samples::<i16>().map(|s| s.unwrap()).collect();
    assert_eq!(back, samples);
    assert_eq!(reader.spec().sample_rate, 8_000);
}

#[test]
fn duracion_redondea_hacia_abajo() {
    let data = AudioData {
        samples: vec![0; 15],
        sample_rate: 16_000,
    };
    assert_eq!(data.duration_ms(), 0);
}

#[test]
fn claves_y_textos_de_error_de_audio() {
    assert_eq!(AudioError::NoInputDevice.error_key(), "err.audio.device");
    assert_eq!(AudioError::UnsupportedConfig("x".into()).error_key(), "err.audio.config");
    assert_eq!(AudioError::Stream("x".into()).error_key(), "err.audio.stream");
    assert_eq!(AudioError::Resample("x".into()).error_key(), "err.audio.resample");
    assert_eq!(AudioError::NoInputDevice.message(), "no default input device");
    assert_eq!(AudioError::Stream("boom".into()).message(), "stream error: boom");
    assert_eq!(
        AudioError::UnsupportedConfig("fmt".into()).message(),
        "unsupported input config: fmt"
    );
}

#[test]
fn claves_y_textos_de_error_de_hotkey() {
    let e = invalid_accelerator("NoEsUnAtajo++", "bad key");
    assert_eq!(e.error_key(), "err.hotkey.invalid");
    assert_eq!(e.message(), "acelerador inválido: NoEsUnAtajo++: bad key");
    let r = HotkeyError::Register("busy".into());
    assert_eq!(r.error_key(), "err.hotkey.register");
    let ipc = hotkey_ipc_error(&r);
    assert_eq!(ipc, IpcError { code: "registro falló: busy".into(), error_key: "err.hotkey.register".into() });
    assert_eq!(IpcError::new("c", "k").error_key, "k");
}

#[test]
fn errores_de_proveedor_en_los_comandos() {
    assert_eq!(stt_command_error_key(&SpeechError::Auth), "err.stt.auth");
    assert_eq!(stt_command_error_key(&SpeechError::Network), "err.stt.network");
    assert_eq!(stt_command_error_key(&SpeechError::RateLimited), "err.stt.rate");
    assert_eq!(stt_command_error_key(&SpeechError::InvalidAudio), "err.stt.provider");
    assert_eq!(
        SpeechError::Provider { code: "500".into() }.message(),
        "error del proveedor: 500"
    );
    assert_eq!(SpeechError::Auth.message(), "autenticación inválida o ausente");
}

#[test]
fn nombres_de_estado_para_la_interfaz() {
    assert_eq!(state_name(CoreState::Idle), "idle");
    assert_eq!(state_name(CoreState::PostProcessing), "postprocessing");
    assert_eq!(state_name(CoreState::Error), "error");
}

#[test]
fn etiquetas_de_la_bandeja() {
    let en = labels("en");
    assert_eq!((en.settings, en.quit), ("Settings", "Quit"));
    let es = labels("es");
    assert_eq!((es.settings, es.quit), ("Configuración", "Salir"));
    let other = labels("fr");
    assert_eq!(other.quit, "Salir");
}

#[test]
fn modo_de_entrega_desde_settings() {
    assert_eq!(DeliveryMode::from_setting("insert"), DeliveryMode::Insert);
    assert_eq!(DeliveryMode::from_setting("clipboard"), DeliveryMode::Clipboard);
    assert_eq!(DeliveryMode::from_setting("otro"), DeliveryMode::Clipboard);
}

#[test]
fn decisiones_de_los_comandos_de_settings() {
    assert_eq!(api_key_to_store("  sk-abc \n"), Some("sk-abc".to_string()));
    assert_eq!(api_key_to_store("   "), None);
    let a = GeneralSettings::default();
    let mut b = GeneralSettings::default();
    b.autostart = true;
    let c = settings_changes(&a, &b);
    assert!(c.autostart_changed && !c.hotkey_changed);
    b.hotkey = "Alt+Space".into();
    assert!(settings_changes(&a, &b).hotkey_changed);
    assert_eq!(autostart_action(true, true), None);
    assert_eq!(autostart_action(false, true), Some(true));
    assert_eq!(autostart_action(true, false), Some(false));
}

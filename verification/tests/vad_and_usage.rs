use voicetext::orchestrator::{
    char_count, delivery_finished, missing_api_key, overlay_event, recording_failed,
    stt_language, transcription_failed, turn,
};
use voicetext::audio::{capture_limit, samples_to_keep, AudioError};
use voicetext::delivery::DeliveryMode;
use voicetext::events::{DomainEvent, OverlayMode, OverlayOutcome};
use voicetext::speech::SpeechError;
use voicetext::state_machine::{Command, CoreState, StateMachine};
use voicetext::updater::{install_failed, update_info, ProgressThrottle, PROGRESS_THROTTLE_BYTES};
use voicetext::usage::{
    accept_loaded, current_month, default_rate, effective_rate, format_month, record, reset,
    UsageLedger, COST_UNITS_PER_USD, CURRENT_SCHEMA_VERSION,
};
use voicetext::vad::{SilenceGate, VadUpdate};

/// Gate fed one chunk per buffer, classified from a fixed sequence of
/// speech probabilities with threshold 0.5.
fn feed_probs(probs: &[f32], hangover_ms: u64) -> Vec<VadUpdate> {
    let mut gate = SilenceGate::new(hangover_ms);
    probs
        .iter()
        .map(|p| gate.feed(&vec![*p >= 0.5]))
        .collect()
}

#[test]
fn no_corta_sin_haber_oido_habla() {
    for u in feed_probs(&vec![0.0; 60], 1_200) {
        assert_eq!(u.silence_cut_ms, None);
    }
}

#[test]
fn corta_tras_silencio_sostenido_despues_de_hablar() {
    let mut probs = vec![0.9; 5];
    probs.extend(vec![0.0; 60]);
    let updates = feed_probs(&probs, 1_200);
    let cut_at = updates.iter().position(|u| u.silence_cut_ms.is_some());
    let cut = cut_at.expect("debió cortar");
    assert!(cut >= 5 + 37, "cortó antes del hangover: chunk {cut}");
    assert!(updates[cut + 1..].iter().all(|u| u.silence_cut_ms.is_none()));
}

#[test]
fn habla_intermedia_reinicia_el_silencio() {
    let mut probs = vec![0.9; 3];
    probs.extend(vec![0.0; 20]);
    probs.extend(vec![0.9; 3]);
    probs.extend(vec![0.0; 45]);
    let updates = feed_probs(&probs, 1_200);
    let cut_at = updates
        .iter()
        .position(|u| u.silence_cut_ms.is_some())
        .expect("debió cortar al final");
    assert!(cut_at > 3 + 20 + 3, "la pausa intermedia no debía cortar");
}

#[test]
fn reporta_cambios_de_estado_hablando() {
    let mut probs = vec![0.9; 2];
    probs.extend(vec![0.0; 2]);
    let updates = feed_probs(&probs, 10_000);
    assert_eq!(updates[0].speaking_changed, Some(true));
    assert_eq!(updates[2].speaking_changed, Some(false));
}

#[test]
fn el_corte_llega_justo_al_hangover() {
    // 1 chunk of speech, then silence: 38 chunks of 32 ms reach 1 216 ms.
    let mut flags = vec![true];
    flags.extend(vec![false; 40]);
    let mut gate = SilenceGate::new(1_200);
    let u = gate.feed(&flags);
    assert_eq!(u.silence_cut_ms, Some(1_216));
    assert_eq!(u.speaking_changed, Some(false));
    assert!(gate.fired());
    assert_eq!(gate.feed(&vec![true, false]), VadUpdate::default());
}

#[test]
fn limite_de_captura() {
    assert_eq!(capture_limit(48_000, 2), 48_000 * 2 * 120);
    assert_eq!(samples_to_keep(100, 90, 30), 10);
    assert_eq!(samples_to_keep(100, 100, 30), 0);
    assert_eq!(samples_to_keep(100, 10, 30), 30);
}

#[test]
fn record_crea_y_acumula_por_clave() {
    let month = current_month();
    let mut ledger = UsageLedger::default();
    record(&mut ledger, "openai", "whisper-1", &month, 60_000, 6_000);
    record(&mut ledger, "openai", "whisper-1", &month, 30_000, 6_000);
    record(&mut ledger, "groq", "whisper-large-v3-turbo", &month, 60_000, 670);

    assert_eq!(ledger.entries.len(), 2);
    let openai = ledger
        .entries
        .iter()
        .find(|e| e.provider == "openai")
        .unwrap();
    assert_eq!(openai.transcriptions, 2);
    assert_eq!(openai.audio_ms, 90_000);
    // 0.009 USD.
    assert_eq!(openai.estimated_cost * 1_000, 9 * COST_UNITS_PER_USD);
    assert_eq!(openai.month, current_month());
}

#[test]
fn reset_por_proveedor_y_global() {
    let mut ledger = UsageLedger::default();
    record(&mut ledger, "openai", "whisper-1", "2026-01", 60_000, 6_000);
    record(&mut ledger, "groq", "whisper-large-v3-turbo", "2026-01", 60_000, 670);

    reset(&mut ledger, Some("openai"));
    assert_eq!(ledger.entries.len(), 1);
    assert_eq!(ledger.entries[0].provider, "groq");

    reset(&mut ledger, None);
    assert!(ledger.entries.is_empty());
}

#[test]
fn record_separa_los_meses() {
    let mut ledger = UsageLedger::default();
    record(&mut ledger, "openai", "whisper-1", "2026-01", 1_000, 6_000);
    record(&mut ledger, "openai", "whisper-1", "2026-02", 1_000, 6_000);
    assert_eq!(ledger.entries.len(), 2);
    assert_eq!(ledger.entries[1].month, "2026-02");
    assert_eq!(ledger.entries[1].transcriptions, 1);
}

#[test]
fn schema_del_futuro_cae_a_ledger_vacio() {
    let mut future = UsageLedger::default();
    future.schema_version = 99;
    record(&mut future, "openai", "whisper-1", "2026-01", 1_000, 6_000);
    let accepted = accept_loaded(future);
    assert_eq!(accepted.schema_version, CURRENT_SCHEMA_VERSION);
    assert!(accepted.entries.is_empty());

    let mut current = UsageLedger::default();
    record(&mut current, "openai", "whisper-1", "2026-01", 1_000, 6_000);
    assert_eq!(accept_loaded(current).entries.len(), 1);
}

#[test]
fn effective_rate_prioriza_override_luego_default() {
    let mut rates: Vec<(String, u64)> = Vec::new();
    assert_eq!(effective_rate(&rates, "openai", "whisper-1"), 6_000);
    assert_eq!(effective_rate(&rates, "openai", "modelo-nuevo"), 0);
    rates.push(("openai/whisper-1".into(), 10_000));
    assert_eq!(effective_rate(&rates, "openai", "whisper-1"), 10_000);
    assert_eq!(default_rate("groq", "whisper-large-v3"), Some(1_850));
    assert_eq!(default_rate("groq", "gpt-4o"), None);
}

#[test]
fn current_month_tiene_formato_yyyy_mm() {
    let month = current_month();
    assert_eq!(month.len(), 7);
    assert_eq!(&month[4..5], "-");
    assert!(month[0..4].chars().all(|c| c.is_ascii_digit()));
    assert!(month[5..7].chars().all(|c| c.is_ascii_digit()));
}

#[test]
fn formato_de_mes_con_anios_extremos() {
    assert_eq!(format_month(2026, 7), "2026-07");
    assert_eq!(format_month(987, 12), "0987-12");
    assert_eq!(format_month(12_345, 1), "+12345-01");
    assert_eq!(format_month(-5, 3), "-0005-03");
}

#[test]
fn eventos_del_overlay_siguen_al_ciclo() {
    assert!(matches!(
        overlay_event(CoreState::Idle, CoreState::Recording),
        Some(DomainEvent::OverlayOpened { mode: OverlayMode::Listening })
    ));
    assert!(matches!(
        overlay_event(CoreState::Error, CoreState::Idle),
        Some(DomainEvent::OverlayClosed { outcome: OverlayOutcome::Error })
    ));
    assert!(matches!(
        overlay_event(CoreState::Delivering, CoreState::Idle),
        Some(DomainEvent::OverlayClosed { outcome: OverlayOutcome::Success })
    ));
    assert!(overlay_event(CoreState::Recording, CoreState::Transcribing).is_none());
}

#[test]
fn una_vuelta_del_orquestador() {
    let mut sm = StateMachine::new();
    let t = turn(&mut sm, Some(&DomainEvent::HotkeyPressed { timestamp: 0 }), 0, "toggle", "literal");
    assert_eq!(t.command, Command::StartRecording);
    assert!(matches!(t.overlay, Some(DomainEvent::OverlayOpened { .. })));
    // Toggle: the release is ignored, the second press stops.
    let t = turn(&mut sm, Some(&DomainEvent::HotkeyReleased { timestamp: 1 }), 100, "toggle", "literal");
    assert_eq!(t.command, Command::NoOp);
    let t = turn(&mut sm, None, 200, "toggle", "literal");
    assert_eq!(t.command, Command::NoOp);
    let t = turn(&mut sm, Some(&DomainEvent::HotkeyPressed { timestamp: 2 }), 5_000, "toggle", "literal");
    assert_eq!(t.command, Command::StopRecording);
    assert!(t.overlay.is_none());
}

#[test]
fn decisiones_del_orquestador() {
    assert_eq!(stt_language("auto"), None);
    assert_eq!(stt_language("es"), Some("es".to_string()));
    assert_eq!(char_count("hola ñandú"), 10);
    match transcription_failed(&SpeechError::InvalidAudio) {
        DomainEvent::TranscriptionFailed { error_key, retryable, detail } => {
            assert_eq!(error_key, "err.stt.audio");
            assert!(!retryable);
            assert_eq!(detail, "audio inválido");
        }
        _ => panic!("expected a failed transcription"),
    }
    match transcription_failed(&SpeechError::Network) {
        DomainEvent::TranscriptionFailed { retryable, .. } => assert!(retryable),
        _ => panic!("expected a failed transcription"),
    }
    assert!(matches!(missing_api_key(), DomainEvent::TranscriptionFailed { ref error_key, .. } if error_key == "err.stt.auth"));
    assert!(matches!(recording_failed(&AudioError::NoInputDevice), DomainEvent::RecordingFailed { ref error_key, .. } if error_key == "err.audio.device"));
    assert!(matches!(
        delivery_finished(DeliveryMode::Insert, 3, None),
        DomainEvent::TextDeliveryCompleted { mode: DeliveryMode::Insert, chars: 3 }
    ));
    assert!(matches!(
        delivery_finished(DeliveryMode::Insert, 3, Some("err.delivery.blocked")),
        DomainEvent::TextDeliveryFailed { ref error_key, fallback_used: false } if error_key == "err.delivery.blocked"
    ));
}

#[test]
fn progreso_de_descarga_con_throttle() {
    let mut t = ProgressThrottle::new();
    assert!(t.on_chunk(1_000, Some(10_000_000)).is_some());
    assert!(t.on_chunk(1_000, Some(10_000_000)).is_none());
    let ev = t.on_chunk(PROGRESS_THROTTLE_BYTES, Some(10_000_000));
    assert!(matches!(ev, Some(DomainEvent::UpdateDownloadProgress { downloaded, .. }) if downloaded == 2_000 + PROGRESS_THROTTLE_BYTES));
    let info = update_info("1.1.0".into(), None, Some("2026-07-05".into()));
    assert_eq!(info.notes, "");
    assert!(matches!(install_failed("x".into()), DomainEvent::UpdateFailed { ref error_key, .. } if error_key == "err.update.install"));
}

#[test]
fn effective_rates_fusiona_overrides_sobre_defaults() {
    let rates: Vec<(String, u64)> = vec![
        ("openai/whisper-1".into(), 10_000),
        ("openai/modelo-nuevo".into(), 2_000),
    ];
    let merged = voicetext::usage::effective_rates(&rates);
    let get = |k: &str| merged.iter().find(|(key, _)| key == k).map(|(_, r)| *r);
    assert_eq!(get("openai/whisper-1"), Some(10_000));
    assert_eq!(get("openai/gpt-4o-transcribe"), Some(6_000));
    assert_eq!(get("openai/modelo-nuevo"), Some(2_000));
    assert_eq!(merged.len(), 7);
}

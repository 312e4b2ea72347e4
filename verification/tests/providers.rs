use voicetext::llm::{chat_reply, chat_status_error, error_key, resolve as resolve_chat};
use voicetext::prompts::{improve_system_prompt, instruction_system_prompt};
use voicetext::providers::openai_compatible::{
    active_model_ids, after_attempt, invalid_response, listing_status_error, send_error,
    transcription_status_error, AttemptStep,
};
use voicetext::providers::{build_catalog, default_model, groq, openai, resolve, ModelKind};
use voicetext::speech::SpeechError;

#[test]
fn error_key_distingue_la_etapa_llm() {
    assert_eq!(error_key(&SpeechError::Auth), "err.llm.auth");
    assert_eq!(error_key(&SpeechError::Network), "err.llm.network");
    assert_eq!(error_key(&SpeechError::RateLimited), "err.llm.rate");
    assert_eq!(
        error_key(&SpeechError::Provider { code: "500".into() }),
        "err.llm.provider"
    );
}

#[test]
fn prompts_parametrizan_el_idioma() {
    assert!(improve_system_prompt(Some("es")).contains("responde en español"));
    assert!(improve_system_prompt(Some("en")).contains("respond in English"));
    assert!(improve_system_prompt(None).contains("mismo idioma"));
    assert!(instruction_system_prompt(Some("es")).contains("escribe en español"));
}

#[test]
fn classify_openai_stt_chat_y_excluidos() {
    for id in [
        "whisper-1",
        "gpt-4o-transcribe",
        "gpt-4o-mini-transcribe",
        "gpt-4o-transcribe-diarize",
    ] {
        assert_eq!(openai::classify_model(id), Some(ModelKind::Stt), "{id}");
    }
    for id in [
        "gpt-4o",
        "gpt-4o-mini",
        "gpt-4.1",
        "gpt-4.1-mini",
        "gpt-5",
        "chatgpt-4o-latest",
        "o3-mini",
        "o4-mini",
    ] {
        assert_eq!(openai::classify_model(id), Some(ModelKind::Chat), "{id}");
    }
    for id in [
        "text-embedding-3-small",
        "tts-1",
        "gpt-4o-mini-tts",
        "dall-e-3",
        "gpt-image-1",
        "omni-moderation-latest",
        "gpt-4o-realtime-preview",
        "gpt-4o-audio-preview",
        "gpt-4o-search-preview",
        "computer-use-preview",
        "gpt-3.5-turbo-instruct",
        "davinci-002",
        "babbage-002",
        "codex-mini-latest",
        "sora-2",
    ] {
        assert_eq!(openai::classify_model(id), None, "{id}");
    }
}

#[test]
fn classify_groq_stt_chat_y_excluidos() {
    for id in [
        "whisper-large-v3",
        "whisper-large-v3-turbo",
        "distil-whisper-large-v3-en",
    ] {
        assert_eq!(groq::classify_model(id), Some(ModelKind::Stt), "{id}");
    }
    for id in [
        "llama-3.3-70b-versatile",
        "llama-3.1-8b-instant",
        "meta-llama/llama-4-scout-17b-16e-instruct",
        "qwen/qwen3-32b",
        "deepseek-r1-distill-llama-70b",
        "gemma2-9b-it",
        "moonshotai/kimi-k2-instruct",
        "openai/gpt-oss-120b",
        "groq/compound",
        "allam-2-7b",
    ] {
        assert_eq!(groq::classify_model(id), Some(ModelKind::Chat), "{id}");
    }
    for id in [
        "playai-tts",
        "playai-tts-arabic",
        "meta-llama/llama-guard-4-12b",
        "meta-llama/llama-prompt-guard-2-86m",
    ] {
        assert_eq!(groq::classify_model(id), None, "{id}");
    }
}

#[test]
fn build_catalog_ordena_con_default_primero() {
    let ids = vec![
        "whisper-1".to_string(),
        "gpt-4o-transcribe".to_string(),
        "gpt-4o-mini-transcribe".to_string(),
        "gpt-4o".to_string(),
        "tts-1".to_string(),
    ];
    let catalog = build_catalog(ids, openai::ID, "whisper-1");
    assert_eq!(
        catalog.stt,
        vec!["whisper-1", "gpt-4o-mini-transcribe", "gpt-4o-transcribe"]
    );
    assert_eq!(catalog.chat, vec!["gpt-4o"]);
}

#[test]
fn build_catalog_deduplica() {
    let ids = vec!["whisper-1".to_string(), "whisper-1".to_string()];
    let catalog = build_catalog(ids, openai::ID, "whisper-1");
    assert_eq!(catalog.stt, vec!["whisper-1"]);
}

#[test]
fn build_catalog_vacio_si_nada_clasifica() {
    let ids = vec!["dall-e-3".to_string(), "tts-1".to_string()];
    let catalog = build_catalog(ids, openai::ID, "gpt-4o-mini-transcribe");
    assert!(catalog.stt.is_empty());
    assert!(catalog.chat.is_empty());
}

#[test]
fn build_catalog_ignora_mayusculas_y_conserva_el_orden_del_listado() {
    let ids = vec![
        "Whisper-Large-V3".to_string(),
        "llama-b".to_string(),
        "whisper-large-v3".to_string(),
        "Llama-A".to_string(),
        "whisper-large-v3-turbo".to_string(),
    ];
    let catalog = build_catalog(ids, groq::ID, groq::DEFAULT_MODEL);
    assert_eq!(
        catalog.stt,
        vec!["whisper-large-v3-turbo", "Whisper-Large-V3", "whisper-large-v3"]
    );
    assert_eq!(catalog.chat, vec!["Llama-A", "llama-b"]);
}

#[test]
fn resolve_y_modelo_por_defecto() {
    let p = resolve("groq", "k".into());
    assert_eq!(p.id(), "groq");
    assert_eq!(p.base_url, "https://api.groq.com/openai/v1");
    let p = resolve("desconocido", "k".into());
    assert_eq!(p.id(), "openai");
    assert_eq!(p.base_url, "https://api.openai.com/v1");
    assert_eq!(default_model("groq"), "whisper-large-v3-turbo");
    assert_eq!(default_model("otro"), "gpt-4o-mini-transcribe");
    let caps = p.capabilities();
    assert!(caps.batch && !caps.streaming);
    let p = p.with_base_url("http://localhost:1");
    assert_eq!(p.base_url, "http://localhost:1");
    assert_eq!(resolve_chat("groq", "k".into()).base_url, "https://api.groq.com/openai/v1");
    assert_eq!(resolve_chat("x", "k".into()).base_url, "https://api.openai.com/v1");
}

#[test]
fn estados_http_de_transcripcion() {
    assert_eq!(transcription_status_error(200), None);
    assert_eq!(transcription_status_error(401), Some(SpeechError::Auth));
    assert_eq!(transcription_status_error(403), Some(SpeechError::Auth));
    assert_eq!(transcription_status_error(429), Some(SpeechError::RateLimited));
    assert_eq!(transcription_status_error(400), Some(SpeechError::InvalidAudio));
    assert_eq!(transcription_status_error(422), Some(SpeechError::InvalidAudio));
    assert_eq!(
        transcription_status_error(500),
        Some(SpeechError::Provider { code: "500".into() })
    );
    assert_eq!(
        listing_status_error(404),
        Some(SpeechError::Provider { code: "404".into() })
    );
    assert_eq!(listing_status_error(429), Some(SpeechError::RateLimited));
    assert_eq!(chat_status_error(400), Some(SpeechError::Provider { code: "400".into() }));
    assert_eq!(send_error(true, "x".into()), SpeechError::Network);
    assert_eq!(send_error(false, "x".into()), SpeechError::Provider { code: "x".into() });
    assert!(
        matches!(invalid_response("eof"), SpeechError::Provider { code } if code == "respuesta inválida: eof")
    );
}

#[test]
fn modelos_inactivos_se_descartan() {
    let ids = active_model_ids(vec![
        ("whisper-large-v3".to_string(), Some(true)),
        ("modelo-viejo".to_string(), Some(false)),
        ("whisper-1".to_string(), None),
    ]);
    assert_eq!(ids, vec!["whisper-large-v3", "whisper-1"]);
}

#[test]
fn respuesta_del_chat_recortada_o_sin_choices() {
    assert_eq!(chat_reply(vec!["  Hola, mundo.\n".into()]), Ok("Hola, mundo.".to_string()));
    assert_eq!(
        chat_reply(vec![]),
        Err(SpeechError::Provider { code: "respuesta sin choices".into() })
    );
    assert_eq!(chat_reply(vec!["\u{3000} x \u{a0}".into(), "y".into()]), Ok("x".to_string()));
    assert_eq!(chat_reply(vec!["   ".into()]), Ok(String::new()));
}

#[test]
fn un_solo_reintento_ante_errores_transitorios() {
    assert!(matches!(after_attempt(1, Err(SpeechError::RateLimited)), AttemptStep::Retry { after_ms: 1_000 }));
    assert!(matches!(after_attempt(1, Err(SpeechError::Network)), AttemptStep::Retry { after_ms: 1_000 }));
    assert!(matches!(
        after_attempt(2, Err(SpeechError::RateLimited)),
        AttemptStep::Done(Err(SpeechError::RateLimited))
    ));
    assert!(matches!(
        after_attempt(1, Err(SpeechError::Auth)),
        AttemptStep::Done(Err(SpeechError::Auth))
    ));
    match after_attempt(1, Ok("ok".to_string())) {
        AttemptStep::Done(Ok(s)) => assert_eq!(s, "ok"),
        _ => panic!("a success ends the transcription"),
    }
}

use voicetext::audio::encode_wav;
use voicetext::ipc::mask_api_key;
use voicetext::llm::{chat_model, post_processing_request, GROQ_CHAT_MODEL, OPENAI_CHAT_MODEL};
use voicetext::prompts::{improve_system_prompt, instruction_system_prompt};
use voicetext::providers::openai_compatible::{after_attempt, AttemptStep, RETRY_BACKOFF_MS};
use voicetext::speech::SpeechError;
use voicetext::state_machine::DictationMode;
use voicetext::vad::SilenceGate;

#[test]
fn cabecera_wav_con_campos_exactos() {
    let samples = vec![0i16; 160];
    let wav = encode_wav(&samples, 16_000);
    assert_eq!(wav.len(), 364);
    assert_eq!(&wav[0..4], b"RIFF");
    assert_eq!(u32::from_le_bytes([wav[4], wav[5], wav[6], wav[7]]), 356);
    assert_eq!(&wav[8..16], b"WAVEfmt ");
    assert_eq!(u16::from_le_bytes([wav[20], wav[21]]), 1);
    assert_eq!(u16::from_le_bytes([wav[22], wav[23]]), 1);
    assert_eq!(u32::from_le_bytes([wav[24], wav[25], wav[26], wav[27]]), 16_000);
    assert_eq!(u32::from_le_bytes([wav[28], wav[29], wav[30], wav[31]]), 32_000);
    assert_eq!(u16::from_le_bytes([wav[32], wav[33]]), 2);
    assert_eq!(u16::from_le_bytes([wav[34], wav[35]]), 16);
    assert_eq!(&wav[36..40], b"data");
    assert_eq!(u32::from_le_bytes([wav[40], wav[41], wav[42], wav[43]]), 320);
}

#[test]
fn muestras_negativas_en_little_endian() {
    let wav = encode_wav(&[-2i16, 258, i16::MIN], 8_000);
    assert_eq!(&wav[44..], &[0xfe, 0xff, 0x02, 0x01, 0x00, 0x80]);
}

#[test]
fn la_key_se_muestra_enmascarada() {
    assert_eq!(mask_api_key("sk-abcdef123456"), "••••3456");
    assert_eq!(mask_api_key("abc"), "••••abc");
    assert_eq!(mask_api_key(""), "••••");
}

#[test]
fn reintento_tras_una_pausa_de_un_segundo() {
    assert_eq!(RETRY_BACKOFF_MS, 1_000);
    assert!(matches!(
        after_attempt(1, Err(SpeechError::Network)),
        AttemptStep::Retry { after_ms: 1_000 }
    ));
    assert!(matches!(after_attempt(2, Err(SpeechError::Network)), AttemptStep::Done(Err(SpeechError::Network))));
}

#[test]
fn modelo_y_prompt_del_postprocesado() {
    assert_eq!(chat_model("groq"), GROQ_CHAT_MODEL);
    assert_eq!(chat_model("openai"), OPENAI_CHAT_MODEL);
    assert_eq!(chat_model("otro"), OPENAI_CHAT_MODEL);
    let r = post_processing_request(
        DictationMode::Prompt,
        "groq",
        Some("es"),
        "escribe un saludo".into(),
        std::time::Duration::from_secs(30),
    );
    assert_eq!(r.model, GROQ_CHAT_MODEL);
    assert_eq!(r.system, instruction_system_prompt(Some("es")));
    assert_eq!(r.user, "escribe un saludo");
    let r = post_processing_request(
        DictationMode::Mejorado,
        "openai",
        None,
        "eh hola".into(),
        std::time::Duration::from_secs(30),
    );
    assert_eq!(r.model, OPENAI_CHAT_MODEL);
    assert_eq!(r.system, improve_system_prompt(None));
}

#[test]
fn el_corte_llega_a_los_38_chunks_de_silencio_en_cualquier_particion() {
    // 1200 ms of hangover: ceil(1200 / 32) = 38 silent chunks after speech.
    let mut gate = SilenceGate::new(1_200);
    assert_eq!(gate.feed(&vec![false, false, true]).silence_cut_ms, None);
    assert_eq!(gate.feed(&vec![false; 20]).silence_cut_ms, None);
    assert_eq!(gate.feed(&vec![false; 17]).silence_cut_ms, None);
    assert_eq!(gate.feed(&vec![false, false, false]).silence_cut_ms, Some(1_216));
    assert_eq!(gate.feed(&vec![false; 50]).silence_cut_ms, None);
    assert!(gate.fired());
}

#[test]
fn el_habla_reinicia_la_cuenta_de_silencio() {
    let mut gate = SilenceGate::new(1_200);
    let mut flags = vec![true];
    flags.extend(vec![false; 37]);
    flags.push(true);
    flags.extend(vec![false; 37]);
    assert_eq!(gate.feed(&flags).silence_cut_ms, None);
    assert_eq!(gate.feed(&vec![false]).silence_cut_ms, Some(1_216));
}

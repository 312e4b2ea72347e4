//! Language-model pass over the dictation. OpenAI and Groq share the
//! `POST /chat/completions` contract; this module holds what the client is
//! given and what it decides from each reply. Provider failures reuse
//! `SpeechError`, but map to the `err.llm.*` keys of their own stage.

use std::time::Duration;

use vstd::prelude::*;

use crate::prompts::{
    improve_clause, improve_system_prompt, instruction_clause, instruction_system_prompt,
    language_view, IMPROVE_BASE, INSTRUCTION_BASE,
};
use crate::providers::{groq, openai};
use crate::state_machine::DictationMode;
use crate::speech::SpeechError;
use crate::text::{decimal, spec_decimal, str_eq, trim, trim_seq};

verus! {

/// One language-model pass, with the prompt already built.
#[derive(Debug)]
pub struct ChatRequest {
    pub model: String,
    /// System prompt (fixed and versioned).
    pub system: String,
    /// The user's content: the transcription, or the dictated instruction.
    pub user: String,
    pub timeout: Duration,
}

/// Client of an OpenAI-compatible `POST /chat/completions`. The HTTP client
/// itself lives with the code that performs the requests.
pub struct OpenAiCompatibleChat {
    pub base_url: String,
    pub api_key: String,
}

impl OpenAiCompatibleChat {
    pub fn new(base_url: &str, api_key: String) -> (c: Self)
        ensures
            c.base_url@ == base_url@,
            c.api_key@ == api_key@,
    {
        OpenAiCompatibleChat { base_url: String::from_str(base_url), api_key }
    }
}

/// The chat client for `provider_id`, reusing the base URLs of the speech
/// providers; an unknown id falls back to OpenAI.
pub fn resolve(provider_id: &str, api_key: String) -> (c: OpenAiCompatibleChat)
    ensures
        c.base_url@ == (if provider_id@ == groq::ID@ {
            groq::BASE_URL@
        } else {
            openai::BASE_URL@
        }),
        c.api_key@ == api_key@,
{
    let base_url = if str_eq(provider_id, groq::ID) {
        groq::BASE_URL
    } else {
        openai::BASE_URL
    };
    OpenAiCompatibleChat::new(base_url, api_key)
}

/// Chat model of the language-model pass on OpenAI.
pub const OPENAI_CHAT_MODEL: &'static str = "gpt-4o-mini";

/// Chat model of the language-model pass on Groq.
pub const GROQ_CHAT_MODEL: &'static str = "llama-3.3-70b-versatile";

/// The chat model of a provider: Groq's for `groq`, OpenAI's otherwise.
pub open spec fn spec_chat_model(provider_id: Seq<char>) -> Seq<char> {
    if provider_id == groq::ID@ {
        GROQ_CHAT_MODEL@
    } else {
        OPENAI_CHAT_MODEL@
    }
}

/// The chat model used for the language-model pass with a provider (an
/// unknown id falls back to OpenAI, as `resolve` does).
pub fn chat_model(provider_id: &str) -> (m: &'static str)
    ensures
        m@ == spec_chat_model(provider_id@),
{
    if str_eq(provider_id, groq::ID) {
        GROQ_CHAT_MODEL
    } else {
        OPENAI_CHAT_MODEL
    }
}

/// The system prompt of a dictation mode: the instruction prompt in prompt
/// mode, the clean-up prompt otherwise.
pub open spec fn spec_system_prompt(mode: DictationMode, language: Option<Seq<char>>) -> Seq<
    char,
> {
    match mode {
        DictationMode::Prompt => INSTRUCTION_BASE@ + instruction_clause(language),
        _ => IMPROVE_BASE@ + improve_clause(language),
    }
}

/// The language-model pass of a dictation: the provider's chat model, the
/// system prompt of the mode and language, and the transcription (or the
/// dictated instruction) as the user's content.
pub fn post_processing_request(
    mode: DictationMode,
    provider_id: &str,
    language: Option<&str>,
    text: String,
    timeout: Duration,
) -> (r: ChatRequest)
    ensures
        r.model@ == spec_chat_model(provider_id@),
        r.system@ == spec_system_prompt(mode, language_view(language)),
        mode == DictationMode::Prompt && language_view(language) == Some("en"@) ==> r.system@
            == INSTRUCTION_BASE@ + "Unless the instruction asks for another language, write in English."@,
        r.user@ == text@,
        r.timeout == timeout,
{
    let system = match mode {
        DictationMode::Prompt => instruction_system_prompt(language),
        _ => improve_system_prompt(language),
    };
    ChatRequest {
        model: String::from_str(chat_model(provider_id)),
        system,
        user: text,
        timeout,
    }
}

/// The i18n key of a failure of the language-model stage.
pub open spec fn spec_error_key(e: SpeechError) -> Seq<char> {
    match e {
        SpeechError::Auth => "err.llm.auth"@,
        SpeechError::Network => "err.llm.network"@,
        SpeechError::RateLimited => "err.llm.rate"@,
        _ => "err.llm.provider"@,
    }
}

/// i18n key `err.llm.*` of a failure of the language-model stage (distinct
/// from `err.stt.*`: the user interface tells which stage failed).
pub fn error_key(e: &SpeechError) -> (k: &'static str)
    ensures
        k@ == spec_error_key(*e),
{
    match e {
        SpeechError::Auth => "err.llm.auth",
        SpeechError::Network => "err.llm.network",
        SpeechError::RateLimited => "err.llm.rate",
        _ => "err.llm.provider",
    }
}

/// What an HTTP status of the chat endpoint means: `None` for 200; 401 and
/// 403 are an authentication failure; 429 the rate limit; anything else a
/// provider error carrying the status.
pub fn chat_status_error(status: u16) -> (e: Option<SpeechError>)
    ensures
        status == 200 ==> e is None,
        (status == 401 || status == 403) ==> e == Some(SpeechError::Auth),
        status == 429 ==> e == Some(SpeechError::RateLimited),
        status != 200 && status != 401 && status != 403 && status != 429 ==> (e matches Some(
            SpeechError::Provider { code },
        ) && code@ == spec_decimal(status as nat)),
{
    if status == 200 {
        None
    } else if status == 401 || status == 403 {
        Some(SpeechError::Auth)
    } else if status == 429 {
        Some(SpeechError::RateLimited)
    } else {
        Some(SpeechError::Provider { code: decimal(status as u64) })
    }
}

/// The text of a successful reply: the content of the first choice,
/// trimmed; a reply without choices is a provider error.
pub fn chat_reply(choices: Vec<String>) -> (r: Result<String, SpeechError>)
    ensures
        choices@.len() == 0 ==> (r matches Err(SpeechError::Provider { code }) && code@
            == "respuesta sin choices"@),
        choices@.len() > 0 ==> (r matches Ok(t) && t@ == trim_seq(choices@[0]@)),
{
    if choices.len() == 0 {
        Err(SpeechError::Provider { code: String::from_str("respuesta sin choices") })
    } else {
        Ok(trim(choices[0].as_str()))
    }
}

/// The system prompt of the language-model pass follows the mode and the
/// language, with the literal clauses: in prompt mode, an English dictation
/// is told to write in English and a Spanish one in Spanish; in the
/// clean-up modes, to respond in the language of the dictation; and the
/// English and Spanish prompts differ.
pub proof fn law_prompt_follows_mode_and_language(mode: DictationMode)
    ensures
        spec_system_prompt(DictationMode::Prompt, Some("en"@)) == INSTRUCTION_BASE@
            + "Unless the instruction asks for another language, write in English."@,
        spec_system_prompt(DictationMode::Prompt, Some("es"@)) == INSTRUCTION_BASE@
            + "Salvo que la instrucción pida otro idioma, escribe en español."@,
        mode != DictationMode::Prompt ==> spec_system_prompt(mode, Some("en"@)) == IMPROVE_BASE@
            + "The dictation is in English; respond in English."@,
        mode != DictationMode::Prompt ==> spec_system_prompt(mode, Some("es"@)) == IMPROVE_BASE@
            + "El dictado está en español; responde en español."@,
        spec_system_prompt(mode, Some("en"@)) != spec_system_prompt(mode, Some("es"@)),
{
    crate::prompts::lemma_en_is_not_es();
    reveal_strlit("Unless the instruction asks for another language, write in English.");
    reveal_strlit("Salvo que la instrucción pida otro idioma, escribe en español.");
    reveal_strlit("The dictation is in English; respond in English.");
    reveal_strlit("El dictado está en español; responde en español.");
    let en = spec_system_prompt(mode, Some("en"@));
    let es = spec_system_prompt(mode, Some("es"@));
    let base = if mode == DictationMode::Prompt {
        INSTRUCTION_BASE@
    } else {
        IMPROVE_BASE@
    };
    let ce = if mode == DictationMode::Prompt {
        "Unless the instruction asks for another language, write in English."@
    } else {
        "The dictation is in English; respond in English."@
    };
    let cs = if mode == DictationMode::Prompt {
        "Salvo que la instrucción pida otro idioma, escribe en español."@
    } else {
        "El dictado está en español; responde en español."@
    };
    assert(en == base + ce);
    assert(es == base + cs);
    if mode == DictationMode::Prompt {
        assert(en.len() != es.len());
    } else {
        assert(en[base.len() as int] == ce[0]);
        assert(es[base.len() as int] == cs[0]);
        assert(ce[0] != cs[0]);
    }
}

} // verus!

//! Fixed, versioned system prompts of the language-model pass. Changing
//! them changes the product's behaviour.

use vstd::prelude::*;

use crate::text::{concat_str, str_eq};

verus! {

/// The language of a dictation, by its chars.
pub open spec fn language_view(language: Option<&str>) -> Option<Seq<char>> {
    match language {
        Some(l) => Some(l@),
        None => None,
    }
}

/// Body of the clean-up prompt.
pub const IMPROVE_BASE: &'static str = "Eres un corrector de dictados por voz. Recibes la transcripción cruda \
     de un dictado y devuelves el mismo texto con muletillas eliminadas, \
     puntuación corregida y redacción pulida. Reglas duras: no cambies el \
     significado, no agregues contenido, no respondas preguntas del texto, \
     no expliques nada — devuelve únicamente el texto corregido. ";

/// Body of the instruction prompt.
pub const INSTRUCTION_BASE: &'static str = "Eres un asistente de redacción por voz. El usuario dicta una \
     instrucción y tu respuesta se insertará tal cual donde está su \
     cursor. Devuelve únicamente el texto pedido, sin preámbulos, sin \
     explicaciones y sin formato Markdown salvo que lo pidan. ";

/// Language clause of the clean-up prompt.
pub open spec fn improve_clause(language: Option<Seq<char>>) -> Seq<char> {
    if language == Some("es"@) {
        "El dictado está en español; responde en español."@
    } else if language == Some("en"@) {
        "The dictation is in English; respond in English."@
    } else {
        "Responde en el mismo idioma del dictado."@
    }
}

/// Language clause of the instruction prompt.
pub open spec fn instruction_clause(language: Option<Seq<char>>) -> Seq<char> {
    if language == Some("es"@) {
        "Salvo que la instrucción pida otro idioma, escribe en español."@
    } else if language == Some("en"@) {
        "Unless the instruction asks for another language, write in English."@
    } else {
        "Salvo que la instrucción pida otro idioma, usa el idioma de la instrucción."@
    }
}

pub proof fn lemma_en_is_not_es()
    ensures
        "en"@ != "es"@,
{
    reveal_strlit("en");
    reveal_strlit("es");
    assert("en"@[1] != "es"@[1]);
}

/// Whether the language is `code`.
fn is_language(language: Option<&str>, code: &str) -> (r: bool)
    ensures
        r == (language_view(language) == Some(code@)),
{
    match language {
        Some(l) => str_eq(l, code),
        None => false,
    }
}

/// System prompt of the clean-up mode (v1): remove filler words, fix the
/// punctuation and polish the wording without changing the meaning. Only
/// the language of the dictation varies.
pub fn improve_system_prompt(language: Option<&str>) -> (p: String)
    ensures
        p@ == IMPROVE_BASE@ + improve_clause(language_view(language)),
        language_view(language) == Some("es"@) ==> p@ == IMPROVE_BASE@
            + "El dictado está en español; responde en español."@,
        language_view(language) == Some("en"@) ==> p@ == IMPROVE_BASE@
            + "The dictation is in English; respond in English."@,
{
    proof {
        lemma_en_is_not_es();
    }
    let clause = if is_language(language, "es") {
        "El dictado está en español; responde en español."
    } else if is_language(language, "en") {
        "The dictation is in English; respond in English."
    } else {
        "Responde en el mismo idioma del dictado."
    };
    concat_str(IMPROVE_BASE, clause)
}

/// System prompt of the instruction mode (v1): the user's voice is the
/// instruction, and the answer is inserted as is.
pub fn instruction_system_prompt(language: Option<&str>) -> (p: String)
    ensures
        p@ == INSTRUCTION_BASE@ + instruction_clause(language_view(language)),
        language_view(language) == Some("es"@) ==> p@ == INSTRUCTION_BASE@
            + "Salvo que la instrucción pida otro idioma, escribe en español."@,
        language_view(language) == Some("en"@) ==> p@ == INSTRUCTION_BASE@
            + "Unless the instruction asks for another language, write in English."@,
{
    proof {
        lemma_en_is_not_es();
    }
    let clause = if is_language(language, "es") {
        "Salvo que la instrucción pida otro idioma, escribe en español."
    } else if is_language(language, "en") {
        "Unless the instruction asks for another language, write in English."
    } else {
        "Salvo que la instrucción pida otro idioma, usa el idioma de la instrucción."
    };
    concat_str(INSTRUCTION_BASE, clause)
}

} // verus!

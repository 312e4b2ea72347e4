//! The Groq provider: identity, base URL, default model, and the
//! classification of the model ids that its API lists.

use vstd::prelude::*;

use crate::providers::openai_compatible::OpenAiCompatibleProvider;
use crate::providers::ModelKind;
use crate::text::{contains, has_infix, lower_chars, lower_seq};

verus! {

pub const ID: &'static str = "groq";

pub const DEFAULT_MODEL: &'static str = "whisper-large-v3-turbo";

pub const BASE_URL: &'static str = "https://api.groq.com/openai/v1";

/// The Groq provider with the given key.
pub fn provider(api_key: String) -> (p: OpenAiCompatibleProvider)
    ensures
        p.id@ == ID@,
        p.base_url@ == BASE_URL@,
        p.api_key@ == api_key@,
{
    OpenAiCompatibleProvider::new(ID, BASE_URL, api_key)
}

/// Classification of a Groq model id, case-insensitively: speech-to-text
/// when it contains `whisper`; otherwise chat, except text-to-speech, guard
/// and embedding models, which are left out.
pub open spec fn spec_classify_model(id: Seq<char>) -> Option<ModelKind> {
    let l = lower_seq(id);
    if has_infix(l, "whisper"@) {
        Some(ModelKind::Stt)
    } else if has_infix(l, "tts"@) || has_infix(l, "guard"@) || has_infix(l, "embedding"@) {
        None
    } else {
        Some(ModelKind::Chat)
    }
}

/// Classifies a Groq model id.
pub fn classify_model(id: &str) -> (kind: Option<ModelKind>)
    ensures
        kind == spec_classify_model(id@),
{
    let l = lower_chars(id);
    if contains(&l, "whisper") {
        return Some(ModelKind::Stt);
    }
    if contains(&l, "tts") || contains(&l, "guard") || contains(&l, "embedding") {
        return None;
    }
    Some(ModelKind::Chat)
}

/// How a Groq id is classified, stated on the literal patterns
/// (case-insensitively): ids that contain `whisper` are speech-to-text;
/// text-to-speech, guard and embedding models are left out; every other
/// listed model is chat.
pub proof fn law_groq_classification(id: Seq<char>)
    ensures
        ({
            let l = lower_seq(id);
            let other = has_infix(l, "tts"@) || has_infix(l, "guard"@) || has_infix(
                l,
                "embedding"@,
            );
            &&& has_infix(l, "whisper"@) ==> spec_classify_model(id) == Some(ModelKind::Stt)
            &&& (!has_infix(l, "whisper"@) && other) ==> spec_classify_model(id) is None
            &&& (!has_infix(l, "whisper"@) && !other) ==> spec_classify_model(id) == Some(
                ModelKind::Chat,
            )
        }),
{
}

} // verus!

//! The OpenAI provider: identity, base URL, default model, and the
//! classification of the model ids that its API lists.

use vstd::prelude::*;

use crate::providers::openai_compatible::OpenAiCompatibleProvider;
use crate::providers::ModelKind;
use crate::text::{contains, has_infix, has_prefix, lower_chars, lower_seq, starts_with};

verus! {

pub const ID: &'static str = "openai";

pub const DEFAULT_MODEL: &'static str = "gpt-4o-mini-transcribe";

pub const BASE_URL: &'static str = "https://api.openai.com/v1";

/// The OpenAI provider with the given key.
pub fn provider(api_key: String) -> (p: OpenAiCompatibleProvider)
    ensures
        p.id@ == ID@,
        p.base_url@ == BASE_URL@,
        p.api_key@ == api_key@,
{
    OpenAiCompatibleProvider::new(ID, BASE_URL, api_key)
}

/// Patterns that rule a (lowercased) id out as a chat model: not usable on
/// `POST /chat/completions`, or of another modality.
pub open spec fn chat_excluded(l: Seq<char>) -> bool {
    ||| has_infix(l, "embedding"@)
    ||| has_infix(l, "tts"@)
    ||| has_infix(l, "dall-e"@)
    ||| has_infix(l, "image"@)
    ||| has_infix(l, "moderation"@)
    ||| has_infix(l, "realtime"@)
    ||| has_infix(l, "audio"@)
    ||| has_infix(l, "search"@)
    ||| has_infix(l, "computer-use"@)
    ||| has_infix(l, "sora"@)
    ||| has_infix(l, "instruct"@)
    ||| has_infix(l, "davinci"@)
    ||| has_infix(l, "babbage"@)
    ||| has_infix(l, "codex"@)
}

/// Known chat families (lowercased id).
pub open spec fn chat_family(l: Seq<char>) -> bool {
    ||| has_prefix(l, "gpt-"@)
    ||| has_prefix(l, "chatgpt-"@)
    ||| has_prefix(l, "o1"@)
    ||| has_prefix(l, "o3"@)
    ||| has_prefix(l, "o4"@)
}

/// Classification of an OpenAI model id, case-insensitively: speech-to-text
/// by allowlist (contains `transcribe` or starts with `whisper`); chat for
/// the known families minus the denylist; anything else is left out.
pub open spec fn spec_classify_model(id: Seq<char>) -> Option<ModelKind> {
    let l = lower_seq(id);
    if has_infix(l, "transcribe"@) || has_prefix(l, "whisper"@) {
        Some(ModelKind::Stt)
    } else if chat_excluded(l) {
        None
    } else if chat_family(l) {
        Some(ModelKind::Chat)
    } else {
        None
    }
}

/// Classifies an OpenAI model id.
pub fn classify_model(id: &str) -> (kind: Option<ModelKind>)
    ensures
        kind == spec_classify_model(id@),
{
    let l = lower_chars(id);
    if contains(&l, "transcribe") || starts_with(&l, "whisper") {
        return Some(ModelKind::Stt);
    }
    if contains(&l, "embedding") || contains(&l, "tts") || contains(&l, "dall-e") || contains(
        &l,
        "image",
    ) || contains(&l, "moderation") || contains(&l, "realtime") || contains(&l, "audio")
        || contains(&l, "search") || contains(&l, "computer-use") || contains(&l, "sora")
        || contains(&l, "instruct") || contains(&l, "davinci") || contains(&l, "babbage")
        || contains(&l, "codex") {
        return None;
    }
    if starts_with(&l, "gpt-") || starts_with(&l, "chatgpt-") || starts_with(&l, "o1")
        || starts_with(&l, "o3") || starts_with(&l, "o4") {
        Some(ModelKind::Chat)
    } else {
        None
    }
}

/// How an OpenAI id is classified, stated on the literal families and
/// patterns (case-insensitively): ids that contain `transcribe` or start
/// with `whisper` are speech-to-text; ids of the chat families `gpt-`,
/// `chatgpt-`, `o1`, `o3` and `o4` that hold none of the excluded patterns
/// are chat; and nothing outside those families is chat.
pub proof fn law_openai_classification(id: Seq<char>)
    ensures
        ({
            let l = lower_seq(id);
            let stt = has_infix(l, "transcribe"@) || has_prefix(l, "whisper"@);
            let family = has_prefix(l, "gpt-"@) || has_prefix(l, "chatgpt-"@) || has_prefix(
                l,
                "o1"@,
            ) || has_prefix(l, "o3"@) || has_prefix(l, "o4"@);
            let excluded = has_infix(l, "embedding"@) || has_infix(l, "tts"@) || has_infix(
                l,
                "dall-e"@,
            ) || has_infix(l, "image"@) || has_infix(l, "moderation"@) || has_infix(
                l,
                "realtime"@,
            ) || has_infix(l, "audio"@) || has_infix(l, "search"@) || has_infix(
                l,
                "computer-use"@,
            ) || has_infix(l, "sora"@) || has_infix(l, "instruct"@) || has_infix(l, "davinci"@)
                || has_infix(l, "babbage"@) || has_infix(l, "codex"@);
            &&& stt ==> spec_classify_model(id) == Some(ModelKind::Stt)
            &&& (!stt && family && !excluded) ==> spec_classify_model(id) == Some(ModelKind::Chat)
            &&& spec_classify_model(id) == Some(ModelKind::Chat) ==> family && !excluded && !stt
            &&& (!stt && (excluded || !family)) ==> spec_classify_model(id) is None
        }),
{
}

} // verus!

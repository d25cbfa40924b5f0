use vstd::prelude::*;

use crate::text::str_eq;
use crate::types::{
    capabilities_of, opt_view, spec_capabilities_of, EngineType, InferenceParams,
    TimestampGranularity,
};

verus! {

/// The language code as a backend takes it: "auto" means auto-detect
/// (None); any regional Chinese variant ("zh-...") collapses to "zh".
pub open spec fn spec_normalize_language(s: Seq<char>) -> Option<Seq<char>> {
    if s == "auto"@ {
        Option::None
    } else if s.len() >= 3 && s.subrange(0, 3) == "zh-"@ {
        Option::Some("zh"@)
    } else {
        Option::Some(s)
    }
}

pub fn normalize_language(lang: &str) -> (r: Option<String>)
    ensures
        opt_view(r) == spec_normalize_language(lang@),
{
    if str_eq(lang, "auto") {
        return None;
    }
    let n = lang.unicode_len();
    if n >= 3 {
        let head = lang.substring_char(0, 3);
        if str_eq(head, "zh-") {
            let zh = "zh";
            return Some(zh.to_owned());
        }
    }
    Some(lang.to_owned())
}

/// What the pipeline passes as the initial prompt: the previous chunk's
/// text, when there is one and the engine honors prompts.
pub open spec fn spec_initial_prompt(engine: EngineType, context: Seq<char>) -> Option<Seq<char>> {
    if context.len() > 0 && spec_capabilities_of(engine).supports_initial_prompt {
        Option::Some(context)
    } else {
        Option::None
    }
}

/// Build the normalized inference parameters for one chunk.
pub fn build_inference_params(
    engine: EngineType,
    language: &str,
    translate: bool,
    context: &str,
) -> (p: InferenceParams)
    ensures
        opt_view(p.language) == spec_normalize_language(language@),
        p.translate == translate,
        opt_view(p.initial_prompt) == spec_initial_prompt(engine, context@),
        p.timestamp_granularity == TimestampGranularity::Segment,
{
    let caps = capabilities_of(engine);
    let prompt: Option<String> = if !context.is_empty() && caps.supports_initial_prompt {
        Some(context.to_owned())
    } else {
        None
    };
    InferenceParams {
        language: normalize_language(language),
        translate,
        initial_prompt: prompt,
        timestamp_granularity: TimestampGranularity::Segment,
    }
}

} // verus!

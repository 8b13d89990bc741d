//! Per-word choice of source and target language, and the requests built
//! from it.

use vstd::prelude::*;
use vstd::string::*;
use crate::api::{LanguageDetectRequest, TextTranslateRequest};
use crate::error::{error_kind, ErrorKind, ServiceError};
use crate::lang::{get_target_lang, language_code, target_rule, Language};

verus! {

/// The source used when detection cannot recognise the language.
pub open spec fn fallback_source() -> Seq<char> {
    seq!['z', 'h']
}

/// The target used when the fixed rule has none for the source.
pub open spec fn fallback_target() -> Seq<char> {
    seq!['e', 'n']
}

/// The target for `source`: the one chosen, else the rule's, else "en".
pub open spec fn resolved_target(target: Option<Language>, source: Seq<char>) -> Seq<char> {
    match target {
        Some(t) => language_code(t),
        None => match target_rule(source) {
            Some(t) => t,
            None => fallback_target(),
        },
    }
}

/// The languages one word is translated between.
#[derive(Debug, Clone)]
pub struct LanguageDecision {
    pub source: String,
    pub target: String,
}

/// The source language that a detection outcome gives: the detected code,
/// "zh" where the language could not be recognised, else the error.
pub fn detected_source(detection: Result<String, ServiceError>) -> (r: Result<String, ServiceError>)
    ensures
        match detection {
            Ok(lang) => r == Ok::<String, ServiceError>(lang),
            Err(e) => if error_kind(e) == ErrorKind::LanguageRecognitionFailed {
                r is Ok && r->Ok_0@ == fallback_source()
            } else {
                r == Err::<String, ServiceError>(e)
            },
        },
{
    match detection {
        Ok(lang) => Ok(lang),
        Err(e) => {
            if e.kind() == ErrorKind::LanguageRecognitionFailed {
                proof {
                    reveal_strlit("zh");
                    assert("zh"@ =~= fallback_source());
                }
                Ok(String::from_str("zh"))
            } else {
                Err(e)
            }
        },
    }
}

/// The source language code for a word whose source was given.
pub fn chosen_source(source: Language) -> (r: String)
    ensures
        r@ == language_code(source),
{
    String::from_str(source.as_str())
}

/// Completes the decision for a word whose source language is known.
pub fn resolve(source: String, target: Option<Language>) -> (r: LanguageDecision)
    ensures
        r.source == source,
        r.target@ == resolved_target(target, source@),
{
    let target_lang = match target {
        Some(t) => String::from_str(t.as_str()),
        None => match get_target_lang(source.as_str()) {
            Some(t) => String::from_str(t),
            None => {
                proof {
                    reveal_strlit("en");
                    assert("en"@ =~= fallback_target());
                }
                String::from_str("en")
            },
        },
    };
    LanguageDecision { source, target: target_lang }
}

/// The detection request for `word`.
pub fn detect_request(word: &str) -> (r: LanguageDetectRequest)
    ensures
        r.text@ == word@,
        r.project_id == 0,
{
    LanguageDetectRequest { text: String::from_str(word), project_id: 0 }
}

/// The translation request for `word` between the decided languages.
pub fn translate_request(word: String, decision: LanguageDecision) -> (r: TextTranslateRequest)
    ensures
        r.source_text == word,
        r.source == decision.source,
        r.target == decision.target,
        r.project_id == 0,
{
    TextTranslateRequest {
        source_text: word,
        source: decision.source,
        target: decision.target,
        project_id: 0,
    }
}

} // verus!

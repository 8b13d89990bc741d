//! The two calls of the translation service, as plain request and response
//! values; their wire form is given to them outside the library.

use vstd::prelude::*;

verus! {

/// The text translation call.
#[derive(Debug, Copy, Clone)]
pub struct TextTranslate;

/// Asks to translate `source_text` from `source` into `target`.
#[derive(Debug, Clone)]
pub struct TextTranslateRequest {
    pub source_text: String,
    pub source: String,
    pub target: String,
    pub project_id: i64,
}

/// The translation, with the languages it was made between.
#[derive(Debug, Clone)]
pub struct TextTranslateResponse {
    pub source: String,
    pub target: String,
    pub target_text: String,
}

/// The language detection call.
#[derive(Debug, Copy, Clone)]
pub struct LanguageDetect;

/// Asks which language `text` is in.
#[derive(Debug, Clone)]
pub struct LanguageDetectRequest {
    pub text: String,
    pub project_id: i64,
}

/// The detected language code.
#[derive(Debug, Clone)]
pub struct LanguageDetectResponse {
    pub lang: String,
}

} // verus!

//! Translation requests and answers.
use vstd::prelude::*;

verus! {

/// Query options of the translation endpoint.
#[derive(Debug, Clone, Copy, PartialEq, Eq)]
pub struct TranslateQuery {
    /// Bypass the translation cache.
    pub force: bool,
}

/// Body of a translation request.
#[derive(Debug, Clone)]
pub struct TranslationInputRequest {
    pub translation_input: String,
    pub context: Option<String>,
    pub segment_id: u64,
}

/// What is sent to the model to translate.
#[derive(Debug, Clone)]
pub struct TranslationInput {
    pub translation_input: String,
    pub context: Option<String>,
}

/// Answer of the translation endpoint.
#[derive(Debug)]
pub struct TranslationOutputResponse {
    pub served_from_cache: bool,
    pub input_hash: String,
    pub translation: TranslationOutput,
}

/// Error body of the translation endpoint.
#[derive(Debug, Clone)]
pub struct TranslationErrorResponse {
    pub message: String,
}

/// The model's analysis and translation of a sentence.
#[derive(Debug)]
pub struct TranslationOutput {
    pub source_text: String,
    pub phrase_breakdowns: Vec<PhraseBreakdown>,
    pub grammar_constructions: Vec<GrammarConstruction>,
    pub kanji_words: Vec<KanjiWord>,
    pub translations: Vec<String>,
}

/// A phrase of the sentence with its tokens.
#[derive(Debug)]
pub struct PhraseBreakdown {
    pub phrase: String,
    pub tokens: Vec<Token>,
}

/// A token with its meaning.
#[derive(Debug, Clone)]
pub struct Token {
    pub token: String,
    pub meaning: String,
}

/// A grammar pattern found in the sentence.
#[derive(Debug, Clone)]
pub struct GrammarConstruction {
    pub name: String,
    pub pattern: Option<String>,
    pub description: String,
}

/// A word written with kanji and its reading.
#[derive(Debug, Clone)]
pub struct KanjiWord {
    pub kanji: String,
    pub reading: String,
}

} // verus!

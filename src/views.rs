use crate::error::NlpError;
use crate::language::LanguageCode;
use crate::text::{is_trimmed, trim, trimmed};
use std::sync::Arc;
use vstd::prelude::*;

verus! {

/// A loaded translation engine.
pub trait TranslationEngine {
    /// Whether `r` is an answer that this engine may give when asked to
    /// translate `text` from `source` to `target`. Each engine decides what
    /// it answers; nothing more is assumed of it.
    spec fn answers(
        &self,
        text: &str,
        source: LanguageCode,
        target: LanguageCode,
        r: Result<String, String>,
    ) -> bool;

    /// Translates `text` from `source` to `target`; an error carries the
    /// engine's message.
    fn translate(&self, text: &str, source: LanguageCode, target: LanguageCode) -> (r: Result<
        String,
        String,
    >)
        ensures
            self.answers(text, source, target, r),
    ;
}

/// A translation direction bound to the shared engine that serves it.
pub struct Translator<T> {
    pub source: LanguageCode,
    pub target: LanguageCode,
    pub model: Arc<T>,
}

/// What a translation request returns for the engine's raw answer: the text
/// without surrounding white space, or the engine's failure.
pub fn finish_translation(raw: Result<String, String>) -> (r: Result<String, NlpError>)
    ensures
        match raw {
            Ok(s) => r is Ok && r->Ok_0@ == trimmed(s@),
            Err(m) => r == Err::<String, NlpError>(NlpError::InferenceFailed(m)),
        },
        r is Ok ==> is_trimmed(r->Ok_0@),
{
    match raw {
        Ok(s) => Ok(trim(s.as_str())),
        Err(m) => Err(NlpError::InferenceFailed(m)),
    }
}

impl<T: TranslationEngine> Translator<T> {
    pub fn new(source: LanguageCode, target: LanguageCode, model: Arc<T>) -> (r: Self)
        ensures
            r.source == source,
            r.target == target,
            r.model == model,
    {
        Translator { source, target, model }
    }

    /// Translates `text` in this direction: the engine is asked for `text`
    /// from `source` to `target`, and its answer comes back without
    /// surrounding white space; its failure comes back as `InferenceFailed`.
    pub fn translate(&self, text: &str) -> (r: Result<String, NlpError>)
        ensures
            exists|raw: Result<String, String>|
                #[trigger] self.model.answers(text, self.source, self.target, raw) && match raw {
                    Ok(s) => r is Ok && r->Ok_0@ == trimmed(s@),
                    Err(m) => r == Err::<String, NlpError>(NlpError::InferenceFailed(m)),
                },
            r is Ok ==> is_trimmed(r->Ok_0@),
            r is Err ==> r->Err_0 is InferenceFailed,
    {
        let raw = self.model.translate(text, self.source, self.target);
        finish_translation(raw)
    }
}

/// The first of an engine's outputs, which is the answer for a single
/// input; an engine that answered with nothing has failed.
pub fn first_output<T>(outputs: Vec<T>) -> (r: Result<T, NlpError>)
    ensures
        outputs@.len() > 0 ==> r == Ok::<T, NlpError>(outputs@[0]),
        outputs@.len() == 0 ==> r is Err && r->Err_0 is InferenceFailed,
{
    let mut outputs = outputs;
    if outputs.len() == 0 {
        Err(NlpError::InferenceFailed(String::from_str("the engine returned no output")))
    } else {
        Ok(outputs.swap_remove(0))
    }
}

} // verus!

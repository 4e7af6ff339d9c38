use crate::error::NlpError;
use vstd::prelude::*;

verus! {

/// The languages that requests may name.
#[derive(Debug, Clone, Copy, PartialEq, Eq, Structural, Hash)]
pub enum LanguageCode {
    English,
    Spanish,
    Portuguese,
    Italian,
    Catalan,
    German,
    Russian,
    ChineseMandarin,
    Dutch,
    Swedish,
    Arabic,
    Hebrew,
    Hindi,
}

/// The two-letter identifier of each language.
pub open spec fn code_of(l: LanguageCode) -> Seq<char> {
    match l {
        LanguageCode::English => seq!['e', 'n'],
        LanguageCode::Spanish => seq!['e', 's'],
        LanguageCode::Portuguese => seq!['p', 't'],
        LanguageCode::Italian => seq!['i', 't'],
        LanguageCode::Catalan => seq!['c', 'a'],
        LanguageCode::German => seq!['d', 'e'],
        LanguageCode::Russian => seq!['r', 'u'],
        LanguageCode::ChineseMandarin => seq!['z', 'h'],
        LanguageCode::Dutch => seq!['n', 'l'],
        LanguageCode::Swedish => seq!['s', 'v'],
        LanguageCode::Arabic => seq!['a', 'r'],
        LanguageCode::Hebrew => seq!['h', 'e'],
        LanguageCode::Hindi => seq!['h', 'i'],
    }
}

/// Whether some language is identified by `s`.
pub open spec fn is_supported(s: Seq<char>) -> bool {
    exists|l: LanguageCode| code_of(l) == s
}

/// The language identified by a two-letter code, from its two characters.
fn language_of_pair(a: char, b: char) -> (r: Option<LanguageCode>)
    ensures
        match r {
            Some(l) => code_of(l) == seq![a, b],
            None => forall|l: LanguageCode| code_of(l) != seq![a, b],
        },
{
    let r = match (a, b) {
        ('e', 'n') => Some(LanguageCode::English),
        ('e', 's') => Some(LanguageCode::Spanish),
        ('p', 't') => Some(LanguageCode::Portuguese),
        ('i', 't') => Some(LanguageCode::Italian),
        ('c', 'a') => Some(LanguageCode::Catalan),
        ('d', 'e') => Some(LanguageCode::German),
        ('r', 'u') => Some(LanguageCode::Russian),
        ('z', 'h') => Some(LanguageCode::ChineseMandarin),
        ('n', 'l') => Some(LanguageCode::Dutch),
        ('s', 'v') => Some(LanguageCode::Swedish),
        ('a', 'r') => Some(LanguageCode::Arabic),
        ('h', 'e') => Some(LanguageCode::Hebrew),
        ('h', 'i') => Some(LanguageCode::Hindi),
        _ => None,
    };
    proof {
        if r is None {
            assert forall|l: LanguageCode| code_of(l) != seq![a, b] by {
                if code_of(l) == seq![a, b] {
                    assert(code_of(l)[0] == a && code_of(l)[1] == b);
                }
            }
        }
    }
    r
}

/// The language that `s` identifies, if any.
pub fn string_to_language(s: &str) -> (r: Option<LanguageCode>)
    ensures
        match r {
            Some(l) => code_of(l) == s@,
            None => !is_supported(s@),
        },
{
    if s.unicode_len() != 2 {
        return None;
    }
    let r = language_of_pair(s.get_char(0), s.get_char(1));
    assert(s@ == seq![s@[0], s@[1]]);
    r
}

/// Resolves a language identifier; anything outside the supported set is
/// rejected with `UnsupportedLanguage`.
pub fn resolve(s: &str) -> (r: Result<LanguageCode, NlpError>)
    ensures
        match r {
            Ok(l) => code_of(l) == s@,
            Err(e) => e == NlpError::UnsupportedLanguage && !is_supported(s@),
        },
{
    match string_to_language(s) {
        Some(l) => Ok(l),
        None => Err(NlpError::UnsupportedLanguage),
    }
}

/// Resolves a source and a target language, the source first.
pub fn resolve_pair(from: &str, to: &str) -> (r: Result<(LanguageCode, LanguageCode), NlpError>)
    ensures
        match r {
            Ok((s, t)) => code_of(s) == from@ && code_of(t) == to@,
            Err(e) => e == NlpError::UnsupportedLanguage && (!is_supported(from@) || !is_supported(
                to@,
            )),
        },
{
    let source = resolve(from)?;
    let target = resolve(to)?;
    Ok((source, target))
}

impl LanguageCode {
    /// The two-letter identifier of this language.
    pub fn code(&self) -> (r: &'static str)
        ensures
            r@ == code_of(*self),
    {
        match self {
            LanguageCode::English => {
                proof { reveal_strlit("en"); }
                "en"
            },
            LanguageCode::Spanish => {
                proof { reveal_strlit("es"); }
                "es"
            },
            LanguageCode::Portuguese => {
                proof { reveal_strlit("pt"); }
                "pt"
            },
            LanguageCode::Italian => {
                proof { reveal_strlit("it"); }
                "it"
            },
            LanguageCode::Catalan => {
                proof { reveal_strlit("ca"); }
                "ca"
            },
            LanguageCode::German => {
                proof { reveal_strlit("de"); }
                "de"
            },
            LanguageCode::Russian => {
                proof { reveal_strlit("ru"); }
                "ru"
            },
            LanguageCode::ChineseMandarin => {
                proof { reveal_strlit("zh"); }
                "zh"
            },
            LanguageCode::Dutch => {
                proof { reveal_strlit("nl"); }
                "nl"
            },
            LanguageCode::Swedish => {
                proof { reveal_strlit("sv"); }
                "sv"
            },
            LanguageCode::Arabic => {
                proof { reveal_strlit("ar"); }
                "ar"
            },
            LanguageCode::Hebrew => {
                proof { reveal_strlit("he"); }
                "he"
            },
            LanguageCode::Hindi => {
                proof { reveal_strlit("hi"); }
                "hi"
            },
        }
    }
}

/// No two languages share an identifier, so resolving the identifier of a
/// language gives back that language, and nothing else resolves to it.
pub proof fn lemma_resolve_identifies(l: LanguageCode, s: Seq<char>)
    ensures
        is_supported(code_of(l)),
        code_of(l) == s <==> (is_supported(s) && (forall|m: LanguageCode|
            code_of(m) == s ==> m == l)),
{
    assert(code_of(l) == code_of(l));
    assert forall|m: LanguageCode| code_of(m) == code_of(l) implies m == l by {
        assert(code_of(m)[0] == code_of(l)[0] && code_of(m)[1] == code_of(l)[1]);
    }
}

} // verus!

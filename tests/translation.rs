use pg_nlp::error::NlpError;
use pg_nlp::dispatch::acquire_translation;
use pg_nlp::language::LanguageCode;
use pg_nlp::registry::{Claim, ResourceKey, ResourceRegistry};
use pg_nlp::views::{finish_translation, first_output, TranslationEngine, Translator};

/// An engine that knows one Dutch word.
struct DutchWords;

impl TranslationEngine for DutchWords {
    fn answers(&self, text: &str, source: LanguageCode, target: LanguageCode, r: Result<String, String>) -> bool {
        self.translate(text, source, target) == r
    }

    fn translate(&self, text: &str, source: LanguageCode, target: LanguageCode) -> Result<String, String> {
        match (text, source, target) {
            ("hallo", LanguageCode::Dutch, LanguageCode::English) => Ok(" hello\n".to_string()),
            _ => Err(format!("cannot translate {text}")),
        }
    }
}

fn registry() -> ResourceRegistry<DutchWords> {
    let mut registry = ResourceRegistry::new();
    registry.register(ResourceKey::Translation(LanguageCode::Dutch, LanguageCode::English));
    registry
}

fn translate(registry: &mut ResourceRegistry<DutchWords>, from: &str, to: &str, text: &str) -> Result<String, NlpError> {
    let (key, claim) = acquire_translation(registry, from, to)?;
    let (source, target) = key.direction().unwrap();
    let model = match claim {
        Claim::Ready(model) => model,
        Claim::Build => registry.complete(key, Ok(DutchWords))?,
        Claim::Wait => panic!("nobody else is building"),
    };
    Translator::new(source, target, model).translate(text)
}

#[test]
fn translates_through_the_registry() {
    let mut registry = registry();
    assert_eq!(translate(&mut registry, "nl", "en", "hallo"), Ok("hello".to_string()));
    assert_eq!(translate(&mut registry, "nl", "en", "hallo"), Ok("hello".to_string()));
}

#[test]
fn unknown_code_is_rejected_before_the_registry() {
    let mut registry = registry();
    assert_eq!(translate(&mut registry, "xx", "en", "hallo"), Err(NlpError::UnsupportedLanguage));
    assert_eq!(translate(&mut registry, "nl", "fr", "hallo"), Err(NlpError::UnsupportedLanguage));
}

#[test]
fn unregistered_pair_is_unavailable() {
    let mut registry = registry();
    assert_eq!(translate(&mut registry, "nl", "de", "hallo"), Err(NlpError::ResourceUnavailable));
    assert_eq!(translate(&mut registry, "en", "nl", "hello"), Err(NlpError::ResourceUnavailable));
}

#[test]
fn engine_failure_is_reported() {
    let mut registry = registry();
    assert_eq!(
        translate(&mut registry, "nl", "en", "dag"),
        Err(NlpError::InferenceFailed("cannot translate dag".to_string()))
    );
}

#[test]
fn raw_answers_are_trimmed() {
    assert_eq!(finish_translation(Ok("  hello world \t".to_string())), Ok("hello world".to_string()));
    assert_eq!(finish_translation(Ok("\n".to_string())), Ok(String::new()));
    assert_eq!(
        finish_translation(Err("out of memory".to_string())),
        Err(NlpError::InferenceFailed("out of memory".to_string()))
    );
}

#[test]
fn first_output_answers_a_single_input() {
    assert_eq!(first_output(vec![vec![1u32, 2], vec![3]]), Ok(vec![1, 2]));
    assert!(matches!(first_output(Vec::<String>::new()), Err(NlpError::InferenceFailed(_))));
}

#[test]
fn unsupported_code_leaves_the_registry_untouched() {
    let mut registry = registry();
    assert!(matches!(acquire_translation(&mut registry, "nl", "xx"), Err(NlpError::UnsupportedLanguage)));
    // The pair is still idle: the next request for it is told to build.
    assert!(matches!(acquire_translation(&mut registry, "nl", "en"), Ok((_, Claim::Build))));
    assert!(matches!(acquire_translation(&mut registry, "nl", "en"), Ok((_, Claim::Wait))));
}

#[test]
fn translation_keys_name_their_direction() {
    let key = ResourceKey::Translation(LanguageCode::Dutch, LanguageCode::English);
    assert_eq!(key.direction(), Some((LanguageCode::Dutch, LanguageCode::English)));
    assert_eq!(ResourceKey::SentenceEmbeddings.direction(), None);
}

/// An engine that answers in the direction it is asked for, so that a
/// swapped direction would show.
struct Echo;

impl TranslationEngine for Echo {
    fn answers(&self, text: &str, source: LanguageCode, target: LanguageCode, r: Result<String, String>) -> bool {
        self.translate(text, source, target) == r
    }

    fn translate(&self, text: &str, source: LanguageCode, target: LanguageCode) -> Result<String, String> {
        Ok(format!("\t{}>{}:{}  ", source.code(), target.code(), text))
    }
}

#[test]
fn translator_asks_for_its_own_text_and_direction() {
    let translator = Translator::new(LanguageCode::German, LanguageCode::Swedish, std::sync::Arc::new(Echo));
    assert_eq!(translator.translate("guten tag"), Ok("de>sv:guten tag".to_string()));
}

use icu_provider_core::error::DataError;
use icu_provider_core::hello_world::HelloWorldProvider;
use icu_provider_core::key::{Request, ResourceCategory, ResourceKey};
use icu_provider_core::locale::{parse_language_identifier, LanguageIdentifier, ParserMode};
use icu_provider_core::payload::DataPayload;
use icu_provider_core::structs::{HelloWorldV1, PluralRuleStringsV1};

fn langid(s: &str) -> LanguageIdentifier {
    parse_language_identifier(s.as_bytes(), ParserMode::LanguageIdentifier).unwrap()
}

fn hello_key() -> ResourceKey {
    ResourceKey::new(ResourceCategory::Icu4x, "helloworld", 1)
}

#[test]
fn hello_world_placeholder_data() {
    let provider = HelloWorldProvider::new_with_placeholder_data();
    let german = provider
        .load(&Request::new(hello_key(), langid("de")))
        .unwrap()
        .take_payload::<HelloWorldV1>()
        .unwrap();
    assert_eq!("Hallo Welt", german.get().message);
    let list = provider.supported_options_for_key(&hello_key()).unwrap();
    assert_eq!(list.len(), 15);
    assert_eq!(list[0].langid, langid("bn"));
    assert_eq!(list[14].langid, langid("zh"));
}

#[test]
fn hello_world_errors() {
    let provider = HelloWorldProvider::new_with_placeholder_data();
    assert!(matches!(
        provider.load(&Request::new(hello_key(), langid("en-US"))),
        Err(DataError::UnavailableEntry(_))
    ));
    let plurals = ResourceKey::new(ResourceCategory::Plurals, "cardinal", 1);
    assert!(matches!(
        provider.load(&Request::new(plurals, langid("en"))),
        Err(DataError::UnsupportedCategory(ResourceCategory::Plurals))
    ));
    let other = ResourceKey::new(ResourceCategory::Icu4x, "goodbye", 1);
    assert!(matches!(
        provider.supported_options_for_key(&other),
        Err(DataError::UnsupportedSubCategory(_))
    ));
}

#[test]
fn hello_world_put_payload() {
    let mut provider = HelloWorldProvider::from_messages(vec![]).unwrap();
    let req = Request::new(hello_key(), langid("en-GB"));
    let payload = DataPayload::from_owned(HelloWorldV1 { message: "Hello, world".to_string() }).into_erased();
    provider.put_payload(&req, &payload).unwrap();
    let back = provider.load(&req).unwrap();
    assert_eq!(back.borrow_payload::<HelloWorldV1>().unwrap().message, "Hello, world");
    let wrong = DataPayload::from_owned(PluralRuleStringsV1::empty()).into_erased();
    assert!(matches!(provider.put_payload(&req, &wrong), Err(DataError::MismatchedType { .. })));
    assert!(HelloWorldProvider::from_messages(vec![("?".to_string(), HelloWorldV1 { message: "x".to_string() })]).is_err());
}

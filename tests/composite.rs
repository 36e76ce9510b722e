use icu_provider_core::composite::CldrJsonDataProvider;
use icu_provider_core::error::{DataError, SourceError};
use icu_provider_core::key::{Request, ResourceCategory, ResourceKey};
use icu_provider_core::locale::{parse_language_identifier, LanguageIdentifier, ParserMode};
use icu_provider_core::structs::{DateFormatsV1, PluralRuleStringsV1};
use icu_provider_core::support::{CldrSources, CoreSources, LazyCldrProvider};
use icu_provider_core::plurals::PluralsProvider;

fn langid(s: &str) -> LanguageIdentifier {
    parse_language_identifier(s.as_bytes(), ParserMode::LanguageIdentifier).unwrap()
}

const PLURALS_JSON: &str = r#"{"supplemental":{"plurals-type-cardinal":{"cs":{"pluralRule-count-one":"i = 1 and v = 0"},"root":{}}}}"#;
const ORDINALS_JSON: &str = r#"{"supplemental":{"plurals-type-ordinal":{"en":{"pluralRule-count-one":"n % 10 = 1"}}}}"#;
const DATES_JSON: &str = r#"{"main":{"en":{"dates":{"calendars":{"gregorian":{"dateFormats":{"full":"EEEE, MMMM d, y","long":"MMMM d, y","medium":"MMM d, y","short":"M/d/yy"}}}}}}}"#;

fn sources() -> CldrSources {
    CldrSources {
        cldr_core: Some(CoreSources {
            plurals_json: PLURALS_JSON.to_string(),
            ordinals_json: ORDINALS_JSON.to_string(),
        }),
        cldr_dates: Some(vec![DATES_JSON.to_string()]),
    }
}

fn cardinal() -> ResourceKey {
    ResourceKey::new(ResourceCategory::Plurals, "cardinal", 1)
}

fn gregory() -> ResourceKey {
    ResourceKey::new(ResourceCategory::Dates, "gregory", 1)
}

#[test]
fn builds_once_over_many_loads() {
    let mut provider = CldrJsonDataProvider::new(sources());
    for _ in 0..5 {
        let response = provider.load(&Request::new(cardinal(), langid("cs"))).unwrap();
        let rules = response.borrow_payload::<PluralRuleStringsV1>().unwrap();
        assert_eq!(rules.one.as_deref(), Some("i = 1 and v = 0"));
    }
    assert!(provider.load(&Request::new(cardinal(), langid("xx"))).is_err());
    assert!(provider.iter_for_key(&cardinal()).is_ok());
    assert_eq!(provider.plurals_builds(), 1);
    assert_eq!(provider.dates_builds(), 0);
}

#[test]
fn lazy_cache_declines_without_building() {
    let mut cache: LazyCldrProvider<PluralsProvider> = LazyCldrProvider::new();
    let s = sources();
    assert!(matches!(cache.try_load(&Request::new(gregory(), langid("en")), &s), Ok(None)));
    assert_eq!(cache.builds(), 0);
    assert!(!cache.is_populated());
    assert!(matches!(cache.try_load(&Request::new(cardinal(), langid("cs")), &s), Ok(Some(_))));
    assert!(matches!(cache.try_load(&Request::new(cardinal(), langid("cs")), &s), Ok(Some(_))));
    assert_eq!(cache.builds(), 1);
    assert!(cache.is_populated());
}

#[test]
fn dates_key_never_builds_plurals() {
    let mut provider = CldrJsonDataProvider::new(sources());
    let response = provider.load(&Request::new(gregory(), langid("en"))).unwrap();
    assert_eq!(response.borrow_payload::<DateFormatsV1>().unwrap().short, "M/d/yy");
    let odd = ResourceKey::new(ResourceCategory::Dates, "japanese", 1);
    assert!(matches!(
        provider.load(&Request::new(odd, langid("en"))),
        Err(DataError::UnsupportedDataKey(_))
    ));
    assert_eq!(provider.plurals_builds(), 0);
    assert_eq!(provider.dates_builds(), 1);
}

#[test]
fn unknown_key_is_unsupported_and_builds_nothing() {
    let mut provider = CldrJsonDataProvider::new(sources());
    let decimal = ResourceKey::new(ResourceCategory::Decimal, "symbols", 1);
    match provider.load(&Request::new(decimal, langid("en"))) {
        Err(DataError::UnsupportedDataKey(k)) => assert_eq!(k.category, ResourceCategory::Decimal),
        other => panic!("unexpected: {:?}", other),
    }
    let v2 = ResourceKey::new(ResourceCategory::Plurals, "cardinal", 2);
    assert!(matches!(provider.iter_for_key(&v2), Err(DataError::UnsupportedDataKey(_))));
    assert_eq!(provider.plurals_builds(), 0);
    assert_eq!(provider.dates_builds(), 0);
}

#[test]
fn missing_source_leaves_cache_empty() {
    let mut provider = CldrJsonDataProvider::new(CldrSources { cldr_core: None, cldr_dates: None });
    for expected in 1..3u64 {
        match provider.load(&Request::new(cardinal(), langid("cs"))) {
            Err(DataError::ResourceError(SourceError::MissingSource(m))) => {
                assert_eq!(m.src, "cldr-core")
            }
            other => panic!("unexpected: {:?}", other),
        }
        assert_eq!(provider.plurals_builds(), expected);
    }
}

#[test]
fn enumerates_through_the_composite() {
    let mut provider = CldrJsonDataProvider::new(sources());
    let listed: Vec<LanguageIdentifier> =
        provider.iter_for_key(&cardinal()).unwrap().into_iter().map(|s| s.langid).collect();
    assert_eq!(listed, vec![LanguageIdentifier::und(), langid("cs")]);
    let listed: Vec<LanguageIdentifier> =
        provider.iter_for_key(&gregory()).unwrap().into_iter().map(|s| s.langid).collect();
    assert_eq!(listed, vec![langid("en")]);
}

use icu_provider_core::error::{DataError, SourceError};
use icu_provider_core::key::{Request, ResourceCategory, ResourceKey};
use icu_provider_core::locale::{parse_language_identifier, LanguageIdentifier, ParserMode};
use icu_provider_core::payload::{DataPayload, DataTypeId};
use icu_provider_core::cldr::cldr_locale;
use icu_provider_core::plurals::PluralsProvider;
use icu_provider_core::structs::PluralRuleStringsV1;
use icu_provider_core::support::DataTransform;

fn langid(s: &str) -> LanguageIdentifier {
    parse_language_identifier(s.as_bytes(), ParserMode::LanguageIdentifier).unwrap()
}

fn cardinal() -> ResourceKey {
    ResourceKey::new(ResourceCategory::Plurals, "cardinal", 1)
}

const SCENARIO_JSON: &str = r#"{"supplemental":{"plurals-type-cardinal":{"cs":{"pluralRule-count-one":"i = 1 and v = 0","pluralRule-count-few":"i = 2..4 and v = 0","pluralRule-count-many":"v != 0"}}}}"#;

const ORDINALS_JSON: &str = r#"{"supplemental":{"plurals-type-ordinal":{"en":{"pluralRule-count-one":"n % 10 = 1 and n % 100 != 11"}}}}"#;

fn rules(p: &PluralRuleStringsV1) -> [Option<&str>; 5] {
    [
        p.zero.as_deref(),
        p.one.as_deref(),
        p.two.as_deref(),
        p.few.as_deref(),
        p.many.as_deref(),
    ]
}

#[test]
fn plurals_test_basic() {
    let json = r#"{"supplemental":{"plurals-type-cardinal":{
        "cs":{"pluralRule-count-one":"i = 1 and v = 0 @integer 1",
              "pluralRule-count-few":"i = 2..4 and v = 0 @integer 2~4",
              "pluralRule-count-many":"v != 0   @decimal 0.0~1.5, 10.0, 100.0, 1000.0, 10000.0, 100000.0, 1000000.0, …",
              "pluralRule-count-other":" @integer 0, 5~19, 100, 1000, 10000, 100000, 1000000, …"},
        "en":{"pluralRule-count-one":"i = 1 and v = 0 @integer 1"}}}}"#;
    let provider = PluralsProvider::try_from_json(json, ORDINALS_JSON).unwrap();
    let response = provider.load(&Request::new(cardinal(), langid("cs"))).unwrap();
    let cs_rules = response.take_payload::<PluralRuleStringsV1>().unwrap();
    let cs_rules = cs_rules.get();
    assert_eq!(None, cs_rules.zero);
    assert_eq!(Some("i = 1 and v = 0 @integer 1"), cs_rules.one.as_deref());
    assert_eq!(None, cs_rules.two);
    assert_eq!(Some("i = 2..4 and v = 0 @integer 2~4"), cs_rules.few.as_deref());
    assert_eq!(
        Some("v != 0   @decimal 0.0~1.5, 10.0, 100.0, 1000.0, 10000.0, 100000.0, 1000000.0, …"),
        cs_rules.many.as_deref()
    );
}

#[test]
fn scenario_cs_cardinal_rules() {
    let provider = PluralsProvider::try_from_json(SCENARIO_JSON, ORDINALS_JSON).unwrap();
    let response = provider.load(&Request::new(cardinal(), langid("cs"))).unwrap();
    assert_eq!(response.metadata.data_langid, Some(langid("cs")));
    assert_eq!(response.get_payload_type_id(), Some(DataTypeId::PluralRuleStringsV1));
    let payload = response.take_payload::<PluralRuleStringsV1>().unwrap();
    assert!(matches!(payload, DataPayload::Borrowed(_)));
    assert_eq!(
        rules(payload.get()),
        [None, Some("i = 1 and v = 0"), None, Some("i = 2..4 and v = 0"), Some("v != 0")]
    );
}

#[test]
fn scenario_unknown_locale_is_unavailable() {
    let provider = PluralsProvider::try_from_json(SCENARIO_JSON, ORDINALS_JSON).unwrap();
    let result = provider.load(&Request::new(cardinal(), langid("xx")));
    match result {
        Err(DataError::UnavailableEntry(req)) => assert_eq!(req.locale.langid, langid("xx")),
        other => panic!("unexpected: {:?}", other),
    }
}

#[test]
fn no_fallback_to_parent_locale() {
    let json = r#"{"supplemental":{"plurals-type-cardinal":{"en":{"pluralRule-count-one":"i = 1 and v = 0"}}}}"#;
    let provider = PluralsProvider::try_from_json(json, ORDINALS_JSON).unwrap();
    assert!(provider.load(&Request::new(cardinal(), langid("en"))).is_ok());
    assert!(matches!(
        provider.load(&Request::new(cardinal(), langid("en-US"))),
        Err(DataError::UnavailableEntry(_))
    ));
}

#[test]
fn locales_sorted_with_root_first() {
    let json = r#"{"supplemental":{"plurals-type-cardinal":{
        "zu":{}, "root":{}, "af":{}, "en":{}, "en-GB":{}, "de":{}}}}"#;
    let provider = PluralsProvider::try_from_json(json, ORDINALS_JSON).unwrap();
    let listed: Vec<LanguageIdentifier> =
        provider.iter_for_key(&cardinal()).unwrap().into_iter().map(|s| s.langid).collect();
    let expected: Vec<LanguageIdentifier> =
        ["und", "af", "de", "en", "en-GB", "zu"].iter().map(|s| langid(s)).collect();
    assert_eq!(listed, expected);
    let root = provider.load(&Request::new(cardinal(), LanguageIdentifier::und())).unwrap();
    assert!(root.borrow_payload::<PluralRuleStringsV1>().is_ok());
}

#[test]
fn from_rules_in_any_order_keeps_last_duplicate() {
    let one = |s: &str| PluralRuleStringsV1 { one: Some(s.to_string()), ..PluralRuleStringsV1::empty() };
    let provider = PluralsProvider::from_rules(
        Some(vec![("fr".to_string(), one("a")), ("de".to_string(), one("b")), ("fr".to_string(), one("c"))]),
        None,
    )
    .unwrap();
    let listed: Vec<LanguageIdentifier> =
        provider.iter_for_key(&cardinal()).unwrap().into_iter().map(|s| s.langid).collect();
    assert_eq!(listed, vec![langid("de"), langid("fr")]);
    let fr = provider.load(&Request::new(cardinal(), langid("fr"))).unwrap();
    assert_eq!(fr.borrow_payload::<PluralRuleStringsV1>().unwrap().one.as_deref(), Some("c"));
    let ordinal = ResourceKey::new(ResourceCategory::Plurals, "ordinal", 1);
    assert!(matches!(
        provider.load(&Request::new(ordinal, langid("fr"))),
        Err(DataError::UnsupportedDataKey(_))
    ));
}

#[test]
fn ordinal_rules_are_served() {
    let provider = PluralsProvider::try_from_json(SCENARIO_JSON, ORDINALS_JSON).unwrap();
    let ordinal = ResourceKey::new(ResourceCategory::Plurals, "ordinal", 1);
    let response = provider.load(&Request::new(ordinal, langid("en"))).unwrap();
    assert_eq!(
        response.borrow_payload::<PluralRuleStringsV1>().unwrap().one.as_deref(),
        Some("n % 10 = 1 and n % 100 != 11")
    );
}

#[test]
fn unsupported_keys_are_told_apart() {
    let provider = PluralsProvider::try_from_json(SCENARIO_JSON, ORDINALS_JSON).unwrap();
    let cs = langid("cs");
    let dates = ResourceKey::new(ResourceCategory::Dates, "gregory", 1);
    assert!(matches!(
        provider.load(&Request::new(dates, cs)),
        Err(DataError::UnsupportedCategory(ResourceCategory::Dates))
    ));
    let v2 = ResourceKey::new(ResourceCategory::Plurals, "cardinal", 2);
    assert!(matches!(provider.load(&Request::new(v2, cs)), Err(DataError::UnsupportedVersion(_))));
    let odd = ResourceKey::new(ResourceCategory::Plurals, "fractional", 1);
    assert!(matches!(
        provider.load(&Request::new(odd, cs)),
        Err(DataError::UnsupportedSubCategory(_))
    ));
    assert!(PluralsProvider::supports_key(&cardinal()).is_ok());
}

#[test]
fn bad_sources_are_resource_errors() {
    assert!(matches!(
        PluralsProvider::try_from_json("{not json", ORDINALS_JSON),
        Err(DataError::ResourceError(SourceError::Json(_)))
    ));
    assert!(matches!(
        PluralsProvider::try_from_json("{}", ORDINALS_JSON),
        Err(DataError::ResourceError(SourceError::Schema(_)))
    ));
    let bad_locale = r#"{"supplemental":{"plurals-type-cardinal":{"not a locale":{}}}}"#;
    match PluralsProvider::try_from_json(bad_locale, ORDINALS_JSON) {
        Err(DataError::ResourceError(SourceError::InvalidLocale(name))) => {
            assert_eq!(name, "not a locale")
        }
        other => panic!("unexpected: {:?}", other),
    }
    let bad_rule = r#"{"supplemental":{"plurals-type-cardinal":{"cs":{"pluralRule-count-one":1}}}}"#;
    assert!(matches!(
        PluralsProvider::try_from_json(bad_rule, ORDINALS_JSON),
        Err(DataError::ResourceError(SourceError::Schema(_)))
    ));
}

#[test]
fn cldr_locale_names() {
    assert_eq!(cldr_locale(&"root".to_string()).unwrap(), LanguageIdentifier::und());
    assert_eq!(cldr_locale(&"pt-PT".to_string()).unwrap(), langid("pt-PT"));
    assert!(cldr_locale(&"x".to_string()).is_err());
}

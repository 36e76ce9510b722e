use icu_provider_core::error::{DataError, SourceError};
use icu_provider_core::fs::{
    key_path, path_for, payload_from_json, AliasOption, FsDataProvider, FsProbe, Manifest,
    SyntaxOption,
};
use icu_provider_core::key::{LocaleSelector, Request, ResourceCategory, ResourceKey};
use icu_provider_core::locale::{parse_language_identifier, LanguageIdentifier, ParserMode};
use icu_provider_core::payload::DataTypeId;
use icu_provider_core::structs::{HelloWorldV1, PluralRuleStringsV1};

fn langid(s: &str) -> LanguageIdentifier {
    parse_language_identifier(s.as_bytes(), ParserMode::LanguageIdentifier).unwrap()
}

fn manifest() -> Manifest {
    Manifest { aliasing: AliasOption::NoAliases, syntax: SyntaxOption::Json }
}

fn cardinal() -> ResourceKey {
    ResourceKey::new(ResourceCategory::Plurals, "cardinal", 1)
}

#[test]
fn paths_of_keys_and_entries() {
    assert_eq!(key_path(&cardinal()), b"plurals/cardinal@1".to_vec());
    let key = ResourceKey::new(ResourceCategory::Dates, "gregory", 12);
    assert_eq!(key_path(&key), b"dates/gregory@12".to_vec());
    let req = Request::new(cardinal(), langid("en-us"));
    assert_eq!(path_for(&req, &manifest()), b"plurals/cardinal@1/en-US.json".to_vec());
    let req = Request {
        key: ResourceKey::new(ResourceCategory::Icu4x, "helloworld", 1),
        locale: LocaleSelector { variant: Some("formal".to_string()), langid: LanguageIdentifier::und() },
    };
    assert_eq!(path_for(&req, &manifest()), b"icu4x/helloworld@1/formal/und.json".to_vec());
}

#[test]
fn manifest_from_json() {
    assert_eq!(Manifest::from_json(r#"{"aliasing":"NoAliases","syntax":"Json"}"#).unwrap(), manifest());
    assert_eq!(
        Manifest::from_json(r#"{"aliasing":"Symlink"}"#).unwrap().aliasing,
        AliasOption::Symlink
    );
    assert!(matches!(
        Manifest::from_json(r#"{"aliasing":"Copies"}"#),
        Err(DataError::ResourceError(SourceError::Schema(_)))
    ));
    assert!(matches!(
        Manifest::from_json("["),
        Err(DataError::ResourceError(SourceError::Json(_)))
    ));
}

#[test]
fn decode_payloads() {
    let p = payload_from_json(&cardinal(), r#"{"zero":null,"one":"i = 1"}"#).unwrap();
    assert_eq!(p.type_id(), DataTypeId::PluralRuleStringsV1);
    let rules = p.downcast::<PluralRuleStringsV1>().unwrap();
    assert_eq!(rules.get().one.as_deref(), Some("i = 1"));
    assert_eq!(rules.get().zero, None);
    let hello = ResourceKey::new(ResourceCategory::Icu4x, "helloworld", 1);
    let p = payload_from_json(&hello, r#"{"message":"Hallo Welt"}"#).unwrap();
    assert_eq!(p.downcast::<HelloWorldV1>().unwrap().get().message, "Hallo Welt");
    assert!(matches!(
        payload_from_json(&hello, r#"{}"#),
        Err(DataError::ResourceError(SourceError::Schema(_)))
    ));
    let decimal = ResourceKey::new(ResourceCategory::Decimal, "symbols", 1);
    assert!(matches!(payload_from_json(&decimal, "{}"), Err(DataError::UnsupportedDataKey(_))));
}

#[test]
fn load_probed_decisions() {
    let provider = FsDataProvider::new(manifest());
    let req = Request::new(cardinal(), langid("cs"));
    let probe = |c: bool, k: bool, f: Option<&str>| FsProbe {
        category_exists: c,
        key_exists: k,
        file_text: f.map(|s| s.to_string()),
    };
    assert!(matches!(
        provider.load_probed(&req, probe(false, false, None)),
        Err(DataError::UnsupportedCategory(ResourceCategory::Plurals))
    ));
    assert!(matches!(
        provider.load_probed(&req, probe(true, false, None)),
        Err(DataError::UnsupportedDataKey(_))
    ));
    assert!(matches!(
        provider.load_probed(&req, probe(true, true, None)),
        Err(DataError::UnavailableEntry(_))
    ));
    let response = provider.load_probed(&req, probe(true, true, Some(r#"{"few":"i = 2..4"}"#))).unwrap();
    assert_eq!(response.metadata.data_langid, Some(langid("cs")));
    assert_eq!(
        response.borrow_payload::<PluralRuleStringsV1>().unwrap().few.as_deref(),
        Some("i = 2..4")
    );
}

use icu_provider_core::blob::{resource_path, BlobDataProvider};
use icu_provider_core::error::DataError;
use icu_provider_core::key::{Request, ResourceCategory, ResourceKey};
use icu_provider_core::locale::{parse_language_identifier, LanguageIdentifier, ParserMode};

fn id(s: &str) -> LanguageIdentifier {
    parse_language_identifier(s.as_bytes(), ParserMode::LanguageIdentifier).unwrap()
}

#[test]
fn blob_lookup_by_key_and_locale() {
    let key = ResourceKey::new(ResourceCategory::Plurals, "cardinal", 1);
    let req = Request::new(key.duplicate(), id("en-us"));
    assert_eq!(resource_path(&req), b"plurals/cardinal@1/en-US".to_vec());
    let blob = BlobDataProvider {
        resources: vec![
            ("plurals/cardinal@1/de".to_string(), vec![1, 2]),
            ("plurals/cardinal@1/en-US".to_string(), vec![3]),
        ],
    };
    assert_eq!(blob.get_file(&req).unwrap(), &vec![3u8]);
    let missing = Request::new(key, id("fr"));
    assert!(matches!(blob.get_file(&missing), Err(DataError::UnsupportedDataKey(_))));
}

use icu_provider_core::error::DataError;
use icu_provider_core::key::{Request, ResourceCategory, ResourceKey};
use icu_provider_core::locale::LanguageIdentifier;
use icu_provider_core::payload::DataTypeId;
use icu_provider_core::provider::{get_type_id, load_graceful, payload_type_of, DataProvider, InvariantDataProvider};
use icu_provider_core::structs::{HelloWorldV1, PluralRuleStringsV1};

#[test]
fn invariant_test_basic() {
    let provider = InvariantDataProvider;
    let response = provider
        .load(&Request::new(
            ResourceKey::new(ResourceCategory::Plurals, "cardinal", 1),
            LanguageIdentifier::und(),
        ))
        .unwrap();
    let plurals_data: &PluralRuleStringsV1 = response.borrow_payload().unwrap();
    assert_eq!(
        plurals_data,
        &PluralRuleStringsV1 { zero: None, one: None, two: None, few: None, many: None }
    );
}

#[test]
fn test_invariant() {
    let provider = InvariantDataProvider;
    let key = ResourceKey::new(ResourceCategory::Icu4x, "helloworld", 1);
    let req = Request::new(key, LanguageIdentifier::und());
    let data1 = provider.load(&req).unwrap().take_payload::<HelloWorldV1>().unwrap();
    let data2 = DataProvider::load_payload(&provider, &req)
        .unwrap()
        .take_payload::<HelloWorldV1>()
        .unwrap();
    assert_eq!(data1.get(), &HelloWorldV1 { message: "(und) Hello World".to_string() });
    assert_eq!(data1.get(), data2.get());
}

#[test]
fn invariant_iter_and_unsupported() {
    let provider = InvariantDataProvider;
    let key = ResourceKey::new(ResourceCategory::Plurals, "ordinal", 1);
    let list = provider.iter_for_key(&key).unwrap();
    assert_eq!(list.len(), 1);
    assert_eq!(list[0].langid, LanguageIdentifier::und());
    let decimal = ResourceKey::new(ResourceCategory::Decimal, "symbols", 1);
    assert!(matches!(provider.iter_for_key(&decimal), Err(DataError::UnsupportedDataKey(_))));
    let req = Request::new(decimal, LanguageIdentifier::und());
    assert!(matches!(provider.load(&req), Err(DataError::UnsupportedDataKey(_))));
    assert!(matches!(load_graceful(&provider, &req), Ok(None)));
}

#[test]
fn type_ids_of_keys() {
    let k = |c, s, v| ResourceKey::new(c, s, v);
    assert_eq!(get_type_id(&k(ResourceCategory::Plurals, "cardinal", 1)), Some(DataTypeId::PluralRuleStringsV1));
    assert_eq!(get_type_id(&k(ResourceCategory::Plurals, "ordinal", 1)), Some(DataTypeId::PluralRuleStringsV1));
    assert_eq!(get_type_id(&k(ResourceCategory::Plurals, "cardinal", 2)), None);
    assert_eq!(get_type_id(&k(ResourceCategory::Plurals, "fractional", 1)), None);
    assert_eq!(get_type_id(&k(ResourceCategory::Icu4x, "helloworld", 1)), None);
    assert_eq!(get_type_id(&k(ResourceCategory::Dates, "gregory", 1)), None);
    assert_eq!(payload_type_of(&k(ResourceCategory::Plurals, "ordinal", 1)), Some(DataTypeId::PluralRuleStringsV1));
    assert_eq!(payload_type_of(&k(ResourceCategory::Icu4x, "helloworld", 1)), Some(DataTypeId::HelloWorldV1));
    assert_eq!(payload_type_of(&k(ResourceCategory::Dates, "gregory", 1)), Some(DataTypeId::DateFormatsV1));
    assert_eq!(payload_type_of(&k(ResourceCategory::Decimal, "symbols", 1)), None);
    assert_eq!(get_type_id(&k(ResourceCategory::Decimal, "symbols", 1)), None);
}

use icu_provider_core::error::DataError;
use icu_provider_core::payload::{
    DataPayload, DataTypeId, ErasedDataStruct, ResponseBuilder, TakenPayload,
};
use icu_provider_core::structs::{DateFormatsV1, HelloWorldV1, PluralRuleStringsV1};
use icu_provider_core::key::{Request, ResourceCategory, ResourceKey};
use icu_provider_core::locale::{parse_language_identifier, ParserMode};
use icu_provider_core::plurals::PluralsProvider;
use icu_provider_core::support::DataTransform;
use std::rc::Rc;

fn hello(s: &str) -> HelloWorldV1 {
    HelloWorldV1 { message: s.to_string() }
}

#[test]
fn erase_and_downcast_round_trip_each_mode() {
    let data = hello("Hallo Welt");
    let borrowed: DataPayload<HelloWorldV1> = DataPayload::from_borrowed(&data);
    let back = borrowed.into_erased().downcast::<HelloWorldV1>().unwrap();
    assert!(matches!(back, DataPayload::Borrowed(r) if std::ptr::eq(r, &data)));

    let owned: DataPayload<HelloWorldV1> = DataPayload::from_owned(hello("Ahoj světe"));
    let back = owned.into_erased().downcast::<HelloWorldV1>().unwrap();
    assert_eq!(back.get(), &hello("Ahoj světe"));
    assert!(matches!(back, DataPayload::Owned(_)));

    let rc = Rc::new(hello("Hei maailma"));
    let shared: DataPayload<HelloWorldV1> = DataPayload::from_shared(rc.clone());
    let back = shared.into_erased().downcast::<HelloWorldV1>().unwrap();
    match back {
        DataPayload::Shared(r) => assert!(Rc::ptr_eq(&r, &rc)),
        _ => panic!("sharing was lost"),
    }
}

#[test]
fn downcast_to_other_type_is_mismatch() {
    let erased = DataPayload::<HelloWorldV1>::from_owned(hello("x")).into_erased();
    assert_eq!(erased.type_id(), DataTypeId::HelloWorldV1);
    match erased.downcast::<PluralRuleStringsV1>() {
        Err(DataError::MismatchedType { actual, generic }) => {
            assert_eq!(actual, DataTypeId::HelloWorldV1);
            assert_eq!(generic, DataTypeId::PluralRuleStringsV1);
        }
        other => panic!("unexpected: {:?}", other),
    }
    let typed = DataPayload::<HelloWorldV1>::from_owned(hello("x"));
    assert!(matches!(
        typed.downcast::<DateFormatsV1>(),
        Err(DataError::MismatchedType { .. })
    ));
}

#[test]
fn downcast_ref_through_trait() {
    let erased = DataPayload::<HelloWorldV1>::from_owned(hello("Hello World")).into_erased();
    assert_eq!(HelloWorldV1::downcast_ref(&erased).unwrap(), &hello("Hello World"));
    assert!(matches!(
        PluralRuleStringsV1::downcast_ref(&erased),
        Err(DataError::MismatchedType { .. })
    ));
}

#[test]
fn taken_borrow_outlives_payload() {
    let data = hello("outer");
    let taken = {
        let payload: DataPayload<HelloWorldV1> = DataPayload::from_borrowed(&data);
        payload.take()
    };
    match taken {
        TakenPayload::Borrowed(r) => assert!(std::ptr::eq(r, &data)),
        TakenPayload::Owned(_) => panic!("borrowed data was copied"),
    }
    assert_eq!(taken.get().message, "outer");
}

#[test]
fn take_shared_and_owned() {
    let rc = Rc::new(hello("shared"));
    let payload: DataPayload<HelloWorldV1> = DataPayload::from_shared(rc.clone());
    let taken = payload.take();
    assert_eq!(taken.get(), &hello("shared"));
    assert_eq!(Rc::strong_count(&rc), 1);
    let payload: DataPayload<HelloWorldV1> = DataPayload::from_owned(hello("own"));
    assert!(matches!(payload.take(), TakenPayload::Owned(h) if h.message == "own"));
}

#[test]
fn make_owned_copies_on_write() {
    let rc = Rc::new(hello("shared"));
    let mut payload: DataPayload<HelloWorldV1> = DataPayload::from_shared(rc.clone());
    payload.make_owned();
    assert!(matches!(payload, DataPayload::Owned(_)));
    assert_eq!(payload.get(), &hello("shared"));
    assert_eq!(Rc::strong_count(&rc), 1);
    let data = hello("b");
    let mut payload: DataPayload<HelloWorldV1> = DataPayload::from_borrowed(&data);
    payload.make_owned();
    assert!(matches!(payload, DataPayload::Owned(ref h) if h.message == "b"));
}

#[test]
fn response_borrow_and_take() {
    let data = hello("Hallo Welt");
    let response = ResponseBuilder { data_langid: None }.with_borrowed_payload(&data);
    assert_eq!(response.get_payload_type_id(), Some(DataTypeId::HelloWorldV1));
    assert_eq!(response.borrow_payload::<HelloWorldV1>().unwrap(), &data);
    assert!(matches!(
        response.borrow_payload::<DateFormatsV1>(),
        Err(DataError::MismatchedType { .. })
    ));
    let taken = response.take_payload::<HelloWorldV1>().unwrap();
    assert!(matches!(taken, DataPayload::Borrowed(r) if std::ptr::eq(r, &data)));

    let response = ResponseBuilder { data_langid: None }.with_owned_payload(PluralRuleStringsV1::empty());
    assert!(matches!(
        response.take_payload::<HelloWorldV1>(),
        Err(DataError::MismatchedType { .. })
    ));
}

#[test]
fn response_without_payload() {
    let response = icu_provider_core::payload::Response {
        metadata: icu_provider_core::payload::ResponseMetadata { data_langid: None },
        payload: None,
    };
    assert_eq!(response.get_payload_type_id(), None);
    assert!(matches!(
        response.borrow_payload::<HelloWorldV1>(),
        Err(DataError::MissingPayload)
    ));
}

fn cs_provider() -> PluralsProvider {
    let json = r#"{"supplemental":{"plurals-type-cardinal":{"cs":{"pluralRule-count-one":"i = 1 and v = 0"}}}}"#;
    PluralsProvider::try_from_json(json, "{\"supplemental\":{}}").unwrap()
}

fn cs_request() -> Request {
    Request::new(
        ResourceKey::new(ResourceCategory::Plurals, "cardinal", 1),
        parse_language_identifier(b"cs", ParserMode::LanguageIdentifier).unwrap(),
    )
}

#[test]
fn test_borrow_payload_mut() {
    let provider = cs_provider();
    let mut response = provider.load(&cs_request()).unwrap();
    let data: &mut PluralRuleStringsV1 = response.borrow_payload_mut().unwrap();
    assert_eq!(data.one.as_deref(), Some("i = 1 and v = 0"));
    data.one = Some("changed".to_string());
    assert_eq!(response.borrow_payload::<PluralRuleStringsV1>().unwrap().one.as_deref(), Some("changed"));
    let again = provider.load(&cs_request()).unwrap();
    assert_eq!(
        again.borrow_payload::<PluralRuleStringsV1>().unwrap().one.as_deref(),
        Some("i = 1 and v = 0")
    );
    assert!(matches!(response.borrow_payload_mut::<HelloWorldV1>(), Err(DataError::MismatchedType { .. })));
}

#[test]
fn test_take_payload() {
    let provider = cs_provider();
    let response = provider.load(&cs_request()).unwrap();
    let data = response.take_payload::<PluralRuleStringsV1>().unwrap();
    assert!(matches!(data, DataPayload::Borrowed(_)));
    assert_eq!(data.get().one.as_deref(), Some("i = 1 and v = 0"));
}

#[test]
fn test_clone_payload() {
    let final_data = {
        let provider = cs_provider();
        let response = provider.load(&cs_request()).unwrap();
        let data = response.take_payload::<PluralRuleStringsV1>().unwrap();
        data.get().clone_value()
    };
    assert_eq!(final_data.one.as_deref(), Some("i = 1 and v = 0"));
}

#[test]
fn clone_erased_keeps_type_and_value() {
    let data = hello("borrowed");
    let erased = DataPayload::from_borrowed(&data).into_erased();
    let copy = erased.clone_erased();
    assert_eq!(copy.type_id(), DataTypeId::HelloWorldV1);
    assert!(matches!(copy.downcast::<HelloWorldV1>().unwrap(), DataPayload::Borrowed(r) if std::ptr::eq(r, &data)));
    let shared = DataPayload::from_shared(Rc::new(hello("shared"))).into_erased();
    let copy = shared.clone_erased();
    assert_eq!(copy.downcast::<HelloWorldV1>().unwrap().get(), &hello("shared"));
}

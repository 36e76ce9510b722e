use vstd::prelude::*;
use crate::error::DataError;
use crate::key::{LocaleSelector, Request, ResourceCategory, ResourceKey};
use crate::locale::LanguageIdentifier;
use crate::payload::{DataPayload, DataTypeId, ErasedPayload, Response, ResponseBuilder};
use crate::structs::{HelloWorldV1, PluralRuleStringsV1};

verus! {

/// Anything that answers requests for data.
pub trait DataProvider<'d> {
    /// Loads the data of `req`.
    fn load_payload(&self, req: &Request) -> Result<Response<'d>, DataError>;
}

/// A load result with the errors by which a provider turns away a key's
/// category or the key itself made into `Ok(None)`.
pub open spec fn graceful_spec<'d>(r: Result<Response<'d>, DataError>) -> Result<
    Option<Response<'d>>,
    DataError,
> {
    match r {
        Ok(resp) => Ok(Some(resp)),
        Err(DataError::UnsupportedCategory(c)) => Ok(None),
        Err(DataError::UnsupportedDataKey(k)) => Ok(None),
        Err(e) => Err(e),
    }
}

/// Makes an unsupported category or key into `Ok(None)`; other errors stay.
pub fn graceful<'d>(r: Result<Response<'d>, DataError>) -> (g: Result<Option<Response<'d>>, DataError>)
    ensures
        g == graceful_spec(r),
{
    match r {
        Ok(resp) => Ok(Some(resp)),
        Err(err) => match err {
            DataError::UnsupportedCategory(_) => Ok(None),
            DataError::UnsupportedDataKey(_) => Ok(None),
            _ => Err(err),
        },
    }
}

/// Loads `req` from `p`, with an unsupported category or key as `Ok(None)`.
pub fn load_graceful<'d, P: DataProvider<'d>>(p: &P, req: &Request) -> (g: Result<
    Option<Response<'d>>,
    DataError,
>)
    ensures
        exists|r: Result<Response<'d>, DataError>| g == graceful_spec(r),
{
    graceful(p.load_payload(req))
}

/// The payload type that `key` names, if any, among all the payload types.
pub open spec fn payload_type_spec(key: ResourceKey) -> Option<DataTypeId> {
    if key.version != 1 {
        None
    } else if key.category == ResourceCategory::Plurals && (key.sub_category@ == "cardinal"@
        || key.sub_category@ == "ordinal"@) {
        Some(DataTypeId::PluralRuleStringsV1)
    } else if key.category == ResourceCategory::Icu4x && key.sub_category@ == "helloworld"@ {
        Some(DataTypeId::HelloWorldV1)
    } else if key.category == ResourceCategory::Dates && key.sub_category@ == "gregory"@ {
        Some(DataTypeId::DateFormatsV1)
    } else {
        None
    }
}

/// The payload type that `key` names, if any, among all the payload types.
pub fn payload_type_of(key: &ResourceKey) -> (r: Option<DataTypeId>)
    ensures
        r == payload_type_spec(*key),
{
    if key.version != 1 {
        None
    } else if key.category == ResourceCategory::Plurals && (key.sub_category_is("cardinal")
        || key.sub_category_is("ordinal")) {
        Some(DataTypeId::PluralRuleStringsV1)
    } else if key.category == ResourceCategory::Icu4x && key.sub_category_is("helloworld") {
        Some(DataTypeId::HelloWorldV1)
    } else if key.category == ResourceCategory::Dates && key.sub_category_is("gregory") {
        Some(DataTypeId::DateFormatsV1)
    } else {
        None
    }
}

/// The payload type of a plural rules key, `plurals/cardinal@1` or
/// `plurals/ordinal@1`; `None` for every other key.
pub fn get_type_id(key: &ResourceKey) -> (r: Option<DataTypeId>)
    ensures
        r == (if key.category == ResourceCategory::Plurals && key.version == 1 && (
        key.sub_category@ == "cardinal"@ || key.sub_category@ == "ordinal"@) {
            Some(DataTypeId::PluralRuleStringsV1)
        } else {
            None
        }),
{
    if key.category != ResourceCategory::Plurals || key.version != 1 {
        None
    } else if key.sub_category_is("cardinal") || key.sub_category_is("ordinal") {
        Some(DataTypeId::PluralRuleStringsV1)
    } else {
        None
    }
}

/// A provider that answers every key it knows with locale-independent
/// default data, in the undetermined locale. Useful for testing.
pub struct InvariantDataProvider;

impl InvariantDataProvider {
    /// What a load of `req` returns.
    pub open spec fn load_post(req: Request, r: Result<Response<'static>, DataError>) -> bool {
        match payload_type_spec(req.key) {
            Some(DataTypeId::PluralRuleStringsV1) => match r {
                Ok(resp) => resp.metadata.data_langid == Some(LanguageIdentifier::und_spec())
                    && match resp.payload {
                    Some(ErasedPayload::PluralRuleStringsV1(DataPayload::Owned(p))) => p.zero is None
                        && p.one is None && p.two is None && p.few is None && p.many is None,
                    _ => false,
                },
                Err(_) => false,
            },
            Some(DataTypeId::HelloWorldV1) => match r {
                Ok(resp) => resp.metadata.data_langid == Some(LanguageIdentifier::und_spec())
                    && match resp.payload {
                    Some(ErasedPayload::HelloWorldV1(DataPayload::Owned(h))) => h.message@
                        == "(und) Hello World"@,
                    _ => false,
                },
                Err(_) => false,
            },
            _ => r == Err::<Response<'static>, DataError>(DataError::UnsupportedDataKey(req.key)),
        }
    }

    /// The default data of `req`'s key, where it has one.
    pub fn load(&self, req: &Request) -> (r: Result<Response<'static>, DataError>)
        ensures
            Self::load_post(*req, r),
    {
        let builder = ResponseBuilder { data_langid: Some(LanguageIdentifier::und()) };
        match payload_type_of(&req.key) {
            Some(DataTypeId::PluralRuleStringsV1) => Ok(
                builder.with_owned_payload(PluralRuleStringsV1::empty()),
            ),
            Some(DataTypeId::HelloWorldV1) => Ok(builder.with_owned_payload(HelloWorldV1::und_message())),
            _ => Err(DataError::UnsupportedDataKey(req.key.duplicate())),
        }
    }

    /// The undetermined locale alone, for every key that has default data.
    pub fn iter_for_key(&self, key: &ResourceKey) -> (r: Result<Vec<LocaleSelector>, DataError>)
        ensures
            match payload_type_spec(*key) {
                Some(DataTypeId::PluralRuleStringsV1) | Some(DataTypeId::HelloWorldV1) => match r {
                    Ok(v) => v@.len() == 1 && v@[0].variant is None && v@[0].langid
                        == LanguageIdentifier::und_spec(),
                    Err(_) => false,
                },
                _ => r == Err::<Vec<LocaleSelector>, DataError>(DataError::UnsupportedDataKey(*key)),
            },
    {
        match payload_type_of(key) {
            Some(DataTypeId::PluralRuleStringsV1) | Some(DataTypeId::HelloWorldV1) => {
                let mut v: Vec<LocaleSelector> = Vec::new();
                v.push(LocaleSelector::of(LanguageIdentifier::und()));
                Ok(v)
            },
            _ => Err(DataError::UnsupportedDataKey(key.duplicate())),
        }
    }
}

impl DataProvider<'static> for InvariantDataProvider {
    fn load_payload(&self, req: &Request) -> Result<Response<'static>, DataError> {
        self.load(req)
    }
}

} // verus!

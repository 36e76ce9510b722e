use vstd::prelude::*;
use std::rc::Rc;
use crate::error::DataError;
use crate::locale::LanguageIdentifier;
use crate::structs::{clone_opt, DateFormatsV1, HelloWorldV1, PluralRuleStringsV1};

verus! {

/// The dynamic type identity of a payload.
#[derive(PartialEq, Eq, Structural, Clone, Copy, Debug)]
pub enum DataTypeId {
    PluralRuleStringsV1,
    HelloWorldV1,
    DateFormatsV1,
}

/// A payload of type `T` in one of three ownership modes.
#[derive(Debug)]
pub enum DataPayload<'d, T> {
    /// A reference into data that the caller already holds for `'d`.
    Borrowed(&'d T),
    /// A value of its own.
    Owned(T),
    /// A value shared by reference counting with other payloads.
    Shared(Rc<T>),
}

/// What taking a payload yields: the reference it was made from, or a value.
#[derive(Debug)]
pub enum TakenPayload<'d, T> {
    Borrowed(&'d T),
    Owned(T),
}

impl<'d, T> TakenPayload<'d, T> {
    /// The value, whichever the mode.
    pub open spec fn value(self) -> T {
        match self {
            TakenPayload::Borrowed(r) => *r,
            TakenPayload::Owned(v) => v,
        }
    }

    /// A reference to the value, whichever the mode.
    pub fn get(&self) -> (r: &T)
        ensures
            *r == self.value(),
    {
        match self {
            TakenPayload::Borrowed(r) => r,
            TakenPayload::Owned(v) => v,
        }
    }
}

/// A data struct that can pass through the type-erased payload.
///
/// Each implementation has its own variant of `ErasedPayload`, so that erasing
/// keeps the ownership mode and a downcast to the same type gives the payload back.
pub trait ErasedDataStruct: Sized {
    /// The type identity of `Self`.
    spec fn type_id_spec() -> DataTypeId;

    /// The erased payload that holds `p`.
    spec fn erase_spec<'d>(p: DataPayload<'d, Self>) -> ErasedPayload<'d>;

    fn type_id() -> (r: DataTypeId)
        ensures
            r == Self::type_id_spec(),
    ;

    /// A fresh copy of the value.
    fn clone_value(&self) -> (r: Self)
        ensures
            r == *self,
    ;

    fn erase<'d>(p: DataPayload<'d, Self>) -> (r: ErasedPayload<'d>)
        ensures
            r == Self::erase_spec(p),
    ;

    /// The typed payload inside `e`, or `e` back where it holds another type.
    fn unerase<'d>(e: ErasedPayload<'d>) -> (r: Result<DataPayload<'d, Self>, ErasedPayload<'d>>)
        ensures
            r is Ok <==> e.type_id_spec() == Self::type_id_spec(),
            r matches Ok(p) ==> Self::erase_spec(p) == e,
            r matches Err(x) ==> x == e,
    ;

    /// A reference to the typed payload inside `e`, where it holds `Self`.
    fn unerase_ref<'a, 'd>(e: &'a ErasedPayload<'d>) -> (r: Option<&'a DataPayload<'d, Self>>)
        ensures
            r is Some <==> e.type_id_spec() == Self::type_id_spec(),
            r matches Some(p) ==> Self::erase_spec(*p) == *e,
    ;

    /// A mutable reference to the typed payload inside `e`, where it holds `Self`.
    fn unerase_mut<'a, 'd>(e: &'a mut ErasedPayload<'d>) -> (r: Option<&'a mut DataPayload<'d, Self>>)
        ensures
            r is Some <==> old(e).type_id_spec() == Self::type_id_spec(),
            r matches Some(p) ==> Self::erase_spec(*p) == *old(e) && *final(e) == Self::erase_spec(
                *final(p),
            ),
            r is None ==> *final(e) == *old(e),
    ;

    /// A reference to the value inside `e` as `Self`; fails with
    /// `MismatchedType` where `e` holds another type.
    fn downcast_ref<'a, 'd>(e: &'a ErasedPayload<'d>) -> (r: Result<&'a Self, DataError>)
        ensures
            r is Ok <==> e.type_id_spec() == Self::type_id_spec(),
            r matches Ok(v) ==> exists|p: DataPayload<'d, Self>|
                Self::erase_spec(p) == *e && p.value() == *v,
            r matches Err(x) ==> x == (DataError::MismatchedType {
                actual: e.type_id_spec(),
                generic: Self::type_id_spec(),
            }),
    {
        match Self::unerase_ref(e) {
            Some(p) => Ok(p.get()),
            None => Err(DataError::MismatchedType { actual: e.type_id(), generic: Self::type_id() }),
        }
    }

    /// Erasing records the type identity and loses nothing.
    proof fn lemma_erase<'d>(p: DataPayload<'d, Self>, q: DataPayload<'d, Self>)
        ensures
            Self::erase_spec(p).type_id_spec() == Self::type_id_spec(),
            Self::erase_spec(p) == Self::erase_spec(q) ==> p == q,
    ;
}

/// A payload whose type is known only at run time.
#[derive(Debug)]
pub enum ErasedPayload<'d> {
    PluralRuleStringsV1(DataPayload<'d, PluralRuleStringsV1>),
    HelloWorldV1(DataPayload<'d, HelloWorldV1>),
    DateFormatsV1(DataPayload<'d, DateFormatsV1>),
}

impl<'d, T> DataPayload<'d, T> {
    /// The value, whichever the mode.
    pub open spec fn value(self) -> T {
        match self {
            DataPayload::Borrowed(r) => *r,
            DataPayload::Owned(v) => v,
            DataPayload::Shared(rc) => *rc,
        }
    }

    pub fn from_borrowed(r: &'d T) -> (p: DataPayload<'d, T>)
        ensures
            p == DataPayload::Borrowed(r),
    {
        DataPayload::Borrowed(r)
    }

    pub fn from_owned(v: T) -> (p: DataPayload<'d, T>)
        ensures
            p == DataPayload::<'d, T>::Owned(v),
    {
        DataPayload::Owned(v)
    }

    pub fn from_shared(rc: Rc<T>) -> (p: DataPayload<'d, T>)
        ensures
            p == DataPayload::<'d, T>::Shared(rc),
    {
        DataPayload::Shared(rc)
    }

    /// A reference to the value, whichever the mode.
    pub fn get(&self) -> (r: &T)
        ensures
            *r == self.value(),
    {
        match self {
            DataPayload::Borrowed(r) => r,
            DataPayload::Owned(v) => v,
            DataPayload::Shared(rc) => rc,
        }
    }
}

impl<'d, T: ErasedDataStruct> DataPayload<'d, T> {
    /// Makes the payload hold a value of its own, copying it out of a borrow
    /// or out of a shared value that others still hold.
    pub fn make_owned(&mut self)
        ensures
            final(self).value() == old(self).value(),
            *final(self) is Owned,
    {
        let v = match &*self {
            DataPayload::Borrowed(r) => Some((*r).clone_value()),
            DataPayload::Owned(_) => None,
            DataPayload::Shared(rc) => Some((**rc).clone_value()),
        };
        match v {
            Some(v) => {
                *self = DataPayload::Owned(v);
            },
            None => {},
        }
    }

    /// A copy of the payload: a borrowed one keeps its reference, an owned or
    /// shared one is copied into a value of its own.
    pub fn clone_payload(&self) -> (r: DataPayload<'d, T>)
        ensures
            r.value() == self.value(),
            *self matches DataPayload::Borrowed(b) ==> r == DataPayload::<'d, T>::Borrowed(b),
    {
        match self {
            DataPayload::Borrowed(b) => DataPayload::Borrowed(b),
            DataPayload::Owned(v) => DataPayload::Owned(v.clone_value()),
            DataPayload::Shared(rc) => DataPayload::Owned((**rc).clone_value()),
        }
    }

    /// A mutable reference to the value, after making the payload hold a
    /// value of its own: a borrowed or shared value is copied first, so that
    /// no other holder sees the change.
    pub fn get_mut(&mut self) -> (r: &mut T)
        ensures
            *r == old(self).value(),
            *final(self) == DataPayload::<'d, T>::Owned(*final(r)),
    {
        self.make_owned();
        match self {
            DataPayload::Owned(v) => v,
            _ => vstd::pervasive::unreached(),
        }
    }

    /// Consumes the payload; a borrowed one yields the reference of lifetime `'d`
    /// that it was made from, so that nothing is copied.
    pub fn take(self) -> (r: TakenPayload<'d, T>)
        ensures
            r.value() == self.value(),
            self matches DataPayload::Borrowed(b) ==> r == TakenPayload::Borrowed(b),
    {
        match self {
            DataPayload::Borrowed(r) => TakenPayload::Borrowed(r),
            DataPayload::Owned(v) => TakenPayload::Owned(v),
            DataPayload::Shared(rc) => {
                match Rc::try_unwrap(rc) {
                    Ok(v) => TakenPayload::Owned(v),
                    Err(rc) => TakenPayload::Owned((*rc).clone_value()),
                }
            },
        }
    }

    /// The payload as type `U`: itself where `U` is `T`, else `MismatchedType`.
    pub fn downcast<U: ErasedDataStruct>(self) -> (r: Result<DataPayload<'d, U>, DataError>)
        ensures
            downcast_post::<U>(T::erase_spec(self), r),
    {
        self.into_erased().downcast::<U>()
    }

    /// Erases the payload's type, keeping its ownership mode.
    pub fn into_erased(self) -> (r: ErasedPayload<'d>)
        ensures
            r == T::erase_spec(self),
            r.type_id_spec() == T::type_id_spec(),
    {
        proof {
            T::lemma_erase(self, self);
        }
        T::erase(self)
    }
}

impl<'d> ErasedPayload<'d> {
    /// The dynamic type identity of the held payload.
    pub open spec fn type_id_spec(self) -> DataTypeId {
        match self {
            ErasedPayload::PluralRuleStringsV1(_) => DataTypeId::PluralRuleStringsV1,
            ErasedPayload::HelloWorldV1(_) => DataTypeId::HelloWorldV1,
            ErasedPayload::DateFormatsV1(_) => DataTypeId::DateFormatsV1,
        }
    }

    pub fn type_id(&self) -> (r: DataTypeId)
        ensures
            r == self.type_id_spec(),
    {
        match self {
            ErasedPayload::PluralRuleStringsV1(_) => DataTypeId::PluralRuleStringsV1,
            ErasedPayload::HelloWorldV1(_) => DataTypeId::HelloWorldV1,
            ErasedPayload::DateFormatsV1(_) => DataTypeId::DateFormatsV1,
        }
    }

    /// A copy of the erased payload, holding the same type and value.
    pub fn clone_erased(&self) -> (r: ErasedPayload<'d>)
        ensures
            r.type_id_spec() == self.type_id_spec(),
            match (*self, r) {
                (ErasedPayload::PluralRuleStringsV1(a), ErasedPayload::PluralRuleStringsV1(b)) => a.value()
                    == b.value(),
                (ErasedPayload::HelloWorldV1(a), ErasedPayload::HelloWorldV1(b)) => a.value()
                    == b.value(),
                (ErasedPayload::DateFormatsV1(a), ErasedPayload::DateFormatsV1(b)) => a.value()
                    == b.value(),
                _ => false,
            },
    {
        match self {
            ErasedPayload::PluralRuleStringsV1(p) => ErasedPayload::PluralRuleStringsV1(p.clone_payload()),
            ErasedPayload::HelloWorldV1(p) => ErasedPayload::HelloWorldV1(p.clone_payload()),
            ErasedPayload::DateFormatsV1(p) => ErasedPayload::DateFormatsV1(p.clone_payload()),
        }
    }

    /// The payload as type `T`; fails with `MismatchedType` where it holds another type.
    pub fn downcast<T: ErasedDataStruct>(self) -> (r: Result<DataPayload<'d, T>, DataError>)
        ensures
            r is Ok <==> self.type_id_spec() == T::type_id_spec(),
            r matches Ok(p) ==> T::erase_spec(p) == self,
            r matches Err(e) ==> e == (DataError::MismatchedType {
                actual: self.type_id_spec(),
                generic: T::type_id_spec(),
            }),
    {
        let actual = self.type_id();
        match T::unerase(self) {
            Ok(p) => Ok(p),
            Err(_) => Err(DataError::MismatchedType { actual, generic: T::type_id() }),
        }
    }
}

impl ErasedDataStruct for PluralRuleStringsV1 {
    open spec fn type_id_spec() -> DataTypeId {
        DataTypeId::PluralRuleStringsV1
    }

    open spec fn erase_spec<'d>(p: DataPayload<'d, Self>) -> ErasedPayload<'d> {
        ErasedPayload::PluralRuleStringsV1(p)
    }

    fn type_id() -> (r: DataTypeId) {
        DataTypeId::PluralRuleStringsV1
    }

    fn clone_value(&self) -> (r: Self) {
        PluralRuleStringsV1 {
            zero: clone_opt(&self.zero),
            one: clone_opt(&self.one),
            two: clone_opt(&self.two),
            few: clone_opt(&self.few),
            many: clone_opt(&self.many),
        }
    }

    fn erase<'d>(p: DataPayload<'d, Self>) -> (r: ErasedPayload<'d>) {
        ErasedPayload::PluralRuleStringsV1(p)
    }

    fn unerase<'d>(e: ErasedPayload<'d>) -> (r: Result<DataPayload<'d, Self>, ErasedPayload<'d>>) {
        match e {
            ErasedPayload::PluralRuleStringsV1(p) => Ok(p),
            other => Err(other),
        }
    }

    fn unerase_ref<'a, 'd>(e: &'a ErasedPayload<'d>) -> (r: Option<&'a DataPayload<'d, Self>>) {
        match e {
            ErasedPayload::PluralRuleStringsV1(p) => Some(p),
            _ => None,
        }
    }

    fn unerase_mut<'a, 'd>(e: &'a mut ErasedPayload<'d>) -> (r: Option<&'a mut DataPayload<'d, Self>>) {
        match e {
            ErasedPayload::PluralRuleStringsV1(p) => Some(p),
            _ => None,
        }
    }

    proof fn lemma_erase<'d>(p: DataPayload<'d, Self>, q: DataPayload<'d, Self>) {
    }
}

impl ErasedDataStruct for HelloWorldV1 {
    open spec fn type_id_spec() -> DataTypeId {
        DataTypeId::HelloWorldV1
    }

    open spec fn erase_spec<'d>(p: DataPayload<'d, Self>) -> ErasedPayload<'d> {
        ErasedPayload::HelloWorldV1(p)
    }

    fn type_id() -> (r: DataTypeId) {
        DataTypeId::HelloWorldV1
    }

    fn clone_value(&self) -> (r: Self) {
        HelloWorldV1 { message: self.message.clone() }
    }

    fn erase<'d>(p: DataPayload<'d, Self>) -> (r: ErasedPayload<'d>) {
        ErasedPayload::HelloWorldV1(p)
    }

    fn unerase<'d>(e: ErasedPayload<'d>) -> (r: Result<DataPayload<'d, Self>, ErasedPayload<'d>>) {
        match e {
            ErasedPayload::HelloWorldV1(p) => Ok(p),
            other => Err(other),
        }
    }

    fn unerase_ref<'a, 'd>(e: &'a ErasedPayload<'d>) -> (r: Option<&'a DataPayload<'d, Self>>) {
        match e {
            ErasedPayload::HelloWorldV1(p) => Some(p),
            _ => None,
        }
    }

    fn unerase_mut<'a, 'd>(e: &'a mut ErasedPayload<'d>) -> (r: Option<&'a mut DataPayload<'d, Self>>) {
        match e {
            ErasedPayload::HelloWorldV1(p) => Some(p),
            _ => None,
        }
    }

    proof fn lemma_erase<'d>(p: DataPayload<'d, Self>, q: DataPayload<'d, Self>) {
    }
}

impl ErasedDataStruct for DateFormatsV1 {
    open spec fn type_id_spec() -> DataTypeId {
        DataTypeId::DateFormatsV1
    }

    open spec fn erase_spec<'d>(p: DataPayload<'d, Self>) -> ErasedPayload<'d> {
        ErasedPayload::DateFormatsV1(p)
    }

    fn type_id() -> (r: DataTypeId) {
        DataTypeId::DateFormatsV1
    }

    fn clone_value(&self) -> (r: Self) {
        DateFormatsV1 {
            full: self.full.clone(),
            long: self.long.clone(),
            medium: self.medium.clone(),
            short: self.short.clone(),
        }
    }

    fn erase<'d>(p: DataPayload<'d, Self>) -> (r: ErasedPayload<'d>) {
        ErasedPayload::DateFormatsV1(p)
    }

    fn unerase<'d>(e: ErasedPayload<'d>) -> (r: Result<DataPayload<'d, Self>, ErasedPayload<'d>>) {
        match e {
            ErasedPayload::DateFormatsV1(p) => Ok(p),
            other => Err(other),
        }
    }

    fn unerase_ref<'a, 'd>(e: &'a ErasedPayload<'d>) -> (r: Option<&'a DataPayload<'d, Self>>) {
        match e {
            ErasedPayload::DateFormatsV1(p) => Some(p),
            _ => None,
        }
    }

    fn unerase_mut<'a, 'd>(e: &'a mut ErasedPayload<'d>) -> (r: Option<&'a mut DataPayload<'d, Self>>) {
        match e {
            ErasedPayload::DateFormatsV1(p) => Some(p),
            _ => None,
        }
    }

    proof fn lemma_erase<'d>(p: DataPayload<'d, Self>, q: DataPayload<'d, Self>) {
    }
}

/// Erasing a payload and downcasting it to its own type gives it back; a
/// downcast to any other type fails with `MismatchedType`.
pub proof fn lemma_erase_round_trip<'d, T: ErasedDataStruct, U: ErasedDataStruct>(
    p: DataPayload<'d, T>,
    r: Result<DataPayload<'d, T>, DataError>,
    s: Result<DataPayload<'d, U>, DataError>,
)
    requires
        downcast_post::<T>(T::erase_spec(p), r),
        downcast_post::<U>(T::erase_spec(p), s),
    ensures
        r == Ok::<DataPayload<'d, T>, DataError>(p),
        U::type_id_spec() != T::type_id_spec() ==> s == Err::<DataPayload<'d, U>, DataError>(
            DataError::MismatchedType { actual: T::type_id_spec(), generic: U::type_id_spec() },
        ),
{
    T::lemma_erase(p, p);
    if let Ok(q) = r {
        T::lemma_erase(p, q);
    }
}

/// What `ErasedPayload::downcast` promises of its result `r` on input `e`.
pub open spec fn downcast_post<'d, T: ErasedDataStruct>(
    e: ErasedPayload<'d>,
    r: Result<DataPayload<'d, T>, DataError>,
) -> bool {
    &&& (r is Ok <==> e.type_id_spec() == T::type_id_spec())
    &&& (r matches Ok(p) ==> T::erase_spec(p) == e)
    &&& (r matches Err(x) ==> x == (DataError::MismatchedType {
        actual: e.type_id_spec(),
        generic: T::type_id_spec(),
    }))
}

/// Metadata of a response.
#[derive(Debug)]
pub struct ResponseMetadata {
    /// The locale of the data returned, where there is one.
    pub data_langid: Option<LanguageIdentifier>,
}

/// A response: metadata and, on success, a type-erased payload.
#[derive(Debug)]
pub struct Response<'d> {
    pub metadata: ResponseMetadata,
    pub payload: Option<ErasedPayload<'d>>,
}

impl<'d> Response<'d> {
    /// A reference to the payload as type `T`.
    pub fn borrow_payload<T: ErasedDataStruct>(&self) -> (r: Result<&T, DataError>)
        ensures
            self.payload is None ==> r matches Err(DataError::MissingPayload),
            self.payload matches Some(e) ==> (r is Ok <==> e.type_id_spec() == T::type_id_spec()),
            r matches Ok(v) ==> exists|p: DataPayload<'d, T>|
                Some(T::erase_spec(p)) == self.payload && p.value() == *v,
            r matches Err(x) ==> match self.payload {
                Some(e) => x == (DataError::MismatchedType {
                    actual: e.type_id_spec(),
                    generic: T::type_id_spec(),
                }),
                None => x is MissingPayload,
            },
    {
        match &self.payload {
            Some(e) => T::downcast_ref(e),
            None => Err(DataError::MissingPayload),
        }
    }

    /// A mutable reference to the payload as type `T`; a borrowed or shared
    /// payload is first copied into one of the response's own.
    pub fn borrow_payload_mut<T: ErasedDataStruct + 'd>(&mut self) -> (r: Result<&mut T, DataError>)
        ensures
            old(self).payload is None ==> r matches Err(DataError::MissingPayload),
            old(self).payload matches Some(e) ==> (r is Ok <==> e.type_id_spec() == T::type_id_spec()),
            r matches Ok(v) ==> (exists|p: DataPayload<'d, T>|
                Some(T::erase_spec(p)) == old(self).payload && p.value() == *v) && final(self).payload
                == Some(T::erase_spec(DataPayload::<'d, T>::Owned(*final(v)))),
            r is Err ==> final(self).payload == old(self).payload,
            r matches Err(x) ==> match old(self).payload {
                Some(e) => x == (DataError::MismatchedType {
                    actual: e.type_id_spec(),
                    generic: T::type_id_spec(),
                }),
                None => x is MissingPayload,
            },
            final(self).metadata == old(self).metadata,
    {
        match &mut self.payload {
            Some(e) => {
                let actual = e.type_id();
                match T::unerase_mut(e) {
                    Some(p) => Ok(p.get_mut()),
                    None => Err(DataError::MismatchedType { actual, generic: T::type_id() }),
                }
            },
            None => Err(DataError::MissingPayload),
        }
    }

    /// Takes the payload as type `T`, consuming the response.
    pub fn take_payload<T: ErasedDataStruct>(self) -> (r: Result<DataPayload<'d, T>, DataError>)
        ensures
            self.payload is None ==> r matches Err(DataError::MissingPayload),
            self.payload matches Some(e) ==> downcast_post::<T>(e, r),
    {
        match self.payload {
            Some(e) => e.downcast::<T>(),
            None => Err(DataError::MissingPayload),
        }
    }

    /// The dynamic type identity of the payload, if there is one.
    pub fn get_payload_type_id(&self) -> (r: Option<DataTypeId>)
        ensures
            r == (match self.payload {
                Some(e) => Some(e.type_id_spec()),
                None => None,
            }),
    {
        match &self.payload {
            Some(e) => Some(e.type_id()),
            None => None,
        }
    }
}

/// Builds a response for one locale.
pub struct ResponseBuilder {
    pub data_langid: Option<LanguageIdentifier>,
}

impl ResponseBuilder {
    /// A response holding `payload`, erased.
    pub fn with_payload<'d, T: ErasedDataStruct + 'd>(self, payload: DataPayload<'d, T>) -> (r: Response<'d>)
        ensures
            r.metadata.data_langid == self.data_langid,
            r.payload == Some(T::erase_spec(payload)),
    {
        Response {
            metadata: ResponseMetadata { data_langid: self.data_langid },
            payload: Some(payload.into_erased()),
        }
    }

    /// A response that owns `t`.
    pub fn with_owned_payload<'d, T: ErasedDataStruct + 'd>(self, t: T) -> (r: Response<'d>)
        ensures
            r.metadata.data_langid == self.data_langid,
            r.payload == Some(T::erase_spec(DataPayload::<'d, T>::Owned(t))),
    {
        self.with_payload(DataPayload::Owned(t))
    }

    /// A response that borrows `t` for `'d`.
    pub fn with_borrowed_payload<'d, T: ErasedDataStruct + 'd>(self, t: &'d T) -> (r: Response<'d>)
        ensures
            r.metadata.data_langid == self.data_langid,
            r.payload == Some(T::erase_spec(DataPayload::Borrowed(t))),
    {
        self.with_payload(DataPayload::Borrowed(t))
    }
}

} // verus!

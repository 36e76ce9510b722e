use vstd::prelude::*;
use crate::locale::LanguageIdentifier;

verus! {

/// The family of data a resource key belongs to.
#[derive(PartialEq, Eq, Structural, Clone, Copy, Debug)]
pub enum ResourceCategory {
    Icu4x,
    Plurals,
    Dates,
    Decimal,
    PrivateUse,
}

/// Names a family of locale-keyed data: category, sub-category and version.
#[derive(Clone, Debug)]
pub struct ResourceKey {
    pub category: ResourceCategory,
    pub sub_category: String,
    pub version: u16,
}

impl PartialEq for ResourceKey {
    fn eq(&self, other: &ResourceKey) -> (r: bool) {
        self.category == other.category && self.version == other.version
            && self.sub_category == other.sub_category
    }
}

impl vstd::std_specs::cmp::PartialEqSpecImpl for ResourceKey {
    open spec fn obeys_eq_spec() -> bool {
        true
    }

    open spec fn eq_spec(&self, other: &ResourceKey) -> bool {
        self.category == other.category && self.version == other.version
            && self.sub_category@ == other.sub_category@
    }
}

impl ResourceKey {
    /// Builds a key from its three parts.
    pub fn new(category: ResourceCategory, sub_category: &str, version: u16) -> (r: ResourceKey)
        ensures
            r.category == category,
            r.sub_category@ == sub_category@,
            r.version == version,
    {
        ResourceKey { category, sub_category: String::from_str(sub_category), version }
    }

    /// A copy of this key with the same category, sub-category and version.
    pub fn duplicate(&self) -> (r: ResourceKey)
        ensures
            r == *self,
    {
        ResourceKey {
            category: self.category,
            sub_category: self.sub_category.clone(),
            version: self.version,
        }
    }

    /// Does the sub-category read `s`?
    pub fn sub_category_is(&self, s: &str) -> (r: bool)
        ensures
            r == (self.sub_category@ == s@),
    {
        let t = String::from_str(s);
        self.sub_category == t
    }
}

/// Selects the locale (and optionally a variant) of a request.
#[derive(Clone, Debug)]
pub struct LocaleSelector {
    pub variant: Option<String>,
    pub langid: LanguageIdentifier,
}

impl LocaleSelector {
    /// A selector of `langid` with no variant.
    pub fn of(langid: LanguageIdentifier) -> (r: LocaleSelector)
        ensures
            r.variant is None,
            r.langid == langid,
    {
        LocaleSelector { variant: None, langid }
    }

    /// A copy of this selector.
    pub fn duplicate(&self) -> (r: LocaleSelector)
        ensures
            r == *self,
    {
        let variant = match &self.variant {
            Some(v) => Some(v.clone()),
            None => None,
        };
        LocaleSelector { variant, langid: self.langid }
    }

}

/// A request for the data of one key in one locale.
#[derive(Clone, Debug)]
pub struct Request {
    pub key: ResourceKey,
    pub locale: LocaleSelector,
}

impl Request {
    /// A request for `key` in `langid`, with no variant.
    pub fn new(key: ResourceKey, langid: LanguageIdentifier) -> (r: Request)
        ensures
            r.key == key,
            r.locale.langid == langid,
            r.locale.variant is None,
    {
        Request { key, locale: LocaleSelector::of(langid) }
    }

    /// A copy of this request.
    pub fn duplicate(&self) -> (r: Request)
        ensures
            r == *self,
    {
        Request { key: self.key.duplicate(), locale: self.locale.duplicate() }
    }

}

} // verus!

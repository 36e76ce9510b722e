use vstd::prelude::*;
use crate::error::{DataError, SourceError};
use crate::json::{json_of, parse_json, JsonValue};
use crate::key::{LocaleSelector, Request, ResourceCategory, ResourceKey};
use crate::cldr::{all_locales_valid, locale_table, selectors_for, selectors_of, table_matches};
use crate::locale::LanguageIdentifier;
use crate::payload::{DataPayload, ErasedPayload, Response, ResponseBuilder};
use crate::structs::PluralRuleStringsV1;
use crate::support::{CldrSources, DataTransform};
use crate::zeromap::ZeroMap;

verus! {

/// Plural rule strings, cardinal and ordinal, each by locale.
#[derive(Debug)]
pub struct PluralsProvider {
    pub cardinal_rules: Option<ZeroMap<LanguageIdentifier, PluralRuleStringsV1>>,
    pub ordinal_rules: Option<ZeroMap<LanguageIdentifier, PluralRuleStringsV1>>,
}

/// What a load from the rules `t` may return.
pub open spec fn table_load_post<'a>(
    t: Option<ZeroMap<LanguageIdentifier, PluralRuleStringsV1>>,
    req: Request,
    r: Result<Response<'a>, DataError>,
) -> bool {
    match t {
        None => r == Err::<Response<'a>, DataError>(DataError::UnsupportedDataKey(req.key)),
        Some(t) => match t.lookup(req.locale.langid) {
            None => r == Err::<Response<'a>, DataError>(DataError::UnavailableEntry(req)),
            Some(v) => match r {
                Ok(resp) => resp.metadata.data_langid == Some(req.locale.langid) && match resp.payload {
                    Some(ErasedPayload::PluralRuleStringsV1(DataPayload::Borrowed(b))) => *b == v,
                    _ => false,
                },
                Err(_) => false,
            },
        },
    }
}

/// What an enumeration of the rules `t` may return.
pub open spec fn table_iter_post(
    t: Option<ZeroMap<LanguageIdentifier, PluralRuleStringsV1>>,
    key: ResourceKey,
    r: Result<Vec<LocaleSelector>, DataError>,
) -> bool {
    match t {
        None => r == Err::<Vec<LocaleSelector>, DataError>(DataError::UnsupportedDataKey(key)),
        Some(t) => match r {
            Ok(v) => selectors_of(v@, t),
            Err(_) => false,
        },
    }
}

/// Is `key` one of plural rules, version 1?
pub open spec fn plurals_supports(key: ResourceKey) -> bool {
    key.category == ResourceCategory::Plurals && key.version == 1
}

impl PluralsProvider {
    /// The rules that `key` selects by its sub-category.
    pub open spec fn rules_for_spec(&self, key: ResourceKey) -> Result<
        Option<ZeroMap<LanguageIdentifier, PluralRuleStringsV1>>,
        DataError,
    > {
        if !plurals_supports(key) {
            Err(Self::unsupported_spec(key))
        } else if key.sub_category@ == "cardinal"@ {
            Ok(self.cardinal_rules)
        } else if key.sub_category@ == "ordinal"@ {
            Ok(self.ordinal_rules)
        } else {
            Err(DataError::UnsupportedSubCategory(key))
        }
    }

    fn rules_for(&self, key: &ResourceKey) -> (r: Result<
        &Option<ZeroMap<LanguageIdentifier, PluralRuleStringsV1>>,
        DataError,
    >)
        ensures
            match (r, self.rules_for_spec(*key)) {
                (Ok(a), Ok(b)) => *a == b,
                (Err(a), Err(b)) => a == b,
                _ => false,
            },
    {
        Self::supports_key(key)?;
        if key.sub_category_is("cardinal") {
            Ok(&self.cardinal_rules)
        } else if key.sub_category_is("ordinal") {
            Ok(&self.ordinal_rules)
        } else {
            Err(DataError::UnsupportedSubCategory(key.duplicate()))
        }
    }

    /// The provider of the rules `cardinal` and `ordinal`, each a list of
    /// (CLDR locale name, rules) pairs in any order.
    pub fn from_rules(
        cardinal: Option<Vec<(String, PluralRuleStringsV1)>>,
        ordinal: Option<Vec<(String, PluralRuleStringsV1)>>,
    ) -> (r: Result<PluralsProvider, DataError>)
        ensures
            from_rules_post(opt_view(cardinal), opt_view(ordinal), r),
    {
        let cardinal_rules = match cardinal {
            Some(c) => Some(locale_table(c)?),
            None => None,
        };
        let ordinal_rules = match ordinal {
            Some(o) => Some(locale_table(o)?),
            None => None,
        };
        Ok(PluralsProvider { cardinal_rules, ordinal_rules })
    }

    /// Builds the provider from the text of `plurals.json` and `ordinals.json`.
    pub fn try_from_json(plurals_json: &str, ordinals_json: &str) -> (r: Result<
        PluralsProvider,
        DataError,
    >)
        ensures
            from_json_post(plurals_json@, ordinals_json@, r),
    {
        let cardinal = rules_of_document(plurals_json, "plurals-type-cardinal")?;
        let ordinal = rules_of_document(ordinals_json, "plurals-type-ordinal")?;
        Self::from_rules(cardinal, ordinal)
    }
}

/// The sequence that an optional vector holds.
pub open spec fn opt_view<P>(v: Option<Vec<(String, P)>>) -> Option<Seq<(String, P)>> {
    match v {
        Some(x) => Some(x@),
        None => None,
    }
}

/// What `from_rules` returns for the rule lists `c` and `o`.
pub open spec fn from_rules_post(
    c: Option<Seq<(String, PluralRuleStringsV1)>>,
    o: Option<Seq<(String, PluralRuleStringsV1)>>,
    r: Result<PluralsProvider, DataError>,
) -> bool {
    let valid = (match c {
        Some(cs) => all_locales_valid(cs),
        None => true,
    }) && (match o {
        Some(os) => all_locales_valid(os),
        None => true,
    });
    match r {
        Ok(p) => valid && p.wf() && (match (p.cardinal_rules, c) {
            (Some(t), Some(cs)) => table_matches(t, cs),
            (None, None) => true,
            _ => false,
        }) && (match (p.ordinal_rules, o) {
            (Some(t), Some(os)) => table_matches(t, os),
            (None, None) => true,
            _ => false,
        }),
        Err(e) => !valid && e matches DataError::ResourceError(SourceError::InvalidLocale(_)),
    }
}

/// What reading the rules under `member_name` from the JSON text `text` gives.
pub open spec fn document_post(
    text: Seq<char>,
    member_name: Seq<char>,
    r: Result<Option<Vec<(String, PluralRuleStringsV1)>>, DataError>,
) -> bool {
    match json_of(text) {
        None => r matches Err(DataError::ResourceError(SourceError::Json(_))),
        Some(d) => match (rules_in_document(d, member_name), r) {
            (Ok(x), Ok(y)) => x == opt_view(y),
            (Err(x), Err(y)) => x == y,
            _ => false,
        },
    }
}

/// What `try_from_json` returns for the texts `plurals` and `ordinals`.
pub open spec fn from_json_post(
    plurals: Seq<char>,
    ordinals: Seq<char>,
    r: Result<PluralsProvider, DataError>,
) -> bool {
    match json_of(plurals) {
        None => r matches Err(DataError::ResourceError(SourceError::Json(_))),
        Some(d) => match rules_in_document(d, "plurals-type-cardinal"@) {
            Err(e) => r == Err::<PluralsProvider, DataError>(e),
            Ok(c) => match json_of(ordinals) {
                None => r matches Err(DataError::ResourceError(SourceError::Json(_))),
                Some(d2) => match rules_in_document(d2, "plurals-type-ordinal"@) {
                    Err(e) => r == Err::<PluralsProvider, DataError>(e),
                    Ok(o) => from_rules_post(c, o, r),
                },
            },
        },
    }
}

/// One optional rule string of a locale's object: absent, a string, or an error.
pub open spec fn rule_string_spec(v: JsonValue, name: Seq<char>) -> Result<Option<String>, DataError> {
    match v.member_spec(name) {
        None => Ok(None),
        Some(JsonValue::String(s)) => Ok(Some(s)),
        Some(_) => Err(DataError::ResourceError(SourceError::Schema("a rule string"))),
    }
}

/// The rule strings of one locale's object.
pub open spec fn locale_rules_spec(v: JsonValue) -> Result<PluralRuleStringsV1, DataError> {
    let zero = rule_string_spec(v, "pluralRule-count-zero"@);
    let one = rule_string_spec(v, "pluralRule-count-one"@);
    let two = rule_string_spec(v, "pluralRule-count-two"@);
    let few = rule_string_spec(v, "pluralRule-count-few"@);
    let many = rule_string_spec(v, "pluralRule-count-many"@);
    if zero is Ok && one is Ok && two is Ok && few is Ok && many is Ok {
        Ok(
            PluralRuleStringsV1 {
                zero: zero.unwrap(),
                one: one.unwrap(),
                two: two.unwrap(),
                few: few.unwrap(),
                many: many.unwrap(),
            },
        )
    } else {
        Err(DataError::ResourceError(SourceError::Schema("a rule string")))
    }
}

/// Does every locale's object of `m` hold valid rule strings?
pub open spec fn entries_ok(m: Seq<(String, JsonValue)>) -> bool {
    forall|i: int| 0 <= i < m.len() ==> (#[trigger] locale_rules_spec(m[i].1)) is Ok
}

/// The (locale name, rules) pairs of the locales' objects `m`.
pub open spec fn entries_rules(m: Seq<(String, JsonValue)>) -> Seq<(String, PluralRuleStringsV1)> {
    Seq::new(m.len(), |i: int| (m[i].0, locale_rules_spec(m[i].1).unwrap()))
}

/// The (locale name, rules) pairs under `supplemental` / `member_name` of a
/// document; `None` where it has no such member.
pub open spec fn rules_in_document(d: JsonValue, member_name: Seq<char>) -> Result<
    Option<Seq<(String, PluralRuleStringsV1)>>,
    DataError,
> {
    match d.member_spec("supplemental"@) {
        None => Err(DataError::ResourceError(SourceError::Schema("supplemental"))),
        Some(sup) => match sup.member_spec(member_name) {
            None => Ok(None),
            Some(JsonValue::Object(m)) => if entries_ok(m@) {
                Ok(Some(entries_rules(m@)))
            } else {
                Err(DataError::ResourceError(SourceError::Schema("a rule string")))
            },
            Some(_) => Err(DataError::ResourceError(SourceError::Schema("an object of locales"))),
        },
    }
}

/// The (locale name, rules) pairs under `supplemental` / `member_name` of a
/// CLDR JSON document; `None` where the document has no such member.
fn rules_of_document(text: &str, member_name: &str) -> (r: Result<
    Option<Vec<(String, PluralRuleStringsV1)>>,
    DataError,
>)
    ensures
        document_post(text@, member_name@, r),
{
    let doc = match parse_json(text) {
        Ok(d) => d,
        Err(e) => {
            return Err(DataError::ResourceError(SourceError::Json(e)));
        },
    };
    let supplemental = match doc.member("supplemental") {
        Some(s) => s,
        None => {
            return Err(DataError::ResourceError(SourceError::Schema("supplemental")));
        },
    };
    let rules = match supplemental.member(member_name) {
        Some(x) => x,
        None => {
            return Ok(None);
        },
    };
    let entries = match rules {
        JsonValue::Object(m) => m,
        _ => {
            return Err(DataError::ResourceError(SourceError::Schema("an object of locales")));
        },
    };
    let mut out: Vec<(String, PluralRuleStringsV1)> = Vec::new();
    let mut i: usize = 0;
    while i < entries.len()
        invariant
            i <= entries@.len(),
            json_of(text@) == Some(doc),
            rules_in_document(doc, member_name@) == (if entries_ok(entries@) {
                Ok(Some(entries_rules(entries@)))
            } else {
                Err(DataError::ResourceError(SourceError::Schema("a rule string")))
            }),
            out@.len() == i,
            forall|k: int| 0 <= k < i ==> (#[trigger] locale_rules_spec(entries@[k].1)) is Ok,
            forall|k: int| 0 <= k < i ==> out@[k] == entries_rules(entries@)[k],
        decreases entries@.len() - i,
    {
        let (name, value) = &entries[i];
        let rules = match locale_rules(value) {
            Ok(r) => r,
            Err(e) => {
                proof {
                    assert(locale_rules_spec(entries@[i as int].1) is Err);
                    assert(!entries_ok(entries@));
                }
                return Err(e);
            },
        };
        out.push((name.clone(), rules));
        i = i + 1;
    }
    proof {
        assert(out@ == entries_rules(entries@));
    }
    Ok(Some(out))
}

/// One optional rule string of a locale's object.
fn rule_string(v: &JsonValue, name: &str) -> (r: Result<Option<String>, DataError>)
    ensures
        r == rule_string_spec(*v, name@),
{
    match v.member(name) {
        None => Ok(None),
        Some(x) => match x.text() {
            Some(s) => Ok(Some(s.clone())),
            None => Err(DataError::ResourceError(SourceError::Schema("a rule string"))),
        },
    }
}

/// The rule strings of one locale's object.
fn locale_rules(v: &JsonValue) -> (r: Result<PluralRuleStringsV1, DataError>)
    ensures
        r == locale_rules_spec(*v),
{
    Ok(PluralRuleStringsV1 {
        zero: rule_string(v, "pluralRule-count-zero")?,
        one: rule_string(v, "pluralRule-count-one")?,
        two: rule_string(v, "pluralRule-count-two")?,
        few: rule_string(v, "pluralRule-count-few")?,
        many: rule_string(v, "pluralRule-count-many")?,
    })
}

impl DataTransform for PluralsProvider {
    open spec fn supports_spec(key: ResourceKey) -> bool {
        plurals_supports(key)
    }

    open spec fn unsupported_spec(key: ResourceKey) -> DataError {
        if key.category != ResourceCategory::Plurals {
            DataError::UnsupportedCategory(key.category)
        } else {
            DataError::UnsupportedVersion(key)
        }
    }

    open spec fn build_post(sources: CldrSources, r: Result<Self, DataError>) -> bool {
        match sources.cldr_core {
            None => match r {
                Err(DataError::ResourceError(SourceError::MissingSource(m))) => m.src@ == "cldr-core"@,
                _ => false,
            },
            Some(c) => from_json_post(c.plurals_json@, c.ordinals_json@, r),
        }
    }

    open spec fn wf(&self) -> bool {
        (self.cardinal_rules matches Some(t) ==> t.wf()) && (self.ordinal_rules matches Some(t)
            ==> t.wf())
    }

    open spec fn load_post<'a>(&'a self, req: Request, r: Result<Response<'a>, DataError>) -> bool {
        match self.rules_for_spec(req.key) {
            Err(e) => r == Err::<Response<'a>, DataError>(e),
            Ok(t) => table_load_post(t, req, r),
        }
    }

    open spec fn iter_post(
        &self,
        key: ResourceKey,
        r: Result<Vec<LocaleSelector>, DataError>,
    ) -> bool {
        match self.rules_for_spec(key) {
            Err(e) => r == Err::<Vec<LocaleSelector>, DataError>(e),
            Ok(t) => table_iter_post(t, key, r),
        }
    }

    fn supports_key(key: &ResourceKey) -> (r: Result<(), DataError>) {
        if key.category != ResourceCategory::Plurals {
            return Err(DataError::UnsupportedCategory(key.category));
        }
        if key.version != 1 {
            return Err(DataError::UnsupportedVersion(key.duplicate()));
        }
        Ok(())
    }

    fn try_build(sources: &CldrSources) -> (r: Result<Self, DataError>) {
        let core = sources.core_sources()?;
        Self::try_from_json(core.plurals_json.as_str(), core.ordinals_json.as_str())
    }

    fn load<'a>(&'a self, req: &Request) -> (r: Result<Response<'a>, DataError>) {
        let rules = self.rules_for(&req.key)?;
        // No fallback: a locale without an entry of its own has no data,
        // even where a more general locale has.
        match rules {
            None => Err(DataError::UnsupportedDataKey(req.key.duplicate())),
            Some(t) => match t.get(&req.locale.langid) {
                Some(v) => Ok(
                    ResponseBuilder { data_langid: Some(req.locale.langid) }.with_borrowed_payload(
                        v,
                    ),
                ),
                None => Err(DataError::UnavailableEntry(req.duplicate())),
            },
        }
    }

    fn iter_for_key(&self, key: &ResourceKey) -> (r: Result<Vec<LocaleSelector>, DataError>) {
        let rules = self.rules_for(key)?;
        match rules {
            None => Err(DataError::UnsupportedDataKey(key.duplicate())),
            Some(t) => Ok(selectors_for(t)),
        }
    }
}

} // verus!

use vstd::prelude::*;
use crate::error::{DataError, SourceError};
use crate::json::{json_of, parse_json, JsonValue};
use crate::key::{LocaleSelector, Request, ResourceCategory, ResourceKey};
use crate::payload::{DataPayload, ErasedPayload, Response, ResponseBuilder};
use crate::cldr::{all_locales_valid, locale_table, selectors_for, selectors_of, table_matches};
use crate::structs::DateFormatsV1;
use crate::support::{CldrSources, DataTransform};
use crate::zeromap::ZeroMap;

verus! {

/// Gregorian date formats by locale.
#[derive(Debug)]
pub struct DatesProvider {
    pub formats: ZeroMap<crate::locale::LanguageIdentifier, DateFormatsV1>,
}

/// Is `key` one of date data, version 1?
pub open spec fn dates_supports(key: ResourceKey) -> bool {
    key.category == ResourceCategory::Dates && key.version == 1
}

impl DatesProvider {
    /// The provider of the (CLDR locale name, formats) pairs `raw`, in any order.
    pub fn from_formats(raw: Vec<(String, DateFormatsV1)>) -> (r: Result<DatesProvider, DataError>)
        ensures
            from_formats_post(raw@, r),
    {
        Ok(DatesProvider { formats: locale_table(raw)? })
    }

    /// Builds the provider from `ca-gregorian.json` documents, one per locale.
    pub fn try_from_json(documents: &Vec<String>) -> (r: Result<DatesProvider, DataError>)
        ensures
            from_documents_post(documents@, r),
    {
        let mut raw: Vec<(String, DateFormatsV1)> = Vec::new();
        let mut i: usize = 0;
        while i < documents.len()
            invariant
                i <= documents@.len(),
                documents_result(documents@.subrange(0, i as int)) == Some(
                    Ok::<Seq<(String, DateFormatsV1)>, DataError>(raw@),
                ),
            decreases documents@.len() - i,
        {
            proof {
                assert(documents@.subrange(0, i + 1).drop_last() == documents@.subrange(0, i as int));
                assert(documents@.subrange(0, i + 1).last() == documents@[i as int]);
            }
            let text = documents[i].as_str();
            let doc = match parse_json(text) {
                Ok(d) => d,
                Err(e) => {
                    proof {
                        lemma_documents_stop(documents@, i + 1);
                        assert(documents@.subrange(0, documents@.len() as int) == documents@);
                    }
                    return Err(DataError::ResourceError(SourceError::Json(e)));
                },
            };
            let mut found = match formats_of_document(&doc) {
                Ok(f) => f,
                Err(e) => {
                    proof {
                        lemma_documents_stop(documents@, i + 1);
                        assert(documents@.subrange(0, documents@.len() as int) == documents@);
                    }
                    return Err(e);
                },
            };
            raw.append(&mut found);
            i = i + 1;
        }
        proof {
            assert(documents@.subrange(0, documents@.len() as int) == documents@);
        }
        Self::from_formats(raw)
    }
}

/// What `from_formats` returns for the pairs `raw`.
pub open spec fn from_formats_post(
    raw: Seq<(String, DateFormatsV1)>,
    r: Result<DatesProvider, DataError>,
) -> bool {
    match r {
        Ok(p) => all_locales_valid(raw) && table_matches(p.formats, raw),
        Err(e) => !all_locales_valid(raw) && e matches DataError::ResourceError(
            SourceError::InvalidLocale(_),
        ),
    }
}

/// What `try_from_json` returns for the documents `docs`.
pub open spec fn from_documents_post(docs: Seq<String>, r: Result<DatesProvider, DataError>) -> bool {
    match documents_result(docs) {
        None => r matches Err(DataError::ResourceError(SourceError::Json(_))),
        Some(Err(e)) => r == Err::<DatesProvider, DataError>(e),
        Some(Ok(raw)) => from_formats_post(raw, r),
    }
}

/// The pairs of all documents `docs`, in order; the error of the first
/// document that fails, or `None` where that one is no JSON.
pub open spec fn documents_result(docs: Seq<String>) -> Option<
    Result<Seq<(String, DateFormatsV1)>, DataError>,
>
    decreases docs.len(),
{
    if docs.len() == 0 {
        Some(Ok(Seq::empty()))
    } else {
        match documents_result(docs.drop_last()) {
            Some(Ok(l)) => match json_of(docs.last()@) {
                None => None,
                Some(d) => match formats_in_document(d) {
                    Ok(x) => Some(Ok(l + x)),
                    Err(e) => Some(Err(e)),
                },
            },
            other => other,
        }
    }
}

proof fn lemma_documents_stop(docs: Seq<String>, j: int)
    requires
        0 <= j <= docs.len(),
        !(documents_result(docs.subrange(0, j)) matches Some(Ok(_))),
    ensures
        documents_result(docs) == documents_result(docs.subrange(0, j)),
    decreases docs.len() - j,
{
    if j < docs.len() {
        assert(docs.subrange(0, j + 1).drop_last() == docs.subrange(0, j));
        lemma_documents_stop(docs, j + 1);
    } else {
        assert(docs.subrange(0, j) == docs);
    }
}

/// The error of a missing member of the date data.
pub open spec fn missing_member() -> DataError {
    DataError::ResourceError(SourceError::Schema("a member of the date data"))
}

/// The `dateFormats` node of one locale's object.
pub open spec fn formats_node(v: JsonValue) -> Option<JsonValue> {
    match v.member_spec("dates"@) {
        None => None,
        Some(a) => match a.member_spec("calendars"@) {
            None => None,
            Some(b) => match b.member_spec("gregorian"@) {
                None => None,
                Some(c) => c.member_spec("dateFormats"@),
            },
        },
    }
}

/// A pattern string that must be there.
pub open spec fn required_text_spec(v: JsonValue, name: Seq<char>) -> Result<String, DataError> {
    match v.member_spec(name) {
        None => Err(missing_member()),
        Some(JsonValue::String(s)) => Ok(s),
        Some(_) => Err(DataError::ResourceError(SourceError::Schema("a pattern string"))),
    }
}

/// The formats of one locale's object.
pub open spec fn date_entry_spec(v: JsonValue) -> Result<DateFormatsV1, DataError> {
    match formats_node(v) {
        None => Err(missing_member()),
        Some(f) => match (
            required_text_spec(f, "full"@),
            required_text_spec(f, "long"@),
            required_text_spec(f, "medium"@),
            required_text_spec(f, "short"@),
        ) {
            (Err(e), _, _, _) => Err(e),
            (_, Err(e), _, _) => Err(e),
            (_, _, Err(e), _) => Err(e),
            (_, _, _, Err(e)) => Err(e),
            (Ok(full), Ok(long), Ok(medium), Ok(short)) => Ok(
                DateFormatsV1 { full, long, medium, short },
            ),
        },
    }
}

/// The (locale name, formats) pairs of the locales' objects `m`, in order;
/// the error of the first that fails.
pub open spec fn entries_formats(m: Seq<(String, JsonValue)>) -> Result<
    Seq<(String, DateFormatsV1)>,
    DataError,
>
    decreases m.len(),
{
    if m.len() == 0 {
        Ok(Seq::empty())
    } else {
        match entries_formats(m.drop_last()) {
            Err(e) => Err(e),
            Ok(l) => match date_entry_spec(m.last().1) {
                Err(e) => Err(e),
                Ok(f) => Ok(l.push((m.last().0, f))),
            },
        }
    }
}

proof fn lemma_entries_stop(m: Seq<(String, JsonValue)>, j: int)
    requires
        0 <= j <= m.len(),
        entries_formats(m.subrange(0, j)) is Err,
    ensures
        entries_formats(m) == entries_formats(m.subrange(0, j)),
    decreases m.len() - j,
{
    if j < m.len() {
        assert(m.subrange(0, j + 1).drop_last() == m.subrange(0, j));
        lemma_entries_stop(m, j + 1);
    } else {
        assert(m.subrange(0, j) == m);
    }
}

/// The (locale name, formats) pairs under `main` of a document.
pub open spec fn formats_in_document(d: JsonValue) -> Result<Seq<(String, DateFormatsV1)>, DataError> {
    match d.member_spec("main"@) {
        None => Err(missing_member()),
        Some(JsonValue::Object(m)) => entries_formats(m@),
        Some(_) => Err(DataError::ResourceError(SourceError::Schema("an object of locales"))),
    }
}

/// A member of `v` that must be there.
fn required<'a>(v: &'a JsonValue, name: &str) -> (r: Result<&'a JsonValue, DataError>)
    ensures
        match r {
            Ok(x) => v.member_spec(name@) == Some(*x),
            Err(e) => v.member_spec(name@) is None && e == missing_member(),
        },
{
    match v.member(name) {
        Some(x) => Ok(x),
        None => Err(DataError::ResourceError(SourceError::Schema("a member of the date data"))),
    }
}

/// A pattern string that must be there.
fn required_text(v: &JsonValue, name: &str) -> (r: Result<String, DataError>)
    ensures
        r == required_text_spec(*v, name@),
{
    match required(v, name)?.text() {
        Some(s) => Ok(s.clone()),
        None => Err(DataError::ResourceError(SourceError::Schema("a pattern string"))),
    }
}

/// The formats of one locale's object.
fn date_entry(v: &JsonValue) -> (r: Result<DateFormatsV1, DataError>)
    ensures
        r == date_entry_spec(*v),
{
    let dates = required(v, "dates")?;
    let calendars = required(dates, "calendars")?;
    let gregorian = required(calendars, "gregorian")?;
    let f = required(gregorian, "dateFormats")?;
    Ok(DateFormatsV1 {
        full: required_text(f, "full")?,
        long: required_text(f, "long")?,
        medium: required_text(f, "medium")?,
        short: required_text(f, "short")?,
    })
}

/// The (locale name, formats) pairs under `main` of one document.
fn formats_of_document(doc: &JsonValue) -> (r: Result<Vec<(String, DateFormatsV1)>, DataError>)
    ensures
        match (r, formats_in_document(*doc)) {
            (Ok(a), Ok(b)) => a@ == b,
            (Err(a), Err(b)) => a == b,
            _ => false,
        },
{
    let main = required(doc, "main")?;
    let locales = match main {
        JsonValue::Object(m) => m,
        _ => {
            return Err(DataError::ResourceError(SourceError::Schema("an object of locales")));
        },
    };
    let mut out: Vec<(String, DateFormatsV1)> = Vec::new();
    let mut i: usize = 0;
    while i < locales.len()
        invariant
            i <= locales@.len(),
            formats_in_document(*doc) == entries_formats(locales@),
            entries_formats(locales@.subrange(0, i as int)) == Ok::<
                Seq<(String, DateFormatsV1)>,
                DataError,
            >(out@),
        decreases locales@.len() - i,
    {
        proof {
            assert(locales@.subrange(0, i + 1).drop_last() == locales@.subrange(0, i as int));
            assert(locales@.subrange(0, i + 1).last() == locales@[i as int]);
        }
        let (name, value) = &locales[i];
        let formats = match date_entry(value) {
            Ok(f) => f,
            Err(e) => {
                proof {
                    assert(entries_formats(locales@.subrange(0, i + 1)) == Err::<
                        Seq<(String, DateFormatsV1)>,
                        DataError,
                    >(e));
                    lemma_entries_stop(locales@, i + 1);
                }
                return Err(e);
            },
        };
        out.push((name.clone(), formats));
        i = i + 1;
    }
    proof {
        assert(locales@.subrange(0, locales@.len() as int) == locales@);
    }
    Ok(out)
}

impl DataTransform for DatesProvider {
    open spec fn supports_spec(key: ResourceKey) -> bool {
        dates_supports(key)
    }

    open spec fn unsupported_spec(key: ResourceKey) -> DataError {
        if key.category != ResourceCategory::Dates {
            DataError::UnsupportedCategory(key.category)
        } else {
            DataError::UnsupportedVersion(key)
        }
    }

    open spec fn build_post(sources: CldrSources, r: Result<Self, DataError>) -> bool {
        match sources.cldr_dates {
            None => match r {
                Err(DataError::ResourceError(SourceError::MissingSource(m))) => m.src@ == "cldr-dates"@,
                _ => false,
            },
            Some(docs) => from_documents_post(docs@, r),
        }
    }

    open spec fn wf(&self) -> bool {
        self.formats.wf()
    }

    open spec fn load_post<'a>(&'a self, req: Request, r: Result<Response<'a>, DataError>) -> bool {
        if !dates_supports(req.key) {
            r == Err::<Response<'a>, DataError>(Self::unsupported_spec(req.key))
        } else if req.key.sub_category@ != "gregory"@ {
            r == Err::<Response<'a>, DataError>(DataError::UnsupportedSubCategory(req.key))
        } else {
            match self.formats.lookup(req.locale.langid) {
                None => r == Err::<Response<'a>, DataError>(DataError::UnavailableEntry(req)),
                Some(v) => match r {
                    Ok(resp) => resp.metadata.data_langid == Some(req.locale.langid)
                        && match resp.payload {
                        Some(ErasedPayload::DateFormatsV1(DataPayload::Borrowed(b))) => *b == v,
                        _ => false,
                    },
                    Err(_) => false,
                },
            }
        }
    }

    open spec fn iter_post(
        &self,
        key: ResourceKey,
        r: Result<Vec<LocaleSelector>, DataError>,
    ) -> bool {
        if !dates_supports(key) {
            r == Err::<Vec<LocaleSelector>, DataError>(Self::unsupported_spec(key))
        } else if key.sub_category@ != "gregory"@ {
            r == Err::<Vec<LocaleSelector>, DataError>(DataError::UnsupportedSubCategory(key))
        } else {
            match r {
                Ok(v) => selectors_of(v@, self.formats),
                Err(_) => false,
            }
        }
    }

    fn supports_key(key: &ResourceKey) -> (r: Result<(), DataError>) {
        if key.category != ResourceCategory::Dates {
            return Err(DataError::UnsupportedCategory(key.category));
        }
        if key.version != 1 {
            return Err(DataError::UnsupportedVersion(key.duplicate()));
        }
        Ok(())
    }

    fn try_build(sources: &CldrSources) -> (r: Result<Self, DataError>) {
        let documents = sources.dates_sources()?;
        Self::try_from_json(documents)
    }

    fn load<'a>(&'a self, req: &Request) -> (r: Result<Response<'a>, DataError>) {
        Self::supports_key(&req.key)?;
        if !req.key.sub_category_is("gregory") {
            return Err(DataError::UnsupportedSubCategory(req.key.duplicate()));
        }
        match self.formats.get(&req.locale.langid) {
            Some(v) => Ok(
                ResponseBuilder { data_langid: Some(req.locale.langid) }.with_borrowed_payload(v),
            ),
            None => Err(DataError::UnavailableEntry(req.duplicate())),
        }
    }

    fn iter_for_key(&self, key: &ResourceKey) -> (r: Result<Vec<LocaleSelector>, DataError>) {
        Self::supports_key(key)?;
        if !key.sub_category_is("gregory") {
            return Err(DataError::UnsupportedSubCategory(key.duplicate()));
        }
        Ok(selectors_for(&self.formats))
    }
}

} // verus!

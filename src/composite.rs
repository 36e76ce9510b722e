use vstd::prelude::*;
use crate::dates::{dates_supports, DatesProvider};
use crate::error::DataError;
use crate::key::{LocaleSelector, Request, ResourceKey};
use crate::payload::Response;
use crate::plurals::{plurals_supports, PluralsProvider};
use crate::support::{try_iter_post, try_load_post, CldrSources, LazyCldrProvider};

verus! {

/// The composite's result `r` for `key` after the sub-provider that handles
/// the key returned `sub`: its response, its error, or, where it too turned
/// the key away, `UnsupportedDataKey`.
pub open spec fn dispatched<R>(key: ResourceKey, sub: Result<Option<R>, DataError>, r: Result<R, DataError>) -> bool {
    match sub {
        Ok(Some(x)) => r == Ok::<R, DataError>(x),
        Err(e) => if e.is_unsupported_key() {
            r == Err::<R, DataError>(DataError::UnsupportedDataKey(key))
        } else {
            r == Err::<R, DataError>(e)
        },
        Ok(None) => r == Err::<R, DataError>(DataError::UnsupportedDataKey(key)),
    }
}

/// A sub-provider's result, with the errors by which it turns a key away
/// made into `None`, so that the next sub-provider is asked.
fn decline_unsupported<R>(sub: Result<Option<R>, DataError>) -> (r: Result<Option<R>, DataError>)
    ensures
        match sub {
            Ok(x) => r == Ok::<Option<R>, DataError>(x),
            Err(e) => if e.is_unsupported_key() {
                r == Ok::<Option<R>, DataError>(None)
            } else {
                r == Err::<Option<R>, DataError>(e)
            },
        },
{
    match sub {
        Ok(x) => Ok(x),
        Err(e) => match e {
            DataError::UnsupportedCategory(_) => Ok(None),
            DataError::UnsupportedVersion(_) => Ok(None),
            DataError::UnsupportedSubCategory(_) => Ok(None),
            DataError::UnsupportedDataKey(_) => Ok(None),
            _ => Err(e),
        },
    }
}

/// Serves CLDR data from lazily built sub-providers, one per family of keys,
/// asking them in a fixed order: plural rules, then dates.
pub struct CldrJsonDataProvider {
    sources: CldrSources,
    plurals: LazyCldrProvider<PluralsProvider>,
    dates: LazyCldrProvider<DatesProvider>,
}

/// No key is handled by more than one sub-provider.
pub proof fn lemma_supports_disjoint(key: ResourceKey)
    ensures
        !(plurals_supports(key) && dates_supports(key)),
{
}

impl CldrJsonDataProvider {
    pub closed spec fn wf(&self) -> bool {
        self.plurals.wf() && self.dates.wf()
    }

    /// The sources the sub-providers are built from.
    pub closed spec fn sources_spec(&self) -> CldrSources {
        self.sources
    }

    /// The cache of the plural rules sub-provider.
    pub closed spec fn plurals_spec(&self) -> LazyCldrProvider<PluralsProvider> {
        self.plurals
    }

    /// The cache of the dates sub-provider.
    pub closed spec fn dates_spec(&self) -> LazyCldrProvider<DatesProvider> {
        self.dates
    }

    /// A provider over `sources` with nothing built yet.
    pub fn new(sources: CldrSources) -> (r: CldrJsonDataProvider)
        ensures
            r.wf(),
            r.sources_spec() == sources,
            r.plurals_spec().slot_spec() is None && r.plurals_spec().builds_spec() == 0,
            r.dates_spec().slot_spec() is None && r.dates_spec().builds_spec() == 0,
    {
        CldrJsonDataProvider { sources, plurals: LazyCldrProvider::new(), dates: LazyCldrProvider::new() }
    }

    /// How many times the plural rules were built.
    pub fn plurals_builds(&self) -> (r: u64)
        ensures
            r == self.plurals_spec().builds_spec(),
    {
        self.plurals.builds()
    }

    /// How many times the date data was built.
    pub fn dates_builds(&self) -> (r: u64)
        ensures
            r == self.dates_spec().builds_spec(),
    {
        self.dates.builds()
    }

    /// Loads `req` from the sub-provider that handles its key, building that
    /// one first where needed; fails with `UnsupportedDataKey` where none does.
    pub fn load<'a>(&'a mut self, req: &Request) -> (r: Result<Response<'a>, DataError>)
        requires
            old(self).wf(),
        ensures
            final(self).wf(),
            final(self).sources_spec() == old(self).sources_spec(),
            plurals_supports(req.key) ==> final(self).dates_spec() == old(self).dates_spec()
                && exists|sub: Result<Option<Response<'a>>, DataError>|
                try_load_post(old(self).plurals_spec(), final(self).plurals_spec(), old(self).sources_spec(), *req, sub)
                    && dispatched(req.key, sub, r),
            dates_supports(req.key) ==> final(self).plurals_spec() == old(self).plurals_spec()
                && exists|sub: Result<Option<Response<'a>>, DataError>|
                try_load_post(old(self).dates_spec(), final(self).dates_spec(), old(self).sources_spec(), *req, sub)
                    && dispatched(req.key, sub, r),
            !plurals_supports(req.key) && !dates_supports(req.key) ==> r == Err::<
                Response<'a>,
                DataError,
            >(DataError::UnsupportedDataKey(req.key)) && *final(self) == *old(self),
    {
        proof {
            lemma_supports_disjoint(req.key);
        }
        let sub = self.plurals.try_load(req, &self.sources);
        let ghost s1 = sub;
        match decline_unsupported(sub) {
            Ok(Some(x)) => {
                proof {
                    assert(dispatched(req.key, s1, Ok::<Response<'a>, DataError>(x)));
                }
                return Ok(x);
            },
            Err(e) => {
                proof {
                    assert(dispatched(req.key, s1, Err::<Response<'a>, DataError>(e)));
                }
                return Err(e);
            },
            Ok(None) => {},
        }
        let sub = self.dates.try_load(req, &self.sources);
        let ghost s2 = sub;
        match decline_unsupported(sub) {
            Ok(Some(x)) => {
                proof {
                    assert(dispatched(req.key, s2, Ok::<Response<'a>, DataError>(x)));
                }
                return Ok(x);
            },
            Err(e) => {
                proof {
                    assert(dispatched(req.key, s2, Err::<Response<'a>, DataError>(e)));
                }
                return Err(e);
            },
            Ok(None) => {},
        }
        let r = Err(DataError::UnsupportedDataKey(req.key.duplicate()));
        proof {
            assert(dispatched(req.key, s1, r));
            assert(dispatched(req.key, s2, r));
        }
        r
    }

    /// The locales for which the sub-provider that handles `key` has data,
    /// building it first where needed; fails with `UnsupportedDataKey` where
    /// none handles the key.
    pub fn iter_for_key(&mut self, key: &ResourceKey) -> (r: Result<Vec<LocaleSelector>, DataError>)
        requires
            old(self).wf(),
        ensures
            final(self).wf(),
            final(self).sources_spec() == old(self).sources_spec(),
            plurals_supports(*key) ==> final(self).dates_spec() == old(self).dates_spec()
                && exists|sub: Result<Option<Vec<LocaleSelector>>, DataError>|
                try_iter_post(old(self).plurals_spec(), final(self).plurals_spec(), old(self).sources_spec(), *key, sub)
                    && dispatched(*key, sub, r),
            dates_supports(*key) ==> final(self).plurals_spec() == old(self).plurals_spec()
                && exists|sub: Result<Option<Vec<LocaleSelector>>, DataError>|
                try_iter_post(old(self).dates_spec(), final(self).dates_spec(), old(self).sources_spec(), *key, sub)
                    && dispatched(*key, sub, r),
            !plurals_supports(*key) && !dates_supports(*key) ==> r == Err::<
                Vec<LocaleSelector>,
                DataError,
            >(DataError::UnsupportedDataKey(*key)) && *final(self) == *old(self),
    {
        proof {
            lemma_supports_disjoint(*key);
        }
        let sub = self.plurals.try_iter(key, &self.sources);
        let ghost s1 = sub;
        match decline_unsupported(sub) {
            Ok(Some(x)) => {
                proof {
                    assert(dispatched(*key, s1, Ok::<Vec<LocaleSelector>, DataError>(x)));
                }
                return Ok(x);
            },
            Err(e) => {
                proof {
                    assert(dispatched(*key, s1, Err::<Vec<LocaleSelector>, DataError>(e)));
                }
                return Err(e);
            },
            Ok(None) => {},
        }
        let sub = self.dates.try_iter(key, &self.sources);
        let ghost s2 = sub;
        match decline_unsupported(sub) {
            Ok(Some(x)) => {
                proof {
                    assert(dispatched(*key, s2, Ok::<Vec<LocaleSelector>, DataError>(x)));
                }
                return Ok(x);
            },
            Err(e) => {
                proof {
                    assert(dispatched(*key, s2, Err::<Vec<LocaleSelector>, DataError>(e)));
                }
                return Err(e);
            },
            Ok(None) => {},
        }
        let r = Err(DataError::UnsupportedDataKey(key.duplicate()));
        proof {
            assert(dispatched(*key, s1, r));
            assert(dispatched(*key, s2, r));
        }
        r
    }
}

} // verus!

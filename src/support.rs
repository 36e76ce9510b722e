use vstd::prelude::*;
use crate::error::{DataError, MissingSourceError, SourceError};
use crate::key::{LocaleSelector, Request, ResourceKey};
use crate::payload::Response;

verus! {

/// The text of the CLDR core files that plural rules are built from.
pub struct CoreSources {
    /// `supplemental/plurals.json`
    pub plurals_json: String,
    /// `supplemental/ordinals.json`
    pub ordinals_json: String,
}

/// The CLDR sources that backing transforms are built from, as far as they are configured.
pub struct CldrSources {
    pub cldr_core: Option<CoreSources>,
    /// One `ca-gregorian.json` text for each locale of `cldr-dates`.
    pub cldr_dates: Option<Vec<String>>,
}

impl CldrSources {
    /// The `cldr-core` sources, or a `MissingSource` error naming them.
    pub fn core_sources(&self) -> (r: Result<&CoreSources, DataError>)
        ensures
            match r {
                Ok(c) => self.cldr_core == Some(*c),
                Err(e) => self.cldr_core is None && match e {
                    DataError::ResourceError(SourceError::MissingSource(m)) => m.src@ == "cldr-core"@,
                    _ => false,
                },
            },
    {
        match &self.cldr_core {
            Some(c) => Ok(c),
            None => Err(
                DataError::ResourceError(
                    SourceError::MissingSource(MissingSourceError { src: "cldr-core" }),
                ),
            ),
        }
    }

    /// The `cldr-dates` sources, or a `MissingSource` error naming them.
    pub fn dates_sources(&self) -> (r: Result<&Vec<String>, DataError>)
        ensures
            match r {
                Ok(c) => self.cldr_dates == Some(*c),
                Err(e) => self.cldr_dates is None && match e {
                    DataError::ResourceError(SourceError::MissingSource(m)) => m.src@ == "cldr-dates"@,
                    _ => false,
                },
            },
    {
        match &self.cldr_dates {
            Some(c) => Ok(c),
            None => Err(
                DataError::ResourceError(
                    SourceError::MissingSource(MissingSourceError { src: "cldr-dates" }),
                ),
            ),
        }
    }
}

/// A backing transform: built once from its sources, then asked for data.
pub trait DataTransform: Sized {
    /// Does the transform handle keys like `key` at all?
    spec fn supports_spec(key: ResourceKey) -> bool;

    /// The error by which the transform turns away `key`, where it does.
    spec fn unsupported_spec(key: ResourceKey) -> DataError;

    /// The transform is well formed.
    spec fn wf(&self) -> bool;

    /// What a load of `req` may return.
    spec fn load_post<'a>(&'a self, req: Request, r: Result<Response<'a>, DataError>) -> bool;

    /// What an enumeration of the locales of `key` may return.
    spec fn iter_post(&self, key: ResourceKey, r: Result<Vec<LocaleSelector>, DataError>) -> bool;

    /// A cheap check of the key, to be made before building.
    fn supports_key(key: &ResourceKey) -> (r: Result<(), DataError>)
        ensures
            r is Ok <==> Self::supports_spec(*key),
            r matches Err(e) ==> e == Self::unsupported_spec(*key),
    ;

    /// What building from `sources` may return.
    spec fn build_post(sources: CldrSources, r: Result<Self, DataError>) -> bool;

    /// Builds the transform from its sources.
    fn try_build(sources: &CldrSources) -> (r: Result<Self, DataError>)
        ensures
            Self::build_post(*sources, r),
            r matches Ok(t) ==> t.wf(),
    ;

    fn load<'a>(&'a self, req: &Request) -> (r: Result<Response<'a>, DataError>)
        requires
            self.wf(),
        ensures
            self.load_post(*req, r),
    ;

    fn iter_for_key(&self, key: &ResourceKey) -> (r: Result<Vec<LocaleSelector>, DataError>)
        requires
            self.wf(),
        ensures
            self.iter_post(*key, r),
    ;
}

/// `n + 1`, or `n` where that would overflow.
pub open spec fn sat_inc(n: u64) -> u64 {
    if n < u64::MAX {
        (n + 1) as u64
    } else {
        n
    }
}

/// Holds a backing transform that is built on the first request it supports
/// and kept for all later ones.
pub struct LazyCldrProvider<T> {
    slot: Option<T>,
    builds: u64,
}

impl<T: DataTransform> LazyCldrProvider<T> {
    pub closed spec fn wf(&self) -> bool {
        self.slot matches Some(t) ==> t.wf()
    }

    /// The transform, once built.
    pub closed spec fn slot_spec(&self) -> Option<T> {
        self.slot
    }

    /// How many times a build was attempted.
    pub closed spec fn builds_spec(&self) -> u64 {
        self.builds
    }

    /// An empty cache.
    pub fn new() -> (r: LazyCldrProvider<T>)
        ensures
            r.wf(),
            r.slot_spec() is None,
            r.builds_spec() == 0,
    {
        LazyCldrProvider { slot: None, builds: 0 }
    }

    /// How many times a build was attempted.
    pub fn builds(&self) -> (r: u64)
        ensures
            r == self.builds_spec(),
    {
        self.builds
    }

    /// Has the transform been built?
    pub fn is_populated(&self) -> (r: bool)
        ensures
            r == self.slot_spec() is Some,
    {
        self.slot.is_some()
    }

    /// Builds the transform unless it is there already.
    fn ensure_built(&mut self, sources: &CldrSources) -> (r: Result<(), DataError>)
        requires
            old(self).wf(),
        ensures
            final(self).wf(),
            old(self).slot is Some ==> *final(self) == *old(self) && r is Ok,
            old(self).slot is None ==> final(self).builds == sat_inc(old(self).builds),
            old(self).slot is None ==> match final(self).slot {
                Some(t) => r is Ok && T::build_post(*sources, Ok(t)),
                None => match r {
                    Err(e) => T::build_post(*sources, Err(e)),
                    Ok(_) => false,
                },
            },
    {
        if self.slot.is_none() {
            if self.builds < u64::MAX {
                self.builds = self.builds + 1;
            }
            let t = T::try_build(sources)?;
            self.slot = Some(t);
        }
        Ok(())
    }

    /// Loads `req` through the transform, building it first where needed.
    /// Returns `Ok(None)`, without building, where the transform does not
    /// support the key.
    pub fn try_load<'a>(&'a mut self, req: &Request, sources: &CldrSources) -> (r: Result<
        Option<Response<'a>>,
        DataError,
    >)
        requires
            old(self).wf(),
        ensures
            final(self).wf(),
            try_load_post(*old(self), *final(self), *sources, *req, r),
    {
        if T::supports_key(&req.key).is_err() {
            return Ok(None);
        }
        self.ensure_built(sources)?;
        match &self.slot {
            Some(t) => match t.load(req) {
                Ok(resp) => Ok(Some(resp)),
                Err(e) => Err(e),
            },
            None => Ok(None),
        }
    }

    /// The locales that the transform has data for under `key`, building it
    /// first where needed. Returns `Ok(None)`, without building, where the
    /// transform does not support the key.
    pub fn try_iter(&mut self, key: &ResourceKey, sources: &CldrSources) -> (r: Result<
        Option<Vec<LocaleSelector>>,
        DataError,
    >)
        requires
            old(self).wf(),
        ensures
            final(self).wf(),
            try_iter_post(*old(self), *final(self), *sources, *key, r),
    {
        if T::supports_key(key).is_err() {
            return Ok(None);
        }
        self.ensure_built(sources)?;
        match &self.slot {
            Some(t) => match t.iter_for_key(key) {
                Ok(v) => Ok(Some(v)),
                Err(e) => Err(e),
            },
            None => Ok(None),
        }
    }
}

/// What `try_iter` promises, from the cache before and after the call.
pub open spec fn try_iter_post<T: DataTransform>(
    before: LazyCldrProvider<T>,
    after: LazyCldrProvider<T>,
    sources: CldrSources,
    key: ResourceKey,
    r: Result<Option<Vec<LocaleSelector>>, DataError>,
) -> bool {
    if !T::supports_spec(key) {
        r matches Ok(None) && after == before
    } else {
        &&& after.builds_spec() == (if before.slot_spec() is None {
            sat_inc(before.builds_spec())
        } else {
            before.builds_spec()
        })
        &&& before.slot_spec() is Some ==> after.slot_spec() == before.slot_spec()
        &&& match after.slot_spec() {
            Some(t) => (before.slot_spec() is None ==> T::build_post(sources, Ok(t))) && match r {
                Ok(Some(v)) => t.iter_post(key, Ok(v)),
                Err(e) => t.iter_post(key, Err(e)),
                Ok(None) => false,
            },
            None => before.slot_spec() is None && match r {
                Err(e) => T::build_post(sources, Err(e)),
                Ok(_) => false,
            },
        }
    }
}

/// What `try_load` promises, from the cache before and after the call: an
/// unsupported key leaves it alone; otherwise a transform that is there is
/// used, and an empty cache is built from `sources` first, the built
/// transform stored and used, or the build's own error returned.
pub open spec fn try_load_post<'a, T: DataTransform>(
    before: LazyCldrProvider<T>,
    after: LazyCldrProvider<T>,
    sources: CldrSources,
    req: Request,
    r: Result<Option<Response<'a>>, DataError>,
) -> bool {
    if !T::supports_spec(req.key) {
        r matches Ok(None) && after == before
    } else {
        &&& after.builds_spec() == (if before.slot_spec() is None {
            sat_inc(before.builds_spec())
        } else {
            before.builds_spec()
        })
        &&& before.slot_spec() is Some ==> after.slot_spec() == before.slot_spec()
        &&& match after.slot_spec() {
            Some(t) => (before.slot_spec() is None ==> T::build_post(sources, Ok(t))) && match r {
                Ok(Some(resp)) => t.load_post(req, Ok(resp)),
                Err(e) => t.load_post(req, Err(e)),
                Ok(None) => false,
            },
            None => before.slot_spec() is None && match r {
                Err(e) => T::build_post(sources, Err(e)),
                Ok(_) => false,
            },
        }
    }
}

/// Loading through a cache any number of times builds its transform once:
/// starting from an empty cache, where the first call built the transform,
/// the count of builds is one after that call and after every later one,
/// whatever keys the later calls ask for.
pub proof fn lemma_builds_once<'a, T: DataTransform>(
    states: Seq<LazyCldrProvider<T>>,
    sources: CldrSources,
    reqs: Seq<Request>,
    results: Seq<Result<Option<Response<'a>>, DataError>>,
)
    requires
        reqs.len() >= 1,
        states.len() == reqs.len() + 1,
        results.len() == reqs.len(),
        states[0].slot_spec() is None,
        states[0].builds_spec() == 0,
        T::supports_spec(reqs[0].key),
        states[1].slot_spec() is Some,
        forall|i: int|
            0 <= i < reqs.len() ==> try_load_post(states[i], states[i + 1], sources, reqs[i], results[i]),
    ensures
        forall|i: int| 1 <= i < states.len() ==> states[i].builds_spec() == 1,
{
    assert forall|i: int| 1 <= i < states.len() implies states[i].builds_spec() == 1
        && states[i].slot_spec() is Some by {
        lemma_builds_once_upto(states, sources, reqs, results, i);
    }
}

proof fn lemma_builds_once_upto<'a, T: DataTransform>(
    states: Seq<LazyCldrProvider<T>>,
    sources: CldrSources,
    reqs: Seq<Request>,
    results: Seq<Result<Option<Response<'a>>, DataError>>,
    k: int,
)
    requires
        reqs.len() >= 1,
        states.len() == reqs.len() + 1,
        results.len() == reqs.len(),
        states[0].slot_spec() is None,
        states[0].builds_spec() == 0,
        T::supports_spec(reqs[0].key),
        states[1].slot_spec() is Some,
        forall|i: int|
            0 <= i < reqs.len() ==> try_load_post(states[i], states[i + 1], sources, reqs[i], results[i]),
        1 <= k < states.len(),
    ensures
        states[k].builds_spec() == 1,
        states[k].slot_spec() is Some,
    decreases k,
{
    assert(try_load_post(states[k - 1], states[k], sources, reqs[k - 1], results[k - 1]));
    if k > 1 {
        lemma_builds_once_upto(states, sources, reqs, results, k - 1);
    }
}

} // verus!

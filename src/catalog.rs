use vstd::prelude::*;
use crate::station::{Station, station_matches, playable};

verus! {

/// The stations of `s` that pass the filter `q`, in their original order.
pub open spec fn filtered(s: Seq<Station>, q: Seq<char>) -> Seq<Station> {
    s.filter(|st: Station| station_matches(st, q))
}

/// The stations of `s` that can be played, in their original order.
pub open spec fn playable_only(s: Seq<Station>) -> Seq<Station> {
    s.filter(|st: Station| playable(st))
}

/// The stations of `stations` whose name or tags contain `filter`; all of
/// them, in order, when `filter` is empty.
pub fn filter_stations(stations: &Vec<Station>, filter: &str) -> (r: Vec<Station>)
    ensures
        r@ == filtered(stations@, filter@),
{
    let mut r: Vec<Station> = Vec::new();
    let mut i: usize = 0;
    while i < stations.len()
        invariant
            i <= stations@.len(),
            r@ == filtered(stations@.subrange(0, i as int), filter@),
        decreases stations@.len() - i,
    {
        proof {
            assert(stations@.subrange(0, i + 1).drop_last() == stations@.subrange(0, i as int));
            reveal(Seq::filter);
        }
        if stations[i].matches(filter) {
            r.push(stations[i].clone());
        }
        i = i + 1;
    }
    proof {
        assert(stations@.subrange(0, stations@.len() as int) == stations@);
    }
    r
}

/// The stations of `stations` that have a resolved stream URL, in order.
pub fn retain_playable(stations: &Vec<Station>) -> (r: Vec<Station>)
    ensures
        r@ == playable_only(stations@),
{
    let mut r: Vec<Station> = Vec::new();
    let mut i: usize = 0;
    while i < stations.len()
        invariant
            i <= stations@.len(),
            r@ == playable_only(stations@.subrange(0, i as int)),
        decreases stations@.len() - i,
    {
        proof {
            assert(stations@.subrange(0, i + 1).drop_last() == stations@.subrange(0, i as int));
            reveal(Seq::filter);
        }
        if stations[i].is_playable() {
            r.push(stations[i].clone());
        }
        i = i + 1;
    }
    proof {
        assert(stations@.subrange(0, stations@.len() as int) == stations@);
    }
    r
}

/// Every station that the filter returns passes it; every station of the
/// catalog that passes it is returned; the empty query returns the catalog
/// unchanged.
pub proof fn lemma_filter_sound_complete(s: Seq<Station>, q: Seq<char>)
    ensures
        forall|i: int|
            0 <= i < filtered(s, q).len() ==> station_matches(#[trigger] filtered(s, q)[i], q),
        forall|i: int| 0 <= i < s.len() && station_matches(s[i], q) ==> #[trigger] filtered(
            s,
            q,
        ).contains(s[i]),
        q.len() == 0 ==> filtered(s, q) == s,
{
    broadcast use vstd::seq_lib::group_filter_ensures;

    if q.len() == 0 {
        lemma_filter_all(s, q);
    }
}

proof fn lemma_filter_all(s: Seq<Station>, q: Seq<char>)
    requires
        q.len() == 0,
    ensures
        filtered(s, q) == s,
    decreases s.len(),
{
    reveal(Seq::filter);
    if s.len() > 0 {
        lemma_filter_all(s.drop_last(), q);
        assert(s.drop_last().push(s.last()) == s);
    }
}

} // verus!

verus! {

/// Why a load from the directory service failed.
#[derive(Debug, Clone, Copy, PartialEq, Eq, Structural)]
pub enum FetchError {
    NetworkFailure,
    ServiceError,
}

/// Why the cache record could not be read.
#[derive(Debug, Clone, Copy, PartialEq, Eq, Structural)]
pub enum CacheError {
    NotFound,
    Corrupt,
    Io,
}

/// What the caller of `ensure_loaded` or `refresh` has to do next.
#[derive(Debug, Clone, Copy, PartialEq, Eq, Structural)]
pub enum LoadStep {
    /// The snapshot is in memory: no I/O.
    Ready,
    /// A load is in flight already: wait for its completion.
    AwaitInFlight,
    /// Read the cache record for the load of this generation.
    ReadCache(u64),
    /// Call the directory service for the load of this generation.
    Fetch(u64),
}

/// What a completed cache read or directory call led to.
#[derive(Debug, Clone, Copy, PartialEq, Eq, Structural)]
pub enum LoadOutcome {
    /// The completion belongs to a load that is no longer current: discarded.
    Stale,
    /// The snapshot was replaced; it holds this many stations.
    Loaded(usize),
    /// The cache could not be read: call the directory service for this generation.
    FetchInstead(u64),
    /// The directory call failed; the catalog stays as it was.
    Failed(FetchError),
}

/// Owner of the current catalog snapshot and of the policy for obtaining it.
/// Unplayable stations are dropped when a snapshot is taken in, whatever its
/// source.
#[derive(Debug, PartialEq, Eq)]
pub struct CatalogManager {
    pub stations: Vec<Station>,
    pub loaded: bool,
    pub in_flight: Option<u64>,
    pub generation: u64,
}

/// The step that `ensure_loaded` asks for.
pub open spec fn ensure_step(m: CatalogManager, cache_present: bool) -> LoadStep {
    if m.loaded {
        LoadStep::Ready
    } else if m.in_flight is Some {
        LoadStep::AwaitInFlight
    } else if cache_present {
        LoadStep::ReadCache((m.generation + 1) as u64)
    } else {
        LoadStep::Fetch((m.generation + 1) as u64)
    }
}

/// The manager after `ensure_loaded`.
pub open spec fn ensure_next(m: CatalogManager, cache_present: bool) -> CatalogManager {
    if m.loaded || m.in_flight is Some {
        m
    } else {
        CatalogManager {
            in_flight: Some((m.generation + 1) as u64),
            generation: (m.generation + 1) as u64,
            ..m
        }
    }
}

/// The step asks for I/O: a cache read or a directory call.
pub open spec fn starts_io(s: LoadStep) -> bool {
    s is ReadCache || s is Fetch
}

impl CatalogManager {
    /// Internal consistency: the in-flight load, if any, is the latest one started.
    pub open spec fn wf(&self) -> bool {
        &&& (self.in_flight is Some ==> self.in_flight->0 == self.generation)
        &&& (!self.loaded ==> self.stations@.len() == 0)
        &&& forall|i: int| 0 <= i < self.stations@.len() ==> playable(#[trigger] self.stations@[i])
    }

    /// A manager with nothing loaded and nothing requested.
    pub fn new() -> (r: Self)
        ensures
            r.wf(),
            !r.loaded,
            r.in_flight is None,
            r.stations@.len() == 0,
            r.generation == 0,
    {
        CatalogManager { stations: Vec::new(), loaded: false, in_flight: None, generation: 0 }
    }

    /// Makes sure that a snapshot is, or will be, in memory. With a snapshot
    /// loaded nothing is done; with a load in flight the caller waits for it;
    /// otherwise a new load starts, from the cache where a record is present
    /// and from the directory service where none is.
    pub fn ensure_loaded(&mut self, cache_present: bool) -> (r: LoadStep)
        requires
            old(self).wf(),
            old(self).generation < u64::MAX,
        ensures
            final(self).wf(),
            r == ensure_step(*old(self), cache_present),
            *final(self) == ensure_next(*old(self), cache_present),
    {
        if self.loaded {
            return LoadStep::Ready;
        }
        if self.in_flight.is_some() {
            return LoadStep::AwaitInFlight;
        }
        self.generation = self.generation + 1;
        self.in_flight = Some(self.generation);
        if cache_present {
            LoadStep::ReadCache(self.generation)
        } else {
            LoadStep::Fetch(self.generation)
        }
    }

    /// Starts a load from the directory service whatever the current state;
    /// a load in flight before is superseded and its completion will be
    /// discarded.
    pub fn refresh(&mut self) -> (r: LoadStep)
        requires
            old(self).wf(),
            old(self).generation < u64::MAX,
        ensures
            final(self).wf(),
            r == LoadStep::Fetch((old(self).generation + 1) as u64),
            final(self).in_flight == Some((old(self).generation + 1) as u64),
            final(self).generation == old(self).generation + 1,
            final(self).stations == old(self).stations,
            final(self).loaded == old(self).loaded,
    {
        self.generation = self.generation + 1;
        self.in_flight = Some(self.generation);
        LoadStep::Fetch(self.generation)
    }

    fn take_snapshot(&mut self, stations: &Vec<Station>)
        requires
            old(self).wf(),
        ensures
            final(self).wf(),
            final(self).stations@ == playable_only(stations@),
            final(self).loaded,
            final(self).in_flight is None,
            final(self).generation == old(self).generation,
    {
        let kept = retain_playable(stations);
        proof {
            broadcast use vstd::seq_lib::group_filter_ensures;

        }
        self.stations = kept;
        self.loaded = true;
        self.in_flight = None;
    }

    /// Takes in the result of a cache read for the load of `generation`. A
    /// result for any other load is stale and changes nothing. A record
    /// replaces the snapshot; a failed read turns the load into a directory
    /// call of the same generation.
    pub fn cache_loaded(&mut self, generation: u64, result: Result<Vec<Station>, CacheError>) -> (r:
        LoadOutcome)
        requires
            old(self).wf(),
        ensures
            final(self).wf(),
            old(self).in_flight != Some(generation) ==> r == LoadOutcome::Stale && *final(self)
                == *old(self),
            old(self).in_flight == Some(generation) && result is Err ==> r
                == LoadOutcome::FetchInstead(generation) && *final(self) == *old(self),
            old(self).in_flight == Some(generation) && result is Ok ==> final(self).stations@
                == playable_only(result->Ok_0@) && final(self).loaded && final(self).in_flight is None
                && r == LoadOutcome::Loaded(final(self).stations@.len() as usize),
    {
        if self.in_flight != Some(generation) {
            return LoadOutcome::Stale;
        }
        match result {
            Ok(list) => {
                self.take_snapshot(&list);
                LoadOutcome::Loaded(self.stations.len())
            },
            Err(_) => LoadOutcome::FetchInstead(generation),
        }
    }

    /// Takes in the result of a directory call for the load of `generation`.
    /// A result for any other load is stale and changes nothing. A station
    /// list, empty or not, replaces the snapshot and is to be written to the
    /// cache by the caller; a failure ends the load and keeps the snapshot.
    pub fn fetch_completed(&mut self, generation: u64, result: Result<Vec<Station>, FetchError>) -> (r:
        LoadOutcome)
        requires
            old(self).wf(),
        ensures
            final(self).wf(),
            old(self).in_flight != Some(generation) ==> r == LoadOutcome::Stale && *final(self)
                == *old(self),
            old(self).in_flight == Some(generation) && result is Err ==> r == LoadOutcome::Failed(
                result->Err_0,
            ) && *final(self) == (CatalogManager { in_flight: None, ..*old(self) }),
            old(self).in_flight == Some(generation) && result is Ok ==> final(self).stations@
                == playable_only(result->Ok_0@) && final(self).loaded && final(self).in_flight is None
                && r == LoadOutcome::Loaded(final(self).stations@.len() as usize),
    {
        if self.in_flight != Some(generation) {
            return LoadOutcome::Stale;
        }
        match result {
            Ok(list) => {
                self.take_snapshot(&list);
                LoadOutcome::Loaded(self.stations.len())
            },
            Err(e) => {
                self.in_flight = None;
                LoadOutcome::Failed(e)
            },
        }
    }

    /// The stations of the current snapshot that pass `query`, in order;
    /// empty when nothing is loaded.
    pub fn filter(&self, query: &str) -> (r: Vec<Station>)
        requires
            self.wf(),
        ensures
            r@ == filtered(self.stations@, query@),
            !self.loaded ==> r@.len() == 0,
    {
        let r = filter_stations(&self.stations, query);
        proof {
            broadcast use vstd::seq_lib::group_filter_ensures;

        }
        r
    }
}

/// Two `ensure_loaded` requests that arrive before any completion start at
/// most one load: at most one of them asks for a cache read or a directory
/// call, and the second leaves the in-flight load as the first set it. The
/// only completion that is then taken in, and so the only one that leads to
/// a cache write, is that of the load in flight before or of the one the
/// first request started.
pub proof fn lemma_ensure_loaded_at_most_once(m: CatalogManager, c1: bool, c2: bool)
    requires
        m.wf(),
        m.generation < u64::MAX,
    ensures
        ({
            let m1 = ensure_next(m, c1);
            let s1 = ensure_step(m, c1);
            let s2 = ensure_step(m1, c2);
            &&& !(starts_io(s1) && starts_io(s2))
            &&& !(s1 is Fetch && s2 is Fetch)
            &&& ensure_next(m1, c2) == m1
            &&& (ensure_next(m1, c2).in_flight is Some ==> {
                let g = ensure_next(m1, c2).in_flight->0;
                m.in_flight == Some(g) || s1 == LoadStep::ReadCache(g) || s1 == LoadStep::Fetch(g)
            })
        }),
{
}

} // verus!

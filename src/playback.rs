use vstd::prelude::*;
use crate::station::{Station, playable};

verus! {

/// Where the playback session stands.
#[derive(Debug, Clone, Copy, PartialEq, Eq, Structural)]
pub enum PlaybackState {
    Idle,
    Loading,
    Playing,
    Paused,
    Stopped,
    Failed,
}

/// Why a play request did not lead to playback.
#[derive(Debug, Clone, Copy, PartialEq, Eq, Structural)]
pub enum PlaybackError {
    Unplayable,
    EngineAcquireFailed,
    EngineStartFailed,
}

/// How an engine acquisition went.
#[derive(Debug, Clone, Copy, PartialEq, Eq, Structural)]
pub enum EngineReport {
    Started,
    AcquireFailed,
    StartFailed,
}

/// Work for the playback engine. Each engine instance is known by a handle
/// number that the session hands out.
#[derive(Debug, PartialEq, Eq)]
pub enum EngineAction {
    /// Stop the instance, ignoring its failures, and release it.
    Release(u64),
    /// Acquire a new instance under this handle, load the URL and start it.
    Acquire(u64, String),
    Pause(u64),
    Resume(u64),
}

impl Clone for EngineAction {
    fn clone(&self) -> (r: Self)
        ensures
            r == *self,
    {
        match self {
            EngineAction::Release(h) => EngineAction::Release(*h),
            EngineAction::Acquire(h, url) => EngineAction::Acquire(*h, url.clone()),
            EngineAction::Pause(h) => EngineAction::Pause(*h),
            EngineAction::Resume(h) => EngineAction::Resume(*h),
        }
    }
}

/// The playback session: at most one engine instance is live at a time.
#[derive(Debug, PartialEq, Eq)]
pub struct PlaybackSession {
    pub state: PlaybackState,
    pub station: Option<Station>,
    pub engine: Option<u64>,
    pub next_handle: u64,
}

/// The set of live engine handles after `a` is performed on `live`.
pub open spec fn apply_action(live: Set<u64>, a: EngineAction) -> Set<u64> {
    match a {
        EngineAction::Release(h) => live.remove(h),
        EngineAction::Acquire(h, _) => live.insert(h),
        _ => live,
    }
}

/// The set of live engine handles after `acts` are performed in order.
pub open spec fn run_actions(live: Set<u64>, acts: Seq<EngineAction>) -> Set<u64>
    decreases acts.len(),
{
    if acts.len() == 0 {
        live
    } else {
        run_actions(apply_action(live, acts[0]), acts.drop_first())
    }
}

/// While `acts` are performed in order from `live`, never two handles are live.
pub open spec fn at_most_one_live(live: Set<u64>, acts: Seq<EngineAction>) -> bool
    decreases acts.len(),
{
    live.len() <= 1 && (acts.len() > 0 ==> at_most_one_live(
        apply_action(live, acts[0]),
        acts.drop_first(),
    ))
}

/// The engine handles that the session holds live.
pub open spec fn live_handles(s: PlaybackSession) -> Set<u64> {
    match s.engine {
        Some(h) => set![h],
        None => Set::empty(),
    }
}

/// The session's state after `play(st)`.
pub open spec fn play_next(s: PlaybackSession, st: Station) -> PlaybackSession {
    if !playable(st) {
        s
    } else {
        PlaybackSession {
            state: PlaybackState::Loading,
            station: Some(st),
            engine: Some(s.next_handle),
            next_handle: (s.next_handle + 1) as u64,
        }
    }
}

/// The engine work that `play(st)` asks for: release of the old instance,
/// then acquisition of a new one for the station's resolved URL.
pub open spec fn play_actions(s: PlaybackSession, st: Station) -> Seq<EngineAction> {
    let acquire = seq![EngineAction::Acquire(s.next_handle, st.url_resolved)];
    match s.engine {
        Some(h) => seq![EngineAction::Release(h)] + acquire,
        None => acquire,
    }
}

impl PlaybackSession {
    /// The session is consistent: an engine is held exactly in the states
    /// that need one, and its handle was handed out before.
    pub open spec fn wf(&self) -> bool {
        &&& (self.engine is Some <==> (self.state is Loading || self.state is Playing
            || self.state is Paused))
        &&& (self.engine is Some ==> self.engine->0 < self.next_handle)
        &&& self.next_handle < u64::MAX
        &&& (self.state is Idle ==> self.station is None)
    }

    /// A new session: idle, no station, no engine.
    pub fn new() -> (r: Self)
        ensures
            r.wf(),
            r.state == PlaybackState::Idle,
            r.station is None,
            r.engine is None,
            r.next_handle == 0,
    {
        PlaybackSession { state: PlaybackState::Idle, station: None, engine: None, next_handle: 0 }
    }

    /// Asks to play `station`. An unplayable station is refused with
    /// `Unplayable` and nothing changes. Otherwise the previous engine
    /// instance, if any, is released before a new one is acquired, and the
    /// session moves to `Loading`.
    pub fn play(&mut self, station: &Station) -> (r: Result<Vec<EngineAction>, PlaybackError>)
        requires
            old(self).wf(),
            old(self).next_handle + 1 < u64::MAX,
        ensures
            final(self).wf(),
            *final(self) == play_next(*old(self), *station),
            !playable(*station) <==> r == Err::<Vec<EngineAction>, PlaybackError>(
                PlaybackError::Unplayable,
            ),
            r is Ok <==> playable(*station),
            r is Ok ==> r->Ok_0@ == play_actions(*old(self), *station),
            r is Ok ==> at_most_one_live(live_handles(*old(self)), r->Ok_0@),
            r is Ok ==> run_actions(live_handles(*old(self)), r->Ok_0@) == live_handles(
                *final(self),
            ),
    {
        if !station.is_playable() {
            return Err(PlaybackError::Unplayable);
        }
        let mut acts: Vec<EngineAction> = Vec::new();
        match self.engine {
            Some(h) => acts.push(EngineAction::Release(h)),
            None => {},
        }
        let handle = self.next_handle;
        acts.push(EngineAction::Acquire(handle, station.url_resolved.clone()));
        let ghost before = *self;
        self.state = PlaybackState::Loading;
        self.station = Some(station.clone());
        self.engine = Some(handle);
        self.next_handle = handle + 1;
        proof {
            lemma_play_engine(before, *station);
            assert(acts@ == play_actions(before, *station));
        }
        Ok(acts)
    }

    /// The engine reports how the acquisition under `handle` went. A report
    /// for an instance other than the one the session is loading is stale and
    /// changes nothing (`None`). A failure moves the session to `Failed`,
    /// with no engine held, and is returned as its error.
    pub fn engine_report(&mut self, handle: u64, report: EngineReport) -> (r: Option<
        Result<PlaybackState, PlaybackError>,
    >)
        requires
            old(self).wf(),
        ensures
            final(self).wf(),
            !(old(self).state is Loading && old(self).engine == Some(handle)) ==> r is None
                && *final(self) == *old(self),
            old(self).state is Loading && old(self).engine == Some(handle) && report is Started
                ==> r == Some(Ok::<PlaybackState, PlaybackError>(PlaybackState::Playing))
                && *final(self) == (PlaybackSession { state: PlaybackState::Playing, ..*old(self) }),
            old(self).state is Loading && old(self).engine == Some(handle) && report
                is AcquireFailed ==> r == Some(
                Err::<PlaybackState, PlaybackError>(PlaybackError::EngineAcquireFailed),
            ) && *final(self) == (PlaybackSession {
                state: PlaybackState::Failed,
                engine: None,
                ..*old(self)
            }),
            old(self).state is Loading && old(self).engine == Some(handle) && report
                is StartFailed ==> r == Some(
                Err::<PlaybackState, PlaybackError>(PlaybackError::EngineStartFailed),
            ) && *final(self) == (PlaybackSession {
                state: PlaybackState::Failed,
                engine: None,
                ..*old(self)
            }),
    {
        let current = match self.engine {
            Some(h) => h == handle,
            None => false,
        };
        if self.state != PlaybackState::Loading || !current {
            return None;
        }
        match report {
            EngineReport::Started => {
                self.state = PlaybackState::Playing;
                Some(Ok(PlaybackState::Playing))
            },
            EngineReport::AcquireFailed => {
                self.state = PlaybackState::Failed;
                self.engine = None;
                Some(Err(PlaybackError::EngineAcquireFailed))
            },
            EngineReport::StartFailed => {
                self.state = PlaybackState::Failed;
                self.engine = None;
                Some(Err(PlaybackError::EngineStartFailed))
            },
        }
    }

    /// Pauses playback. Only from `Playing`; from any other state nothing
    /// changes and `None` is returned.
    pub fn pause(&mut self) -> (r: Option<EngineAction>)
        requires
            old(self).wf(),
        ensures
            final(self).wf(),
            old(self).state is Playing ==> r == Some(EngineAction::Pause(old(self).engine->0))
                && *final(self) == (PlaybackSession { state: PlaybackState::Paused, ..*old(self) }),
            !(old(self).state is Playing) ==> r is None && *final(self) == *old(self),
    {
        if self.state != PlaybackState::Playing {
            return None;
        }
        match self.engine {
            Some(h) => {
                self.state = PlaybackState::Paused;
                Some(EngineAction::Pause(h))
            },
            None => None,
        }
    }

    /// Resumes playback. Only from `Paused`; from any other state nothing
    /// changes and `None` is returned.
    pub fn resume(&mut self) -> (r: Option<EngineAction>)
        requires
            old(self).wf(),
        ensures
            final(self).wf(),
            old(self).state is Paused ==> r == Some(EngineAction::Resume(old(self).engine->0))
                && *final(self) == (PlaybackSession { state: PlaybackState::Playing, ..*old(self) }),
            !(old(self).state is Paused) ==> r is None && *final(self) == *old(self),
    {
        if self.state != PlaybackState::Paused {
            return None;
        }
        match self.engine {
            Some(h) => {
                self.state = PlaybackState::Playing;
                Some(EngineAction::Resume(h))
            },
            None => None,
        }
    }

    /// Stops playback from any state but `Idle`: the engine instance, if
    /// any, is released and the session moves to `Stopped`. From `Idle`
    /// nothing changes and nothing is released.
    pub fn stop(&mut self) -> (r: Option<EngineAction>)
        requires
            old(self).wf(),
        ensures
            final(self).wf(),
            old(self).state is Idle ==> r is None && *final(self) == *old(self),
            !(old(self).state is Idle) ==> *final(self) == (PlaybackSession {
                state: PlaybackState::Stopped,
                engine: None,
                ..*old(self)
            }),
            !(old(self).state is Idle) ==> (match old(self).engine {
                Some(h) => r == Some(EngineAction::Release(h)),
                None => r is None,
            }),
    {
        if self.state == PlaybackState::Idle {
            return None;
        }
        let r = match self.engine {
            Some(h) => Some(EngineAction::Release(h)),
            None => None,
        };
        self.state = PlaybackState::Stopped;
        self.engine = None;
        r
    }
}

proof fn lemma_play_engine(s: PlaybackSession, st: Station)
    requires
        s.wf(),
    ensures
        at_most_one_live(live_handles(s), play_actions(s, st)),
        run_actions(live_handles(s), play_actions(s, st)) == set![s.next_handle],
{
    reveal_with_fuel(run_actions, 3);
    reveal_with_fuel(at_most_one_live, 3);
    let acts = play_actions(s, st);
    let acq = EngineAction::Acquire(s.next_handle, st.url_resolved);
    match s.engine {
        Some(h) => {
            let l0 = set![h];
            let l1 = apply_action(l0, acts[0]);
            assert(l1 =~= Set::<u64>::empty());
            assert(acts.drop_first() == seq![acq]);
            let l2 = apply_action(l1, acq);
            assert(l2 =~= set![s.next_handle]);
            assert(seq![acq].drop_first() == Seq::<EngineAction>::empty());
            assert(l0.len() == 1);
            assert(l2.len() == 1);
        },
        None => {
            let l0 = Set::<u64>::empty();
            let l1 = apply_action(l0, acq);
            assert(l1 =~= set![s.next_handle]);
            assert(acts.drop_first() == Seq::<EngineAction>::empty());
            assert(l1.len() == 1);
        },
    }
}

/// Playing one station and then another never holds two engine instances
/// live: the second request releases the first instance before it acquires
/// its own.
pub proof fn lemma_play_twice_one_live(s: PlaybackSession, a: Station, b: Station)
    requires
        s.wf(),
        s.next_handle + 2 < u64::MAX,
        playable(a),
        playable(b),
    ensures
        ({
            let s1 = play_next(s, a);
            let acts = play_actions(s1, b);
            &&& at_most_one_live(live_handles(s), play_actions(s, a))
            &&& at_most_one_live(live_handles(s1), acts)
            &&& acts.len() == 2
            &&& acts[0] == EngineAction::Release(s.next_handle)
            &&& acts[1] == EngineAction::Acquire((s.next_handle + 1) as u64, b.url_resolved)
        }),
{
    lemma_play_engine(s, a);
    let s1 = play_next(s, a);
    assert(s1.wf());
    lemma_play_engine(s1, b);
}

} // verus!

use vstd::prelude::*;
use crate::Message;
use crate::station::{Station, playable};
use crate::catalog::{
    CacheError, CatalogManager, FetchError, LoadOutcome, LoadStep, ensure_next, ensure_step,
    filtered, playable_only,
};
use crate::playback::{
    EngineAction, EngineReport, PlaybackError, PlaybackSession, PlaybackState, play_actions, play_next,
};
use crate::cache::{encode_catalog, enc_catalog};

verus! {

/// A request for a change of state, from the user interface or from
/// completed background work.
#[derive(Debug, PartialEq, Eq)]
pub enum Command {
    /// Make sure the catalog is loaded; `cache_present` tells whether a
    /// cache record exists.
    RequestFetch(bool),
    /// Load the catalog from the directory service again.
    RequestRefresh,
    RequestFilter(String),
    /// Play the station with this identifier.
    RequestPlay(String),
    RequestPause,
    RequestResume,
    RequestStop,
    /// A cache read for the load of this generation has completed.
    CacheRead(u64, Result<Vec<Station>, CacheError>),
    /// A directory call for the load of this generation has completed.
    FetchCompleted(u64, Result<Vec<Station>, FetchError>),
    /// How the acquisition of the engine instance under this handle went.
    PlaybackStatusChanged(u64, EngineReport),
}

/// A notification to the user interface.
#[derive(Debug, PartialEq, Eq)]
pub enum Event {
    CatalogLoading,
    CatalogLoaded(usize),
    CatalogFetchFailed(FetchError),
    FilterResult(Vec<Station>),
    PlaybackStateChanged(PlaybackState, Option<String>),
    PlaybackFailed(PlaybackError),
}

/// Work that the controller hands to background contexts.
#[derive(Debug, PartialEq, Eq)]
pub enum Effect {
    ReadCache(u64),
    Fetch(u64),
    /// Write this record to the cache, replacing what was there.
    WriteCache(Vec<u8>),
    Engine(EngineAction),
}

/// The single owner of the catalog and of the playback session.
pub struct Controller {
    pub catalog: CatalogManager,
    pub playback: PlaybackSession,
    pub query: String,
}

/// Index of the first station with identifier `id`.
pub open spec fn first_with_id(s: Seq<Station>, id: Seq<char>) -> Option<int> {
    if exists|i: int| 0 <= i < s.len() && (#[trigger] s[i]).stationuuid@ == id {
        Some(
            choose|i: int|
                0 <= i < s.len() && (#[trigger] s[i]).stationuuid@ == id && forall|j: int|
                    0 <= j < i ==> (#[trigger] s[j]).stationuuid@ != id,
        )
    } else {
        None
    }
}

/// Position of the first station of `stations` whose identifier is `id`.
pub fn find_station(stations: &Vec<Station>, id: &String) -> (r: Option<usize>)
    ensures
        match r {
            Some(i) => i < stations@.len() && stations@[i as int].stationuuid@ == id@ && forall|
                j: int,
            | 0 <= j < i ==> (#[trigger] stations@[j]).stationuuid@ != id@,
            None => forall|j: int|
                0 <= j < stations@.len() ==> (#[trigger] stations@[j]).stationuuid@ != id@,
        },
{
    let mut i: usize = 0;
    while i < stations.len()
        invariant
            i <= stations@.len(),
            forall|j: int| 0 <= j < i ==> (#[trigger] stations@[j]).stationuuid@ != id@,
        decreases stations@.len() - i,
    {
        if stations[i].stationuuid == *id {
            return Some(i);
        }
        i = i + 1;
    }
    None
}

/// The command that a user-interface message stands for. `query` is the
/// text of the search field, `selected` the identifier of the selected row,
/// `playing` whether playback runs now (the play button toggles),
/// `cache_present` whether a cache record exists.
pub fn command_for(
    msg: Message,
    query: &String,
    selected: Option<String>,
    playing: bool,
    cache_present: bool,
) -> (r: Option<Command>)
    ensures
        msg is FetchStations ==> r == Some(Command::RequestFetch(cache_present)),
        msg is FilterStations ==> r == Some(Command::RequestFilter(*query)),
        msg is StationsFetchedSuccess ==> r is None,
        msg is PlayRequest ==> (match selected {
            Some(id) => r == Some(Command::RequestPlay(id)),
            None => r is None,
        }),
        msg is PauseRequest && playing ==> r == Some(Command::RequestPause),
        msg is PauseRequest && !playing ==> r == Some(Command::RequestResume),
{
    match msg {
        Message::FetchStations => Some(Command::RequestFetch(cache_present)),
        Message::FilterStations => Some(Command::RequestFilter(query.clone())),
        Message::StationsFetchedSuccess => None,
        Message::PlayRequest => match selected {
            Some(id) => Some(Command::RequestPlay(id)),
            None => None,
        },
        Message::PauseRequest => if playing {
            Some(Command::RequestPause)
        } else {
            Some(Command::RequestResume)
        },
    }
}

impl Controller {
    pub open spec fn wf(&self) -> bool {
        self.catalog.wf() && self.playback.wf()
    }

    /// A controller with nothing loaded, an idle session and an empty query.
    pub fn new() -> (r: Self)
        ensures
            r.wf(),
            !r.catalog.loaded,
            r.playback.state == PlaybackState::Idle,
            r.playback.engine is None,
            r.catalog.generation == 0,
            r.catalog.in_flight is None,
            r.playback.next_handle == 0,
            r.query@.len() == 0,
    {
        Controller { catalog: CatalogManager::new(), playback: PlaybackSession::new(), query: String::new() }
    }

    /// The event that tells the catalog's current phase.
    fn catalog_status(&self) -> (r: Event)
        ensures
            self.catalog.loaded ==> r == Event::CatalogLoaded(self.catalog.stations@.len() as usize),
            !self.catalog.loaded ==> r == Event::CatalogLoading,
    {
        if self.catalog.loaded {
            Event::CatalogLoaded(self.catalog.stations.len())
        } else {
            Event::CatalogLoading
        }
    }

    /// The event that tells the session's current state.
    fn playback_status(&self) -> (r: Event)
        ensures
            r == Event::PlaybackStateChanged(
                self.playback.state,
                match self.playback.station {
                    Some(st) => Some(st.name),
                    None => None,
                },
            ),
    {
        let name = match &self.playback.station {
            Some(st) => Some(st.name.clone()),
            None => None,
        };
        Event::PlaybackStateChanged(self.playback.state, name)
    }

    /// Applies one command. Every command yields at least one event that
    /// tells the resulting state; the effects are the work to start.
    pub fn handle(&mut self, cmd: Command) -> (r: (Vec<Event>, Vec<Effect>))
        requires
            old(self).wf(),
            old(self).catalog.generation + 1 < u64::MAX,
            old(self).playback.next_handle + 2 < u64::MAX,
        ensures
            final(self).wf(),
            r.0@.len() >= 1,
            cmd is RequestFetch ==> final(self).catalog == ensure_next(
                old(self).catalog,
                cmd->RequestFetch_0,
            ) && final(self).playback == old(self).playback && (match ensure_step(
                old(self).catalog,
                cmd->RequestFetch_0,
            ) {
                LoadStep::ReadCache(g) => r.1@ == seq![Effect::ReadCache(g)],
                LoadStep::Fetch(g) => r.1@ == seq![Effect::Fetch(g)],
                _ => r.1@.len() == 0,
            }),
            cmd is RequestFilter ==> final(self).query == cmd->RequestFilter_0 && r.0@.len() == 1
                && (r.0@[0] matches Event::FilterResult(v) && v@ == filtered(
                old(self).catalog.stations@,
                cmd->RequestFilter_0@,
            )) && final(self).catalog == old(self).catalog && final(self).playback == old(self).playback,
            cmd is RequestPlay ==> final(self).catalog == old(self).catalog && (match first_with_id(
                old(self).catalog.stations@,
                cmd->RequestPlay_0@,
            ) {
                Some(i) => final(self).playback == play_next(
                    old(self).playback,
                    old(self).catalog.stations@[i],
                ) && (playable(old(self).catalog.stations@[i]) ==> r.1@ == play_actions(
                    old(self).playback,
                    old(self).catalog.stations@[i],
                ).map_values(|a: EngineAction| Effect::Engine(a))) && (!playable(
                    old(self).catalog.stations@[i],
                ) ==> r.1@.len() == 0 && r.0@ == seq![Event::PlaybackFailed(PlaybackError::Unplayable)]),
                None => final(self).playback == old(self).playback && r.1@.len() == 0,
            }),
            cmd is RequestPause || cmd is RequestResume || cmd is RequestStop ==> final(self).catalog == old(self).catalog,
            cmd is RequestPause && !(old(self).playback.state is Playing) ==> final(self).playback
                == old(self).playback && r.1@.len() == 0,
            cmd is RequestResume && !(old(self).playback.state is Paused) ==> final(self).playback
                == old(self).playback && r.1@.len() == 0,
            cmd is FetchCompleted && old(self).catalog.in_flight != Some(cmd->FetchCompleted_0)
                ==> final(self).catalog == old(self).catalog && r.1@.len() == 0,
            cmd is FetchCompleted && old(self).catalog.in_flight == Some(cmd->FetchCompleted_0)
                && cmd->FetchCompleted_1 is Ok ==> final(self).catalog.loaded && r.1@.len() == 1
                && (r.1@[0] matches Effect::WriteCache(b) && b@ == enc_catalog(
                final(self).catalog.stations@,
            )),
            cmd is CacheRead && old(self).catalog.in_flight != Some(cmd->CacheRead_0) ==> final(self).catalog == old(self).catalog && r.1@.len() == 0,            cmd is RequestRefresh ==> final(self).catalog.in_flight == Some(
                (old(self).catalog.generation + 1) as u64,
            ) && final(self).catalog.stations == old(self).catalog.stations && r.1@ == seq![
                Effect::Fetch((old(self).catalog.generation + 1) as u64),
            ] && r.0@ == seq![Event::CatalogLoading] && final(self).playback == old(self).playback,
            cmd is RequestPause && old(self).playback.state is Playing ==> final(self).playback
                == (PlaybackSession { state: PlaybackState::Paused, ..old(self).playback }) && r.1@
                == seq![Effect::Engine(EngineAction::Pause(old(self).playback.engine->0))],
            cmd is RequestResume && old(self).playback.state is Paused ==> final(self).playback
                == (PlaybackSession { state: PlaybackState::Playing, ..old(self).playback }) && r.1@
                == seq![Effect::Engine(EngineAction::Resume(old(self).playback.engine->0))],
            cmd is RequestStop && old(self).playback.state is Idle ==> final(self).playback == old(self).playback
                && r.1@.len() == 0,
            cmd is RequestStop && !(old(self).playback.state is Idle) ==> final(self).playback
                == (PlaybackSession {
                state: PlaybackState::Stopped,
                engine: None,
                ..old(self).playback
            }) && (match old(self).playback.engine {
                Some(h) => r.1@ == seq![Effect::Engine(EngineAction::Release(h))],
                None => r.1@.len() == 0,
            }),
            cmd is CacheRead && old(self).catalog.in_flight == Some(cmd->CacheRead_0)
                && cmd->CacheRead_1 is Ok ==> final(self).catalog.loaded && final(self).catalog.stations@
                == playable_only(cmd->CacheRead_1->Ok_0@) && r.1@.len() == 0,
            cmd is CacheRead && old(self).catalog.in_flight == Some(cmd->CacheRead_0)
                && cmd->CacheRead_1 is Err ==> final(self).catalog == old(self).catalog && r.1@
                == seq![Effect::Fetch(cmd->CacheRead_0)],
            cmd is FetchCompleted && old(self).catalog.in_flight == Some(cmd->FetchCompleted_0)
                && cmd->FetchCompleted_1 is Ok ==> final(self).catalog.stations@ == playable_only(
                cmd->FetchCompleted_1->Ok_0@,
            ),
            cmd is FetchCompleted && old(self).catalog.in_flight == Some(cmd->FetchCompleted_0)
                && cmd->FetchCompleted_1 is Err ==> r.1@.len() == 0 && r.0@ == seq![
                Event::CatalogFetchFailed(cmd->FetchCompleted_1->Err_0),
            ] && !final(self).catalog.loaded == !old(self).catalog.loaded,
            cmd is CacheRead || cmd is FetchCompleted || cmd is RequestFetch || cmd is RequestRefresh
                ==> final(self).playback == old(self).playback,
            cmd is PlaybackStatusChanged ==> final(self).catalog == old(self).catalog,
            cmd is PlaybackStatusChanged && !(old(self).playback.state is Loading
                && old(self).playback.engine == Some(cmd->PlaybackStatusChanged_0)) ==> final(self).playback == old(self).playback && r.1@.len() == 0,

    {
        let mut events: Vec<Event> = Vec::new();
        let mut effects: Vec<Effect> = Vec::new();
        match cmd {
            Command::RequestFetch(cache_present) => {
                let step = self.catalog.ensure_loaded(cache_present);
                match step {
                    LoadStep::ReadCache(g) => effects.push(Effect::ReadCache(g)),
                    LoadStep::Fetch(g) => effects.push(Effect::Fetch(g)),
                    _ => {},
                }
                events.push(self.catalog_status());
            },
            Command::RequestRefresh => {
                let step = self.catalog.refresh();
                match step {
                    LoadStep::Fetch(g) => effects.push(Effect::Fetch(g)),
                    _ => {},
                }
                events.push(Event::CatalogLoading);
            },
            Command::RequestFilter(q) => {
                let found = self.catalog.filter(q.as_str());
                self.query = q;
                events.push(Event::FilterResult(found));
            },
            Command::RequestPlay(id) => {
                match find_station(&self.catalog.stations, &id) {
                    Some(i) => {
                        proof {
                            let s = old(self).catalog.stations@;
                            assert(exists|k: int|
                                0 <= k < s.len() && (#[trigger] s[k]).stationuuid@ == id@) by {
                                assert(s[i as int].stationuuid@ == id@);
                            }
                            let c = first_with_id(s, id@)->0;
                            if c < i {
                                assert(s[c].stationuuid@ != id@);
                            }
                            if i < c {
                                assert(s[i as int].stationuuid@ != id@);
                            }
                            assert(c == i);
                        }
                        match self.playback.play(&self.catalog.stations[i]) {
                            Ok(acts) => {
                                push_engine_actions(&mut effects, &acts);
                                proof {
                                    assert(effects@ =~= acts@.map_values(
                                        |a: EngineAction| Effect::Engine(a),
                                    ));
                                }
                                events.push(self.playback_status());
                            },
                            Err(e) => {
                                events.push(Event::PlaybackFailed(e));
                                proof {
                                    assert(events@ =~= seq![Event::PlaybackFailed(PlaybackError::Unplayable)]);
                                }
                            },
                        }
                    },
                    None => {
                        events.push(self.playback_status());
                    },
                }
            },
            Command::RequestPause => {
                match self.playback.pause() {
                    Some(a) => effects.push(Effect::Engine(a)),
                    None => {},
                }
                events.push(self.playback_status());
            },
            Command::RequestResume => {
                match self.playback.resume() {
                    Some(a) => effects.push(Effect::Engine(a)),
                    None => {},
                }
                events.push(self.playback_status());
            },
            Command::RequestStop => {
                match self.playback.stop() {
                    Some(a) => effects.push(Effect::Engine(a)),
                    None => {},
                }
                events.push(self.playback_status());
            },
            Command::CacheRead(g, result) => {
                match self.catalog.cache_loaded(g, result) {
                    LoadOutcome::FetchInstead(g2) => {
                        effects.push(Effect::Fetch(g2));
                        events.push(Event::CatalogLoading);
                    },
                    LoadOutcome::Loaded(_) => {
                        events.push(self.catalog_status());
                        events.push(Event::FilterResult(self.catalog.filter(self.query.as_str())));
                    },
                    _ => {
                        events.push(self.catalog_status());
                    },
                }
            },
            Command::FetchCompleted(g, result) => {
                match self.catalog.fetch_completed(g, result) {
                    LoadOutcome::Loaded(_) => {
                        effects.push(Effect::WriteCache(encode_catalog(&self.catalog.stations)));
                        events.push(self.catalog_status());
                        events.push(Event::FilterResult(self.catalog.filter(self.query.as_str())));
                    },
                    LoadOutcome::Failed(e) => {
                        events.push(Event::CatalogFetchFailed(e));
                    },
                    _ => {
                        events.push(self.catalog_status());
                    },
                }
            },
            Command::PlaybackStatusChanged(h, report) => {
                match self.playback.engine_report(h, report) {
                    Some(Err(e)) => events.push(Event::PlaybackFailed(e)),
                    _ => events.push(self.playback_status()),
                }
            },
        }
        (events, effects)
    }
}

/// Appends each engine action, in order, as an effect.
fn push_engine_actions(effects: &mut Vec<Effect>, acts: &Vec<EngineAction>)
    ensures
        final(effects)@ == old(effects)@ + acts@.map_values(|a: EngineAction| Effect::Engine(a)),
{
    let ghost start = effects@;
    let mut k: usize = 0;
    while k < acts.len()
        invariant
            k <= acts@.len(),
            effects@ == start + acts@.subrange(0, k as int).map_values(
                |a: EngineAction| Effect::Engine(a),
            ),
        decreases acts@.len() - k,
    {
        effects.push(Effect::Engine(acts[k].clone()));
        proof {
            assert(acts@.subrange(0, k + 1).map_values(|a: EngineAction| Effect::Engine(a))
                =~= acts@.subrange(0, k as int).map_values(|a: EngineAction| Effect::Engine(a)).push(
                Effect::Engine(acts@[k as int]),
            ));
        }
        k = k + 1;
    }
    proof {
        assert(acts@.subrange(0, acts@.len() as int) =~= acts@);
    }
}

} // verus!

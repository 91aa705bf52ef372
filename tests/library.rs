use radio_station::cache::{decode_catalog, encode_catalog, FORMAT_VERSION};
use radio_station::catalog::{
    filter_stations, retain_playable, CacheError, CatalogManager, FetchError, LoadOutcome,
    LoadStep,
};
use radio_station::controller::{command_for, find_station, Command, Controller, Effect, Event};
use radio_station::playback::{
    EngineAction, EngineReport, PlaybackError, PlaybackSession, PlaybackState,
};
use radio_station::station::{format_station, Station};
use radio_station::Message;

fn station(id: &str, name: &str, tags: &str, url: &str) -> Station {
    Station {
        stationuuid: id.to_string(),
        changeuuid: format!("c-{}", id),
        name: name.to_string(),
        url: url.to_string(),
        url_resolved: url.to_string(),
        homepage: String::new(),
        favicon: String::new(),
        tags: tags.to_string(),
        country: "Germany".to_string(),
        countrycode: "DE".to_string(),
        state: "Bavaria".to_string(),
        language: "german".to_string(),
        codec: "MP3".to_string(),
        bitrate: 128,
        votes: 7,
        clickcount: 42,
        has_extended_info: false,
        last_change_time: "2024-01-02T03:04:05Z".to_string(),
        last_check_time: String::new(),
    }
}

fn five_stations() -> Vec<Station> {
    vec![
        station("a", "Rock Antenne", "rock,classic rock", "http://a.example/s"),
        station("b", "Smooth Radio", "jazz,smooth", "http://b.example/s"),
        station("c", "News 24", "news,talk", "http://c.example/s"),
        station("d", "Blue Note", "jazz", "http://d.example/s"),
        station("e", "Pop Hits", "pop", "http://e.example/s"),
    ]
}

fn ids(v: &[Station]) -> Vec<String> {
    v.iter().map(|s| s.stationuuid.clone()).collect()
}

#[test]
fn format_station_lowercases_and_trims_name() {
    let s = station("x", "  Jazz FM ", "jazz,smooth", "http://x.example/s");
    assert_eq!(format_station(&s), "jazz fm|Bavaria|Germany|jazz,smooth");
}

#[test]
fn format_station_falls_back_to_resolved_url() {
    let s = station("x", "", "", "HTTP://X.Example/Stream ");
    assert_eq!(format_station(&s), "http://x.example/stream|Bavaria|Germany|");
}

#[test]
fn playable_needs_resolved_url() {
    assert!(station("x", "n", "", "http://x").is_playable());
    assert!(!station("x", "n", "", "").is_playable());
}

#[test]
fn filter_jazz_returns_the_two_in_order() {
    let all = five_stations();
    let r = filter_stations(&all, "jazz");
    assert_eq!(ids(&r), vec!["b", "d"]);
}

#[test]
fn filter_empty_query_returns_everything() {
    let all = five_stations();
    let r = filter_stations(&all, "");
    assert_eq!(r, all);
}

#[test]
fn filter_matches_name_verbatim_and_case_sensitive() {
    let all = five_stations();
    assert_eq!(ids(&filter_stations(&all, "News")), vec!["c"]);
    assert!(filter_stations(&all, "news 24").is_empty());
    assert!(filter_stations(&all, "zzz").is_empty());
}

#[test]
fn filter_on_nothing_loaded_is_empty() {
    let m = CatalogManager::new();
    assert!(m.filter("jazz").is_empty());
}

#[test]
fn retain_playable_drops_empty_urls() {
    let v = vec![station("a", "A", "", "http://a"), station("b", "B", "", "")];
    assert_eq!(ids(&retain_playable(&v)), vec!["a"]);
}

#[test]
fn cache_round_trip_keeps_every_field() {
    let mut all = five_stations();
    all[1].has_extended_info = true;
    all[2].votes = u32::MAX;
    all[3].name = "Blå Nöte ♪".to_string();
    let bytes = encode_catalog(&all);
    assert_eq!(bytes[0], FORMAT_VERSION);
    let back = decode_catalog(&bytes).unwrap();
    assert_eq!(back, all);
    assert_eq!(encode_catalog(&back), bytes);
}

#[test]
fn cache_round_trip_empty_list() {
    let bytes = encode_catalog(&Vec::new());
    assert_eq!(bytes, vec![FORMAT_VERSION]);
    assert_eq!(decode_catalog(&bytes).unwrap(), Vec::<Station>::new());
}

#[test]
fn cache_rejects_corrupt_records() {
    assert_eq!(decode_catalog(&vec![]), Err(CacheError::Corrupt));
    assert_eq!(decode_catalog(&vec![9]), Err(CacheError::Corrupt));
    let bytes = encode_catalog(&five_stations());
    let truncated = bytes[..bytes.len() - 1].to_vec();
    assert_eq!(decode_catalog(&truncated), Err(CacheError::Corrupt));
    let bad_utf8 = vec![FORMAT_VERSION, 0, 1, 0, 0, 0, 0, 0, 0, 0, 0xff];
    assert_eq!(decode_catalog(&bad_utf8), Err(CacheError::Corrupt));
    let one_text = vec![FORMAT_VERSION, 0, 1, 0, 0, 0, 0, 0, 0, 0, b'a'];
    assert_eq!(decode_catalog(&one_text), Err(CacheError::Corrupt));
}

#[test]
fn ensure_loaded_twice_starts_one_fetch() {
    let mut m = CatalogManager::new();
    let first = m.ensure_loaded(false);
    let second = m.ensure_loaded(false);
    assert_eq!(first, LoadStep::Fetch(1));
    assert_eq!(second, LoadStep::AwaitInFlight);
    let out = m.fetch_completed(1, Ok(five_stations()));
    assert_eq!(out, LoadOutcome::Loaded(5));
    assert_eq!(m.fetch_completed(1, Ok(five_stations())), LoadOutcome::Stale);
    assert_eq!(m.ensure_loaded(true), LoadStep::Ready);
}

#[test]
fn fetch_then_restart_loads_same_three_from_cache() {
    let three = vec![
        station("a", "A", "x", "http://a"),
        station("b", "B", "y", "http://b"),
        station("c", "C", "z", "http://c"),
    ];
    let mut ctl = Controller::new();
    let (events, effects) = ctl.handle(Command::RequestFetch(false));
    assert!(matches!(events[0], Event::CatalogLoading));
    let g = match effects[0] {
        Effect::Fetch(g) => g,
        _ => panic!("expected a fetch"),
    };
    let (events, effects) = ctl.handle(Command::FetchCompleted(g, Ok(three.clone())));
    assert!(matches!(events[0], Event::CatalogLoaded(3)));
    let record = match &effects[0] {
        Effect::WriteCache(b) => b.clone(),
        _ => panic!("expected a cache write"),
    };
    let mut restarted = Controller::new();
    let (_, effects) = restarted.handle(Command::RequestFetch(true));
    let g2 = match effects[0] {
        Effect::ReadCache(g) => g,
        _ => panic!("expected a cache read"),
    };
    let loaded = decode_catalog(&record);
    let (events, effects) = restarted.handle(Command::CacheRead(g2, loaded));
    assert!(effects.is_empty());
    assert!(matches!(events[0], Event::CatalogLoaded(3)));
    assert_eq!(restarted.catalog.stations, three);
}

#[test]
fn cache_miss_falls_back_to_fetch() {
    let mut m = CatalogManager::new();
    assert_eq!(m.ensure_loaded(true), LoadStep::ReadCache(1));
    assert_eq!(m.cache_loaded(1, Err(CacheError::NotFound)), LoadOutcome::FetchInstead(1));
    assert_eq!(m.fetch_completed(1, Ok(vec![])), LoadOutcome::Loaded(0));
    assert!(m.loaded);
}

#[test]
fn refresh_discards_stale_completion() {
    let mut m = CatalogManager::new();
    assert_eq!(m.ensure_loaded(false), LoadStep::Fetch(1));
    assert_eq!(m.refresh(), LoadStep::Fetch(2));
    assert_eq!(m.fetch_completed(1, Ok(five_stations())), LoadOutcome::Stale);
    assert!(!m.loaded);
    assert_eq!(m.fetch_completed(2, Err(FetchError::NetworkFailure)), LoadOutcome::Failed(FetchError::NetworkFailure));
    assert_eq!(m.in_flight, None);
}

#[test]
fn play_twice_releases_first_handle_before_acquiring() {
    let a = station("a", "A", "", "http://a");
    let b = station("b", "B", "", "http://b");
    let mut s = PlaybackSession::new();
    let acts = s.play(&a).unwrap();
    assert_eq!(acts, vec![EngineAction::Acquire(0, "http://a".to_string())]);
    let acts = s.play(&b).unwrap();
    assert_eq!(
        acts,
        vec![EngineAction::Release(0), EngineAction::Acquire(1, "http://b".to_string())]
    );
    assert_eq!(s.engine, Some(1));
    assert_eq!(s.state, PlaybackState::Loading);
}

#[test]
fn pause_from_idle_and_resume_from_playing_do_nothing() {
    let mut s = PlaybackSession::new();
    assert_eq!(s.pause(), None);
    assert_eq!(s.state, PlaybackState::Idle);
    s.play(&station("a", "A", "", "http://a")).unwrap();
    assert_eq!(s.engine_report(0, EngineReport::Started), Some(Ok(PlaybackState::Playing)));
    assert_eq!(s.resume(), None);
    assert_eq!(s.state, PlaybackState::Playing);
    assert_eq!(s.pause(), Some(EngineAction::Pause(0)));
    assert_eq!(s.state, PlaybackState::Paused);
    assert_eq!(s.resume(), Some(EngineAction::Resume(0)));
    assert_eq!(s.state, PlaybackState::Playing);
}

#[test]
fn play_unplayable_keeps_state_and_acquires_nothing() {
    let mut s = PlaybackSession::new();
    s.play(&station("a", "A", "", "http://a")).unwrap();
    let before = (s.state, s.engine, s.next_handle);
    assert_eq!(s.play(&station("b", "B", "", "")), Err(PlaybackError::Unplayable));
    assert_eq!((s.state, s.engine, s.next_handle), before);
    assert_eq!(s.station.as_ref().map(|x| x.stationuuid.clone()), Some("a".to_string()));
}

#[test]
fn engine_failure_then_new_play_is_accepted() {
    let mut s = PlaybackSession::new();
    s.play(&station("a", "A", "", "http://a")).unwrap();
    assert_eq!(s.engine_report(7, EngineReport::Started), None);
    assert_eq!(s.engine_report(0, EngineReport::StartFailed), Some(Err(PlaybackError::EngineStartFailed)));
    assert_eq!(s.state, PlaybackState::Failed);
    assert_eq!(s.engine, None);
    let acts = s.play(&station("b", "B", "", "http://b")).unwrap();
    assert_eq!(acts, vec![EngineAction::Acquire(1, "http://b".to_string())]);
    assert_eq!(
        s.engine_report(1, EngineReport::AcquireFailed),
        Some(Err(PlaybackError::EngineAcquireFailed))
    );
    assert_eq!(s.state, PlaybackState::Failed);
}

#[test]
fn stop_releases_engine_and_idle_stop_does_nothing() {
    let mut s = PlaybackSession::new();
    assert_eq!(s.stop(), None);
    assert_eq!(s.state, PlaybackState::Idle);
    s.play(&station("a", "A", "", "http://a")).unwrap();
    assert_eq!(s.stop(), Some(EngineAction::Release(0)));
    assert_eq!(s.state, PlaybackState::Stopped);
    assert_eq!(s.engine, None);
}

#[test]
fn controller_plays_by_identifier() {
    let mut ctl = Controller::new();
    let (_, effects) = ctl.handle(Command::RequestFetch(false));
    let g = match effects[0] {
        Effect::Fetch(g) => g,
        _ => panic!("expected a fetch"),
    };
    let mut list = five_stations();
    list.push(station("z", "Silent", "", ""));
    ctl.handle(Command::FetchCompleted(g, Ok(list)));
    assert_eq!(ctl.catalog.stations.len(), 5);
    let (events, effects) = ctl.handle(Command::RequestPlay("d".to_string()));
    assert_eq!(
        effects,
        vec![Effect::Engine(EngineAction::Acquire(0, "http://d.example/s".to_string()))]
    );
    assert_eq!(
        events,
        vec![Event::PlaybackStateChanged(PlaybackState::Loading, Some("Blue Note".to_string()))]
    );
    let (events, effects) = ctl.handle(Command::RequestPlay("nope".to_string()));
    assert!(effects.is_empty());
    assert_eq!(events.len(), 1);
    let (events, _) = ctl.handle(Command::PlaybackStatusChanged(0, EngineReport::Started));
    assert_eq!(
        events,
        vec![Event::PlaybackStateChanged(PlaybackState::Playing, Some("Blue Note".to_string()))]
    );
}

#[test]
fn controller_filter_and_failures_always_answer() {
    let mut ctl = Controller::new();
    let (events, _) = ctl.handle(Command::RequestFilter("jazz".to_string()));
    assert_eq!(events, vec![Event::FilterResult(vec![])]);
    let (events, _) = ctl.handle(Command::RequestPause);
    assert_eq!(events, vec![Event::PlaybackStateChanged(PlaybackState::Idle, None)]);
    let (_, effects) = ctl.handle(Command::RequestRefresh);
    let g = match effects[0] {
        Effect::Fetch(g) => g,
        _ => panic!("expected a fetch"),
    };
    let (events, effects) = ctl.handle(Command::FetchCompleted(g, Err(FetchError::ServiceError)));
    assert!(effects.is_empty());
    assert_eq!(events, vec![Event::CatalogFetchFailed(FetchError::ServiceError)]);
    let (events, _) = ctl.handle(Command::FetchCompleted(g, Ok(five_stations())));
    assert_eq!(events, vec![Event::CatalogLoading]);
}

#[test]
fn controller_empty_catalog_is_a_count_of_zero() {
    let mut ctl = Controller::new();
    let (_, effects) = ctl.handle(Command::RequestFetch(false));
    let g = match effects[0] {
        Effect::Fetch(g) => g,
        _ => panic!("expected a fetch"),
    };
    let (events, effects) = ctl.handle(Command::FetchCompleted(g, Ok(vec![])));
    assert_eq!(events[0], Event::CatalogLoaded(0));
    assert_eq!(effects, vec![Effect::WriteCache(vec![FORMAT_VERSION])]);
}

#[test]
fn find_station_returns_first_match() {
    let mut all = five_stations();
    all.push(station("b", "Second B", "", "http://b2"));
    assert_eq!(find_station(&all, &"b".to_string()), Some(1));
    assert_eq!(find_station(&all, &"q".to_string()), None);
}

#[test]
fn messages_map_to_commands() {
    let q = "jazz".to_string();
    assert_eq!(command_for(Message::FilterStations, &q, None, false, false), Some(Command::RequestFilter(q.clone())));
    assert_eq!(command_for(Message::StationsFetchedSuccess, &q, None, false, false), None);
    assert_eq!(command_for(Message::PlayRequest, &q, Some("a".to_string()), false, false), Some(Command::RequestPlay("a".to_string())));
    assert_eq!(command_for(Message::PlayRequest, &q, None, false, false), None);
    assert_eq!(command_for(Message::PauseRequest, &q, None, true, false), Some(Command::RequestPause));
    assert_eq!(command_for(Message::PauseRequest, &q, None, false, false), Some(Command::RequestResume));
    assert_eq!(command_for(Message::FetchStations, &q, None, false, true), Some(Command::RequestFetch(true)));
}

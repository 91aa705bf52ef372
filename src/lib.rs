use vstd::prelude::*;

pub mod station;
pub mod catalog;
pub mod playback;
pub mod cache;
pub mod controller;

verus! {

/// Messages that the user interface sends to the application loop.
#[derive(Debug, Clone, Copy, PartialEq, Eq, Structural)]
pub enum Message {
    FetchStations,
    StationsFetchedSuccess,
    FilterStations,
    PlayRequest,
    PauseRequest,
}

} // verus!

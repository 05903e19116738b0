//! Domain events delivered to the consumer, and their mathematical models.

use vstd::prelude::*;

verus! {

/// A player handle: a free-form alias and an 8-bit region/gateway id.
#[derive(Debug)]
pub struct Player {
    pub alias: String,
    pub gateway: u8,
}

impl View for Player {
    type V = (Seq<char>, u8);

    open spec fn view(&self) -> (Seq<char>, u8) {
        (self.alias@, self.gateway)
    }
}

impl Clone for Player {
    fn clone(&self) -> (r: Self)
        ensures
            r@ == self@,
    {
        Player { alias: self.alias.clone(), gateway: self.gateway }
    }
}

/// The model of a domain event: every owned string is replaced by its
/// character sequence.
pub enum ScrEventModel {
    WebServerRunning { port: u16 },
    WebServerDown,
    ProfileSelect { alias: Seq<char>, gateway: u8 },
    MatchFound { player1: (Seq<char>, u8), player2: (Seq<char>, u8), map: Seq<char> },
    GameEnded,
}

/// SCR events from multiple sources: the process/port watcher reports the
/// local API service level (`WebServerRunning` / `WebServerDown`); the
/// cache-driven deriver reports gameplay events.
#[derive(Debug)]
pub enum ScrEvent {
    WebServerRunning { port: u16 },
    WebServerDown,
    ProfileSelect { alias: String, gateway: u8 },
    MatchFound { player1: Player, player2: Player, map: String },
    GameEnded,
}

impl View for ScrEvent {
    type V = ScrEventModel;

    open spec fn view(&self) -> ScrEventModel {
        match self {
            ScrEvent::WebServerRunning { port } => ScrEventModel::WebServerRunning { port: *port },
            ScrEvent::WebServerDown => ScrEventModel::WebServerDown,
            ScrEvent::ProfileSelect { alias, gateway } => ScrEventModel::ProfileSelect {
                alias: alias@,
                gateway: *gateway,
            },
            ScrEvent::MatchFound { player1, player2, map } => ScrEventModel::MatchFound {
                player1: player1@,
                player2: player2@,
                map: map@,
            },
            ScrEvent::GameEnded => ScrEventModel::GameEnded,
        }
    }
}

impl Clone for ScrEvent {
    fn clone(&self) -> (r: Self)
        ensures
            r@ == self@,
    {
        match self {
            ScrEvent::WebServerRunning { port } => ScrEvent::WebServerRunning { port: *port },
            ScrEvent::WebServerDown => ScrEvent::WebServerDown,
            ScrEvent::ProfileSelect { alias, gateway } => ScrEvent::ProfileSelect {
                alias: alias.clone(),
                gateway: *gateway,
            },
            ScrEvent::MatchFound { player1, player2, map } => ScrEvent::MatchFound {
                player1: player1.clone(),
                player2: player2.clone(),
                map: map.clone(),
            },
            ScrEvent::GameEnded => ScrEvent::GameEnded,
        }
    }
}

/// The model of an optional event.
pub open spec fn opt_event_model(e: Option<ScrEvent>) -> Option<ScrEventModel> {
    match e {
        Some(ev) => Some(ev@),
        None => None,
    }
}

} // verus!

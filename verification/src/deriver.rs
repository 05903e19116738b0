//! The event deriver: a stateful, bounded sliding-window pattern matcher
//! that turns the chronological stream of classified requests into domain
//! events.
//!
//! Clearing the window whenever an event is derived delimits episodes, so
//! stale context from a finished match cannot falsely trigger the next
//! match's pattern. The 30/5-entry lookback bounds are tuned to the
//! density of the game client's request bursts; they are configuration
//! constants, not analytically derived.

use vstd::prelude::*;
use crate::classify::ReqModel;
use crate::classify::ScrNetworkRequest;
use crate::scr_events::opt_event_model;
use crate::scr_events::Player;
use crate::scr_events::ScrEvent;
use crate::scr_events::ScrEventModel;
use crate::strutil::opt_str_view;
use crate::strutil::str_eq;

verus! {

/// Window capacity: how many recent requests are kept as pattern context.
pub const WINDOW_CAPACITY: usize = 30;

/// How far back the chat-panel pattern looks for a leaderboard request.
pub const CHAT_LOOKBACK: usize = 5;

/// The hash of the newest map-preview request in `w`, if any.
pub open spec fn newest_map_preview(w: Seq<ReqModel>) -> Option<Seq<char>>
    decreases w.len(),
{
    if w.len() == 0 {
        None
    } else {
        match w.last() {
            ReqModel::MapPreview { hash } => Some(hash),
            _ => newest_map_preview(w.drop_last()),
        }
    }
}

/// The newest game-loading profile in `w` naming a player other than
/// `(alias, gateway)`, if any.
pub open spec fn newest_other_profile(w: Seq<ReqModel>, alias: Seq<char>, gateway: u8) -> Option<
    (Seq<char>, u8),
>
    decreases w.len(),
{
    if w.len() == 0 {
        None
    } else {
        match w.last() {
            ReqModel::GameLoadingProfile { alias: a2, gateway: g2 } => {
                if a2 != alias || g2 != gateway {
                    Some((a2, g2))
                } else {
                    newest_other_profile(w.drop_last(), alias, gateway)
                }
            },
            _ => newest_other_profile(w.drop_last(), alias, gateway),
        }
    }
}

/// The newest leaderboard-by-toon request in `w`, if any.
pub open spec fn newest_leaderboard(w: Seq<ReqModel>) -> Option<(Seq<char>, u8)>
    decreases w.len(),
{
    if w.len() == 0 {
        None
    } else {
        match w.last() {
            ReqModel::LeaderboardByToon { alias, gateway } => Some((alias, gateway)),
            _ => newest_leaderboard(w.drop_last()),
        }
    }
}

/// The most recent `CHAT_LOOKBACK` entries of the window.
pub open spec fn chat_context(w: Seq<ReqModel>) -> Seq<ReqModel> {
    if w.len() <= CHAT_LOOKBACK {
        w
    } else {
        w.skip(w.len() - CHAT_LOOKBACK as int)
    }
}

/// The event derived by feeding `r` to a deriver whose window is `w`:
/// a game-loading profile completes a match when the window still holds
/// a map preview and a different player's game-loading profile; a chat
/// panel selects the profile of the newest leaderboard request among the
/// last `CHAT_LOOKBACK` entries; a toast panel unconditionally ends the
/// game; every other category derives nothing.
pub open spec fn derived_event(w: Seq<ReqModel>, r: ReqModel) -> Option<ScrEventModel> {
    match r {
        ReqModel::GameLoadingProfile { alias, gateway } => {
            match (newest_map_preview(w), newest_other_profile(w, alias, gateway)) {
                (Some(h), Some(p2)) => Some(
                    ScrEventModel::MatchFound { player1: (alias, gateway), player2: p2, map: h },
                ),
                _ => None,
            }
        },
        ReqModel::ChatPanel { .. } => {
            match newest_leaderboard(chat_context(w)) {
                Some(p) => Some(ScrEventModel::ProfileSelect { alias: p.0, gateway: p.1 }),
                None => None,
            }
        },
        ReqModel::ToastPanel { .. } => Some(ScrEventModel::GameEnded),
        _ => None,
    }
}

/// The window after feeding `r`: empty if an event was derived (the
/// triggering request is discarded with the rest of the episode);
/// otherwise `r` is appended and the oldest entry is evicted if the
/// capacity is exceeded.
pub open spec fn window_after(w: Seq<ReqModel>, r: ReqModel) -> Seq<ReqModel> {
    if derived_event(w, r) is Some {
        Seq::<ReqModel>::empty()
    } else {
        let w2 = w.push(r);
        if w2.len() > WINDOW_CAPACITY {
            w2.drop_first()
        } else {
            w2
        }
    }
}

/// No-op categories derive nothing: feeding a toon-info, leaderboard,
/// game-loading panel, map-preview, unknown or unparsable request never
/// produces an event, and changes the window only by appending the
/// request as context (evicting the oldest entry when full).
pub proof fn lemma_noop_categories(w: Seq<ReqModel>, r: ReqModel)
    requires
        r is Tooninfo || r is LeaderboardByToon || r is GameLoading || r is MapPreview
            || r is Unknown || r is Unparsable,
    ensures
        derived_event(w, r) is None,
        window_after(w, r) == if w.len() + 1 > WINDOW_CAPACITY {
            w.push(r).drop_first()
        } else {
            w.push(r)
        },
{
}

/// A toast panel derives a game-ended event unconditionally, whatever
/// the window holds, and clears it.
pub proof fn lemma_toast_always_derives(w: Seq<ReqModel>, r: ReqModel)
    requires
        r is ToastPanel,
    ensures
        derived_event(w, r) == Some(ScrEventModel::GameEnded),
        window_after(w, r) == Seq::<ReqModel>::empty(),
{
}

/// The window is bounded: feeding any request to a window within
/// capacity leaves it within capacity.
pub proof fn lemma_window_bounded(w: Seq<ReqModel>, r: ReqModel)
    requires
        w.len() <= WINDOW_CAPACITY,
    ensures
        window_after(w, r).len() <= WINDOW_CAPACITY,
{
}

/// Episode reset: immediately after any derived event the window is
/// empty, so the triggering request is absent from it too.
pub proof fn lemma_episode_reset(w: Seq<ReqModel>, r: ReqModel)
    requires
        derived_event(w, r) is Some,
    ensures
        window_after(w, r) == Seq::<ReqModel>::empty(),
        !window_after(w, r).contains(r),
{
}

/// The event deriver. Feed it each new classified request, in the
/// chronological order produced by the cache watcher; it returns at most
/// one domain event per request.
pub struct ScrEventDeriver {
    pub window: Vec<ScrNetworkRequest>,
}

impl ScrEventDeriver {
    /// The model of the window: oldest entry first.
    pub open spec fn window_model(&self) -> Seq<ReqModel> {
        self.window@.map_values(|r: ScrNetworkRequest| r@)
    }

    /// The window never exceeds its capacity.
    pub open spec fn inv(&self) -> bool {
        self.window@.len() <= WINDOW_CAPACITY
    }

    /// A fresh deriver with an empty window.
    pub fn new() -> (d: Self)
        ensures
            d.window_model() == Seq::<ReqModel>::empty(),
            d.inv(),
    {
        let d = ScrEventDeriver { window: Vec::new() };
        proof {
            assert(d.window_model() =~= Seq::<ReqModel>::empty());
        }
        d
    }

    /// Scan the window newest-first for a map preview.
    fn scan_map_preview(&self) -> (r: Option<String>)
        ensures
            opt_str_view(r) == newest_map_preview(self.window_model()),
    {
        let ghost wm = self.window_model();
        let n = self.window.len();
        proof {
            assert(wm.take(n as int) =~= wm);
        }
        let mut i = n;
        while i > 0
            invariant
                i <= n,
                n == self.window@.len(),
                wm == self.window_model(),
                newest_map_preview(wm) == newest_map_preview(wm.take(i as int)),
            decreases i,
        {
            i = i - 1;
            proof {
                assert(wm.take(i + 1).drop_last() =~= wm.take(i as int));
                assert(wm.take(i + 1).last() == wm[i as int]);
            }
            match &self.window[i] {
                ScrNetworkRequest::MapPreview { hash } => {
                    return Some(hash.clone());
                },
                _ => {},
            }
        }
        proof {
            assert(wm.take(0) =~= Seq::<ReqModel>::empty());
        }
        None
    }

    /// Scan the window newest-first for a game-loading profile of a
    /// player other than `(alias, gateway)`.
    fn scan_other_profile(&self, alias: &String, gateway: u8) -> (r: Option<Player>)
        ensures
            match r {
                Some(p) => newest_other_profile(self.window_model(), alias@, gateway) == Some(p@),
                None => newest_other_profile(self.window_model(), alias@, gateway) is None,
            },
    {
        let ghost wm = self.window_model();
        let n = self.window.len();
        proof {
            assert(wm.take(n as int) =~= wm);
        }
        let mut i = n;
        while i > 0
            invariant
                i <= n,
                n == self.window@.len(),
                wm == self.window_model(),
                newest_other_profile(wm, alias@, gateway) == newest_other_profile(
                    wm.take(i as int),
                    alias@,
                    gateway,
                ),
            decreases i,
        {
            i = i - 1;
            proof {
                assert(wm.take(i + 1).drop_last() =~= wm.take(i as int));
                assert(wm.take(i + 1).last() == wm[i as int]);
            }
            match &self.window[i] {
                ScrNetworkRequest::GameLoadingProfile { alias: a2, gateway: g2 } => {
                    if !(str_eq(a2.as_str(), alias.as_str()) && *g2 == gateway) {
                        return Some(Player { alias: a2.clone(), gateway: *g2 });
                    }
                },
                _ => {},
            }
        }
        proof {
            assert(wm.take(0) =~= Seq::<ReqModel>::empty());
        }
        None
    }

    /// Scan the most recent `CHAT_LOOKBACK` window entries newest-first
    /// for a leaderboard-by-toon request.
    fn scan_leaderboard(&self) -> (r: Option<Player>)
        ensures
            match r {
                Some(p) => newest_leaderboard(chat_context(self.window_model())) == Some(p@),
                None => newest_leaderboard(chat_context(self.window_model())) is None,
            },
    {
        let ghost wm = self.window_model();
        let n = self.window.len();
        let stop = if n > CHAT_LOOKBACK {
            n - CHAT_LOOKBACK
        } else {
            0
        };
        let ghost cc = chat_context(wm);
        proof {
            assert(cc =~= wm.skip(stop as int));
            assert(cc.take(n - stop) =~= cc);
        }
        let mut i = n;
        while i > stop
            invariant
                stop <= i <= n,
                n == self.window@.len(),
                stop == if n > CHAT_LOOKBACK { (n - CHAT_LOOKBACK) as int } else { 0int },
                wm == self.window_model(),
                cc == chat_context(wm),
                cc =~= wm.skip(stop as int),
                newest_leaderboard(cc) == newest_leaderboard(cc.take(i - stop)),
            decreases i,
        {
            i = i - 1;
            proof {
                assert(cc.take(i - stop + 1).drop_last() =~= cc.take(i - stop));
                assert(cc.take(i - stop + 1).last() == cc[i - stop]);
                assert(cc[i - stop] == wm[i as int]);
            }
            match &self.window[i] {
                ScrNetworkRequest::LeaderboardByToon { alias, gateway } => {
                    return Some(Player { alias: alias.clone(), gateway: *gateway });
                },
                _ => {},
            }
        }
        proof {
            assert(cc.take(0) =~= Seq::<ReqModel>::empty());
        }
        None
    }

    /// Feed one classified request; return the derived domain event, if
    /// any. Deriving an event clears the window (episode reset: the
    /// triggering request is discarded too); otherwise the request is
    /// appended and the oldest entry evicted once the capacity is
    /// exceeded.
    pub fn feed(&mut self, r: ScrNetworkRequest) -> (ev: Option<ScrEvent>)
        requires
            old(self).inv(),
        ensures
            opt_event_model(ev) == derived_event(old(self).window_model(), r@),
            final(self).window_model() == window_after(old(self).window_model(), r@),
            final(self).inv(),
    {
        let ghost wm = old(self).window_model();
        let ev: Option<ScrEvent> = match &r {
            ScrNetworkRequest::GameLoadingProfile { alias, gateway } => {
                match self.scan_map_preview() {
                    Some(h) => match self.scan_other_profile(alias, *gateway) {
                        Some(p2) => Some(
                            ScrEvent::MatchFound {
                                player1: Player { alias: alias.clone(), gateway: *gateway },
                                player2: p2,
                                map: h,
                            },
                        ),
                        None => None,
                    },
                    None => None,
                }
            },
            ScrNetworkRequest::ChatPanel { .. } => {
                match self.scan_leaderboard() {
                    Some(p) => Some(ScrEvent::ProfileSelect { alias: p.alias, gateway: p.gateway }),
                    None => None,
                }
            },
            ScrNetworkRequest::ToastPanel { .. } => Some(ScrEvent::GameEnded),
            _ => None,
        };
        if ev.is_some() {
            self.window = Vec::new();
            proof {
                assert(self.window_model() =~= Seq::<ReqModel>::empty());
            }
        } else {
            self.window.push(r);
            proof {
                assert(self.window@.map_values(|q: ScrNetworkRequest| q@) =~= wm.push(r@));
            }
            if self.window.len() > WINDOW_CAPACITY {
                self.window.remove(0);
                proof {
                    assert(self.window_model() =~= wm.push(r@).drop_first());
                }
            }
        }
        ev
    }
}

} // verus!

use cwal_core::classify::ScrNetworkRequest;
use cwal_core::deriver::ScrEventDeriver;
use cwal_core::scr_events::ScrEvent;

fn profile(alias: &str, gateway: u8) -> ScrNetworkRequest {
    ScrNetworkRequest::GameLoadingProfile { alias: alias.to_string(), gateway }
}

fn map_preview(hash: &str) -> ScrNetworkRequest {
    ScrNetworkRequest::MapPreview { hash: hash.to_string() }
}

fn leaderboard(alias: &str, gateway: u8) -> ScrNetworkRequest {
    ScrNetworkRequest::LeaderboardByToon { alias: alias.to_string(), gateway }
}

fn chat_panel() -> ScrNetworkRequest {
    ScrNetworkRequest::ChatPanel { url: "http://x/web-ui/chat-panel".to_string() }
}

fn toast_panel() -> ScrNetworkRequest {
    ScrNetworkRequest::ToastPanel { url: "http://x/web-ui/toast-panel".to_string() }
}

fn unknown(n: u32) -> ScrNetworkRequest {
    ScrNetworkRequest::Unknown { url: format!("http://x/{}", n) }
}

#[test]
fn match_found_scenario() {
    let mut d = ScrEventDeriver::new();
    assert!(d.feed(profile("alice", 1)).is_none());
    assert!(d.feed(map_preview("h1")).is_none());
    match d.feed(profile("bob", 2)) {
        Some(ScrEvent::MatchFound { player1, player2, map }) => {
            assert_eq!(player1.alias, "bob");
            assert_eq!(player1.gateway, 2);
            assert_eq!(player2.alias, "alice");
            assert_eq!(player2.gateway, 1);
            assert_eq!(map, "h1");
        },
        other => panic!("expected MatchFound, got {:?}", other),
    }
    assert_eq!(d.window.len(), 0);
}

#[test]
fn profile_select_scenario() {
    let mut d = ScrEventDeriver::new();
    assert!(d.feed(leaderboard("carol", 3)).is_none());
    match d.feed(chat_panel()) {
        Some(ScrEvent::ProfileSelect { alias, gateway }) => {
            assert_eq!(alias, "carol");
            assert_eq!(gateway, 3);
        },
        other => panic!("expected ProfileSelect, got {:?}", other),
    }
    assert_eq!(d.window.len(), 0);
}

#[test]
fn toast_panel_always_ends_game() {
    let mut d = ScrEventDeriver::new();
    for n in 0..3 {
        assert!(d.feed(unknown(n)).is_none());
    }
    match d.feed(toast_panel()) {
        Some(ScrEvent::GameEnded) => {},
        other => panic!("expected GameEnded, got {:?}", other),
    }
    assert_eq!(d.window.len(), 0);
}

#[test]
fn same_player_profile_does_not_match() {
    let mut d = ScrEventDeriver::new();
    assert!(d.feed(profile("alice", 1)).is_none());
    assert!(d.feed(map_preview("h1")).is_none());
    assert!(d.feed(profile("alice", 1)).is_none());
}

#[test]
fn profile_without_map_preview_does_not_match() {
    let mut d = ScrEventDeriver::new();
    assert!(d.feed(profile("alice", 1)).is_none());
    assert!(d.feed(profile("bob", 2)).is_none());
}

#[test]
fn chat_panel_lookback_is_five_entries() {
    let mut d = ScrEventDeriver::new();
    assert!(d.feed(leaderboard("carol", 3)).is_none());
    for n in 0..5 {
        assert!(d.feed(unknown(n)).is_none());
    }
    // The leaderboard entry is now six entries back, out of reach.
    assert!(d.feed(chat_panel()).is_none());

    let mut d2 = ScrEventDeriver::new();
    assert!(d2.feed(leaderboard("carol", 3)).is_none());
    for n in 0..4 {
        assert!(d2.feed(unknown(n)).is_none());
    }
    // Five entries back: still within the lookback.
    assert!(matches!(d2.feed(chat_panel()), Some(ScrEvent::ProfileSelect { .. })));
}

#[test]
fn window_stays_bounded() {
    let mut d = ScrEventDeriver::new();
    for n in 0..100 {
        assert!(d.feed(unknown(n)).is_none());
        assert!(d.window.len() <= 30);
    }
    assert_eq!(d.window.len(), 30);
}

#[test]
fn old_context_is_evicted_after_capacity() {
    let mut d = ScrEventDeriver::new();
    assert!(d.feed(map_preview("h1")).is_none());
    assert!(d.feed(profile("alice", 1)).is_none());
    for n in 0..29 {
        assert!(d.feed(unknown(n)).is_none());
    }
    // The map preview was evicted (window holds the profile and 29
    // unknowns), so no match can be derived.
    assert!(d.feed(profile("bob", 2)).is_none());
}

#[test]
fn derivation_clears_context_for_next_episode() {
    let mut d = ScrEventDeriver::new();
    assert!(d.feed(profile("alice", 1)).is_none());
    assert!(d.feed(map_preview("h1")).is_none());
    assert!(d.feed(toast_panel()).is_some());
    // The old map preview and profile are gone: no match.
    assert!(d.feed(profile("bob", 2)).is_none());
}

#[test]
fn no_op_categories_derive_nothing() {
    let mut d = ScrEventDeriver::new();
    assert!(d.feed(ScrNetworkRequest::Tooninfo { alias: "a".to_string(), gateway: 1 }).is_none());
    assert!(d.feed(leaderboard("a", 1)).is_none());
    assert!(
        d.feed(ScrNetworkRequest::GameLoading { url: "http://x/g".to_string() }).is_none()
    );
    assert!(d.feed(map_preview("h")).is_none());
    assert!(d.feed(unknown(0)).is_none());
    assert!(
        d.feed(ScrNetworkRequest::Unparsable { url: "nope".to_string() }).is_none()
    );
    assert_eq!(d.window.len(), 6);
}

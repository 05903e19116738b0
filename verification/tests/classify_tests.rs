use cwal_core::classify::classify;
use cwal_core::classify::ScrNetworkRequest;

#[test]
fn tooninfo_url_extracts_alias_and_gateway() {
    let url = "http://127.0.0.1:8080/web-api/v2/aurora-profile-by-toon/alice/10?request_flags=scr_tooninfo";
    match classify(url) {
        ScrNetworkRequest::Tooninfo { alias, gateway } => {
            assert_eq!(alias, "alice");
            assert_eq!(gateway, 10);
        },
        other => panic!("expected Tooninfo, got {:?}", other),
    }
}

#[test]
fn gameloading_profile_url_extracts_alias_and_gateway() {
    let url = "http://127.0.0.1:8080/web-api/v2/aurora-profile-by-toon/bob/30?request_flags=scr_mmgameloading";
    match classify(url) {
        ScrNetworkRequest::GameLoadingProfile { alias, gateway } => {
            assert_eq!(alias, "bob");
            assert_eq!(gateway, 30);
        },
        other => panic!("expected GameLoadingProfile, got {:?}", other),
    }
}

#[test]
fn leaderboard_url_extracts_alias_and_gateway() {
    let url = "http://127.0.0.1:8080/web-api/v1/leaderboard-rank-by-toon/12345/carol/45?offset=0";
    match classify(url) {
        ScrNetworkRequest::LeaderboardByToon { alias, gateway } => {
            assert_eq!(alias, "carol");
            assert_eq!(gateway, 45);
        },
        other => panic!("expected LeaderboardByToon, got {:?}", other),
    }
}

#[test]
fn invalid_gateway_is_unknown_with_url_preserved() {
    let url = "http://127.0.0.1:8080/web-api/v2/aurora-profile-by-toon/alice/999?request_flags=scr_tooninfo";
    match classify(url) {
        ScrNetworkRequest::Unknown { url: u } => assert_eq!(u, url),
        other => panic!("expected Unknown, got {:?}", other),
    }
}

#[test]
fn non_numeric_gateway_is_unknown_with_url_preserved() {
    let url = "http://127.0.0.1:8080/web-api/v2/aurora-profile-by-toon/alice/west?request_flags=scr_tooninfo";
    match classify(url) {
        ScrNetworkRequest::Unknown { url: u } => assert_eq!(u, url),
        other => panic!("expected Unknown, got {:?}", other),
    }
}

#[test]
fn gateway_with_leading_zeroes_parses() {
    let url = "http://127.0.0.1:8080/web-api/v2/aurora-profile-by-toon/dave/007?request_flags=scr_tooninfo";
    match classify(url) {
        ScrNetworkRequest::Tooninfo { alias, gateway } => {
            assert_eq!(alias, "dave");
            assert_eq!(gateway, 7);
        },
        other => panic!("expected Tooninfo, got {:?}", other),
    }
}

#[test]
fn tooninfo_flag_wins_over_gameloading_flag() {
    let url = "http://127.0.0.1:8080/web-api/v2/aurora-profile-by-toon/alice/10?request_flags=scr_tooninfo&request_flags=scr_mmgameloading";
    assert!(matches!(classify(url), ScrNetworkRequest::Tooninfo { .. }));
}

#[test]
fn unparsable_url_is_preserved_verbatim() {
    let url = "not a url at all";
    match classify(url) {
        ScrNetworkRequest::Unparsable { url: u } => assert_eq!(u, url),
        other => panic!("expected Unparsable, got {:?}", other),
    }
}

#[test]
fn empty_scheme_is_unparsable() {
    match classify("://host/path") {
        ScrNetworkRequest::Unparsable { url: u } => assert_eq!(u, "://host/path"),
        other => panic!("expected Unparsable, got {:?}", other),
    }
}

#[test]
fn gameloading_panel_url_classifies() {
    let url = "http://127.0.0.1:8080/web-ui/matchmaking-gameloading/index.html";
    assert!(matches!(classify(url), ScrNetworkRequest::GameLoading { .. }));
}

#[test]
fn chat_panel_url_classifies() {
    let url = "http://127.0.0.1:8080/web-ui/chat-panel/index.html";
    assert!(matches!(classify(url), ScrNetworkRequest::ChatPanel { .. }));
}

#[test]
fn toast_panel_url_classifies() {
    let url = "http://127.0.0.1:8080/web-ui/toast-panel/index.html";
    assert!(matches!(classify(url), ScrNetworkRequest::ToastPanel { .. }));
}

#[test]
fn map_preview_extracts_hash_parameter() {
    let url = "http://127.0.0.1:8080/web-api/v1/map-preview/generate?size=256&hash=abc123def";
    match classify(url) {
        ScrNetworkRequest::MapPreview { hash } => assert_eq!(hash, "abc123def"),
        other => panic!("expected MapPreview, got {:?}", other),
    }
}

#[test]
fn map_preview_without_hash_is_unknown() {
    let url = "http://127.0.0.1:8080/web-api/v1/map-preview/generate?size=256";
    assert!(matches!(classify(url), ScrNetworkRequest::Unknown { .. }));
}

#[test]
fn unrelated_url_is_unknown() {
    let url = "https://example.com/some/other/page?x=1";
    match classify(url) {
        ScrNetworkRequest::Unknown { url: u } => assert_eq!(u, url),
        other => panic!("expected Unknown, got {:?}", other),
    }
}

#[test]
fn marker_in_query_does_not_match_path_predicates() {
    let url = "https://example.com/plain?note=chat-panel";
    assert!(matches!(classify(url), ScrNetworkRequest::Unknown { .. }));
}

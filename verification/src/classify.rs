//! The request classifier: a pure function from a raw URL to a tagged
//! request category.
//!
//! The marker strings and segment positions mirror the game client's
//! fixed web API shape at design time; they are brittle against upstream
//! changes and are kept in this one module so the matching rules can be
//! updated without touching the event state machine.

use vstd::prelude::*;
use crate::strutil::contains;
use crate::strutil::contains_sub;
use crate::strutil::find_char_from;
use crate::strutil::find_from;
use crate::strutil::find_sub;
use crate::strutil::find_sub_from;
use crate::strutil::nth_segment;
use crate::strutil::param_value;
use crate::strutil::parse_u8;
use crate::strutil::parse_u8_spec;
use crate::strutil::query_param;
use crate::strutil::seg;

verus! {

/// Path marker of the profile-info endpoint (alias at segment 3,
/// gateway at segment 4).
pub open spec fn profile_marker() -> Seq<char> {
    "aurora-profile-by-toon"@
}

/// Request-flag marker selecting the toon-info variant of the
/// profile-info endpoint.
pub open spec fn tooninfo_flag() -> Seq<char> {
    "request_flags=scr_tooninfo"@
}

/// Request-flag marker selecting the game-loading variant of the
/// profile-info endpoint.
pub open spec fn gameloading_flag() -> Seq<char> {
    "request_flags=scr_mmgameloading"@
}

/// Path marker of the leaderboard-by-toon endpoint (alias at segment 4,
/// gateway at segment 5).
pub open spec fn leaderboard_marker() -> Seq<char> {
    "leaderboard-rank-by-toon"@
}

/// Path marker of the matchmaking game-loading panel.
pub open spec fn gameloading_panel_marker() -> Seq<char> {
    "matchmaking-gameloading"@
}

/// Path marker of the chat panel.
pub open spec fn chat_panel_marker() -> Seq<char> {
    "chat-panel"@
}

/// Path marker of the toast panel.
pub open spec fn toast_panel_marker() -> Seq<char> {
    "toast-panel"@
}

/// Path marker of the map-preview endpoint.
pub open spec fn map_preview_marker() -> Seq<char> {
    "map-preview"@
}

/// The model of a classified request: every owned string is replaced by
/// its character sequence.
pub enum ReqModel {
    Tooninfo { alias: Seq<char>, gateway: u8 },
    GameLoadingProfile { alias: Seq<char>, gateway: u8 },
    LeaderboardByToon { alias: Seq<char>, gateway: u8 },
    GameLoading { url: Seq<char> },
    ChatPanel { url: Seq<char> },
    ToastPanel { url: Seq<char> },
    MapPreview { hash: Seq<char> },
    Unknown { url: Seq<char> },
    Unparsable { url: Seq<char> },
}

/// A classified network request observed in the game client's browser
/// cache.
#[derive(Debug)]
pub enum ScrNetworkRequest {
    Tooninfo { alias: String, gateway: u8 },
    GameLoadingProfile { alias: String, gateway: u8 },
    LeaderboardByToon { alias: String, gateway: u8 },
    GameLoading { url: String },
    ChatPanel { url: String },
    ToastPanel { url: String },
    MapPreview { hash: String },
    Unknown { url: String },
    Unparsable { url: String },
}

impl View for ScrNetworkRequest {
    type V = ReqModel;

    open spec fn view(&self) -> ReqModel {
        match self {
            ScrNetworkRequest::Tooninfo { alias, gateway } => ReqModel::Tooninfo {
                alias: alias@,
                gateway: *gateway,
            },
            ScrNetworkRequest::GameLoadingProfile { alias, gateway } => {
                ReqModel::GameLoadingProfile { alias: alias@, gateway: *gateway }
            },
            ScrNetworkRequest::LeaderboardByToon { alias, gateway } => {
                ReqModel::LeaderboardByToon { alias: alias@, gateway: *gateway }
            },
            ScrNetworkRequest::GameLoading { url } => ReqModel::GameLoading { url: url@ },
            ScrNetworkRequest::ChatPanel { url } => ReqModel::ChatPanel { url: url@ },
            ScrNetworkRequest::ToastPanel { url } => ReqModel::ToastPanel { url: url@ },
            ScrNetworkRequest::MapPreview { hash } => ReqModel::MapPreview { hash: hash@ },
            ScrNetworkRequest::Unknown { url } => ReqModel::Unknown { url: url@ },
            ScrNetworkRequest::Unparsable { url } => ReqModel::Unparsable { url: url@ },
        }
    }
}

impl Clone for ScrNetworkRequest {
    fn clone(&self) -> (r: Self)
        ensures
            r@ == self@,
    {
        match self {
            ScrNetworkRequest::Tooninfo { alias, gateway } => ScrNetworkRequest::Tooninfo {
                alias: alias.clone(),
                gateway: *gateway,
            },
            ScrNetworkRequest::GameLoadingProfile { alias, gateway } => {
                ScrNetworkRequest::GameLoadingProfile { alias: alias.clone(), gateway: *gateway }
            },
            ScrNetworkRequest::LeaderboardByToon { alias, gateway } => {
                ScrNetworkRequest::LeaderboardByToon { alias: alias.clone(), gateway: *gateway }
            },
            ScrNetworkRequest::GameLoading { url } => ScrNetworkRequest::GameLoading {
                url: url.clone(),
            },
            ScrNetworkRequest::ChatPanel { url } => ScrNetworkRequest::ChatPanel {
                url: url.clone(),
            },
            ScrNetworkRequest::ToastPanel { url } => ScrNetworkRequest::ToastPanel {
                url: url.clone(),
            },
            ScrNetworkRequest::MapPreview { hash } => ScrNetworkRequest::MapPreview {
                hash: hash.clone(),
            },
            ScrNetworkRequest::Unknown { url } => ScrNetworkRequest::Unknown { url: url.clone() },
            ScrNetworkRequest::Unparsable { url } => ScrNetworkRequest::Unparsable {
                url: url.clone(),
            },
        }
    }
}

/// The structural parse of a URL into (path, query): the path runs from
/// the first `/` after the `://` separator to the first `?` (or the
/// end), the query is everything after that `?`. A URL with no `://`
/// separator, or with an empty scheme, does not parse.
pub open spec fn parse_url_spec(url: Seq<char>) -> Option<(Seq<char>, Seq<char>)> {
    match find_sub_from(url, "://"@, 0) {
        None => None,
        Some(i) => if i == 0 {
            None
        } else {
            let rest = i + 3;
            let qpos = find_from(url, '?', rest);
            let ppos = find_from(url, '/', rest);
            let path_end = match qpos {
                None => url.len() as int,
                Some(x) => x,
            };
            let path = match ppos {
                Some(pp) => if pp < path_end {
                    url.subrange(pp, path_end)
                } else {
                    Seq::<char>::empty()
                },
                None => Seq::<char>::empty(),
            };
            let query = match qpos {
                Some(x) => url.skip(x + 1),
                None => Seq::<char>::empty(),
            };
            Some((path, query))
        },
    }
}

/// The path with its leading slash removed, if it has one.
pub open spec fn rel_path(path: Seq<char>) -> Seq<char> {
    if path.len() > 0 && path[0] == '/' {
        path.skip(1)
    } else {
        path
    }
}

/// The alias at path segment `ai` and the gateway at path segment `gi`,
/// when the gateway segment is a valid unsigned 8-bit integer.
pub open spec fn extract_player_spec(path: Seq<char>, ai: int, gi: int) -> Option<(Seq<char>, u8)> {
    match (seg(rel_path(path), '/', ai), seg(rel_path(path), '/', gi)) {
        (Some(a), Some(g)) => match parse_u8_spec(g) {
            Some(gw) => Some((a, gw)),
            None => None,
        },
        _ => None,
    }
}

/// The classification of a raw URL: an ordered list of marker predicates,
/// first match wins. A URL that does not parse is `Unparsable`; a marker
/// URL whose alias/gateway segments are missing or whose gateway is not a
/// valid unsigned 8-bit integer is `Unknown` with the URL preserved
/// verbatim, as is a map-preview URL without a `hash` query parameter.
pub open spec fn classify_spec(url: Seq<char>) -> ReqModel {
    match parse_url_spec(url) {
        None => ReqModel::Unparsable { url },
        Some(pq) => {
            let path = pq.0;
            let query = pq.1;
            if contains_sub(path, profile_marker()) && contains_sub(query, tooninfo_flag()) {
                match extract_player_spec(path, 3, 4) {
                    Some(ag) => ReqModel::Tooninfo { alias: ag.0, gateway: ag.1 },
                    None => ReqModel::Unknown { url },
                }
            } else if contains_sub(path, profile_marker()) && contains_sub(
                query,
                gameloading_flag(),
            ) {
                match extract_player_spec(path, 3, 4) {
                    Some(ag) => ReqModel::GameLoadingProfile { alias: ag.0, gateway: ag.1 },
                    None => ReqModel::Unknown { url },
                }
            } else if contains_sub(path, leaderboard_marker()) {
                match extract_player_spec(path, 4, 5) {
                    Some(ag) => ReqModel::LeaderboardByToon { alias: ag.0, gateway: ag.1 },
                    None => ReqModel::Unknown { url },
                }
            } else if contains_sub(path, gameloading_panel_marker()) {
                ReqModel::GameLoading { url }
            } else if contains_sub(path, chat_panel_marker()) {
                ReqModel::ChatPanel { url }
            } else if contains_sub(path, toast_panel_marker()) {
                ReqModel::ToastPanel { url }
            } else if contains_sub(path, map_preview_marker()) {
                match param_value(query, "hash"@) {
                    Some(h) => ReqModel::MapPreview { hash: h },
                    None => ReqModel::Unknown { url },
                }
            } else {
                ReqModel::Unknown { url }
            }
        },
    }
}

/// URLs accepted by the toon-info markers: when the gateway segment is
/// a valid unsigned 8-bit integer the result carries exactly the alias
/// and gateway segments; otherwise (bad gateway or missing segments) it
/// is `Unknown` with the URL preserved verbatim.
pub proof fn lemma_tooninfo_extraction(url: Seq<char>, path: Seq<char>, query: Seq<char>)
    requires
        parse_url_spec(url) == Some((path, query)),
        contains_sub(path, profile_marker()),
        contains_sub(query, tooninfo_flag()),
    ensures
        match (seg(rel_path(path), '/', 3), seg(rel_path(path), '/', 4)) {
            (Some(a), Some(g)) => match parse_u8_spec(g) {
                Some(gw) => classify_spec(url) == ReqModel::Tooninfo { alias: a, gateway: gw },
                None => classify_spec(url) == ReqModel::Unknown { url },
            },
            _ => classify_spec(url) == ReqModel::Unknown { url },
        },
{
}

/// The same extraction law for the game-loading variant of the
/// profile-info endpoint (the toon-info arm is checked first).
pub proof fn lemma_gameloading_extraction(url: Seq<char>, path: Seq<char>, query: Seq<char>)
    requires
        parse_url_spec(url) == Some((path, query)),
        contains_sub(path, profile_marker()),
        !contains_sub(query, tooninfo_flag()),
        contains_sub(query, gameloading_flag()),
    ensures
        match (seg(rel_path(path), '/', 3), seg(rel_path(path), '/', 4)) {
            (Some(a), Some(g)) => match parse_u8_spec(g) {
                Some(gw) => classify_spec(url) == ReqModel::GameLoadingProfile {
                    alias: a,
                    gateway: gw,
                },
                None => classify_spec(url) == ReqModel::Unknown { url },
            },
            _ => classify_spec(url) == ReqModel::Unknown { url },
        },
{
}

/// The same extraction law for the leaderboard endpoint, whose alias
/// and gateway sit one segment later (the profile-info arms are checked
/// first).
pub proof fn lemma_leaderboard_extraction(url: Seq<char>, path: Seq<char>, query: Seq<char>)
    requires
        parse_url_spec(url) == Some((path, query)),
        !contains_sub(path, profile_marker()),
        contains_sub(path, leaderboard_marker()),
    ensures
        match (seg(rel_path(path), '/', 4), seg(rel_path(path), '/', 5)) {
            (Some(a), Some(g)) => match parse_u8_spec(g) {
                Some(gw) => classify_spec(url) == ReqModel::LeaderboardByToon {
                    alias: a,
                    gateway: gw,
                },
                None => classify_spec(url) == ReqModel::Unknown { url },
            },
            _ => classify_spec(url) == ReqModel::Unknown { url },
        },
{
}

/// Split a URL into its path and query parts.
fn parse_url(url: &str) -> (r: Option<(String, String)>)
    ensures
        match r {
            None => parse_url_spec(url@) is None,
            Some(pq) => parse_url_spec(url@) == Some((pq.0@, pq.1@)),
        },
{
    proof {
        reveal_strlit("://");
    }
    let len = url.unicode_len();
    match find_sub(url, "://") {
        None => None,
        Some(i) => {
            if i == 0 {
                return None;
            }
            let rest = i + 3;
            let qpos = find_char_from(url, '?', rest);
            let ppos = find_char_from(url, '/', rest);
            let path_end = match qpos {
                None => len,
                Some(x) => x,
            };
            let path = match ppos {
                Some(pp) => if pp < path_end {
                    url.substring_char(pp, path_end).to_owned()
                } else {
                    String::new()
                },
                None => String::new(),
            };
            let query = match qpos {
                Some(x) => url.substring_char(x + 1, len).to_owned(),
                None => String::new(),
            };
            proof {
                match find_from(url@, '?', rest as int) {
                    Some(x) => {
                        assert(url@.subrange(x + 1, len as int) =~= url@.skip(x + 1));
                    },
                    None => {},
                }
            }
            Some((path, query))
        },
    }
}

/// Extract the alias and gateway from the given path segments.
fn extract_player(path: &str, ai: usize, gi: usize) -> (r: Option<(String, u8)>)
    ensures
        match r {
            Some(ag) => extract_player_spec(path@, ai as int, gi as int) == Some((ag.0@, ag.1)),
            None => extract_player_spec(path@, ai as int, gi as int) is None,
        },
{
    let len = path.unicode_len();
    let rel: &str = if len > 0 && path.get_char(0) == '/' {
        path.substring_char(1, len)
    } else {
        path
    };
    proof {
        assert(rel@ =~= rel_path(path@));
    }
    match nth_segment(rel, '/', ai) {
        None => None,
        Some(a) => match nth_segment(rel, '/', gi) {
            None => None,
            Some(g) => match parse_u8(g.as_str()) {
                Some(gw) => Some((a, gw)),
                None => None,
            },
        },
    }
}

/// Classify a raw URL observed in the game client's browser cache.
pub fn classify(url: &str) -> (r: ScrNetworkRequest)
    ensures
        r@ == classify_spec(url@),
{
    match parse_url(url) {
        None => ScrNetworkRequest::Unparsable { url: url.to_owned() },
        Some(pq) => {
            let path = pq.0;
            let query = pq.1;
            let p = path.as_str();
            let q = query.as_str();
            if contains(p, "aurora-profile-by-toon") && contains(q, "request_flags=scr_tooninfo") {
                match extract_player(p, 3, 4) {
                    Some(ag) => ScrNetworkRequest::Tooninfo { alias: ag.0, gateway: ag.1 },
                    None => ScrNetworkRequest::Unknown { url: url.to_owned() },
                }
            } else if contains(p, "aurora-profile-by-toon") && contains(
                q,
                "request_flags=scr_mmgameloading",
            ) {
                match extract_player(p, 3, 4) {
                    Some(ag) => ScrNetworkRequest::GameLoadingProfile {
                        alias: ag.0,
                        gateway: ag.1,
                    },
                    None => ScrNetworkRequest::Unknown { url: url.to_owned() },
                }
            } else if contains(p, "leaderboard-rank-by-toon") {
                match extract_player(p, 4, 5) {
                    Some(ag) => ScrNetworkRequest::LeaderboardByToon {
                        alias: ag.0,
                        gateway: ag.1,
                    },
                    None => ScrNetworkRequest::Unknown { url: url.to_owned() },
                }
            } else if contains(p, "matchmaking-gameloading") {
                ScrNetworkRequest::GameLoading { url: url.to_owned() }
            } else if contains(p, "chat-panel") {
                ScrNetworkRequest::ChatPanel { url: url.to_owned() }
            } else if contains(p, "toast-panel") {
                ScrNetworkRequest::ToastPanel { url: url.to_owned() }
            } else if contains(p, "map-preview") {
                match query_param(q, "hash") {
                    Some(h) => ScrNetworkRequest::MapPreview { hash: h },
                    None => ScrNetworkRequest::Unknown { url: url.to_owned() },
                }
            } else {
                ScrNetworkRequest::Unknown { url: url.to_owned() }
            }
        },
    }
}

} // verus!

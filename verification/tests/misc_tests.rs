use osubot::config::{default_server, normalize_token, OsuConfig};
use osubot::game::{beatmap_status_from_code, status_from_code, BeatmapStatus, GameStatus, Mods};
use osubot::relay::{plan_connection, request_line, Error, RelaySettings};
use osubot::text::{centi_string, i32_string, lower, str_eq, tokens, u64_string};
use osubot::HandleError;

#[test]
fn numbers_render_in_decimal() {
    assert_eq!(u64_string(0), "0");
    assert_eq!(u64_string(7), "7");
    assert_eq!(u64_string(1234567890), "1234567890");
    assert_eq!(u64_string(u64::MAX), "18446744073709551615");
    assert_eq!(i32_string(0), "0");
    assert_eq!(i32_string(-5), "-5");
    assert_eq!(i32_string(i32::MIN), "-2147483648");
    assert_eq!(i32_string(i32::MAX), "2147483647");
}

#[test]
fn hundredths_render_with_two_decimals() {
    assert_eq!(centi_string(500), "5.00");
    assert_eq!(centi_string(502), "5.02");
    assert_eq!(centi_string(5), "0.05");
    assert_eq!(centi_string(0), "0.00");
    assert_eq!(centi_string(18050), "180.50");
}

#[test]
fn text_helpers_fold_and_split() {
    assert_eq!(lower("NowPlaying"), "nowplaying");
    assert_eq!(lower("ÄB✓"), "Äb✓");
    assert!(str_eq("abc", "abc"));
    assert!(!str_eq("abc", "abd"));
    assert!(!str_eq("abc", "ab"));
    let t = tokens("  one  two\tthree\n");
    assert_eq!(t, vec!["one".to_string(), "two".to_string(), "three".to_string()]);
    assert_eq!(tokens("   "), Vec::<String>::new());
}

#[test]
fn token_normalization_strips_the_marker() {
    assert_eq!(normalize_token("oauth:abc"), "abc");
    assert_eq!(normalize_token("abc"), "abc");
    assert_eq!(normalize_token("oauth:oauth:abc"), "abc");
    assert_eq!(normalize_token(""), "");
    assert_eq!(normalize_token("oauth:"), "");
}

#[test]
fn the_default_relay_server() {
    assert_eq!(default_server(), "irc.ppy.sh");
}

#[test]
fn status_codes_map_to_the_enumeration() {
    assert_eq!(status_from_code(0), GameStatus::PreSongSelect);
    assert_eq!(status_from_code(2), GameStatus::Playing);
    assert_eq!(status_from_code(5), GameStatus::SongSelect);
    assert_eq!(status_from_code(4), GameStatus::EditorSongSelect);
    assert_eq!(status_from_code(7), GameStatus::ResultsScreen);
    assert_eq!(status_from_code(11), GameStatus::MultiplayerLobbySelect);
    assert_eq!(status_from_code(12), GameStatus::MultiplayerLobby);
    assert_eq!(status_from_code(14), GameStatus::MultiplayerResultsScreen);
    assert_eq!(status_from_code(1), GameStatus::Unknown);
    assert_eq!(beatmap_status_from_code(4), BeatmapStatus::Ranked);
    assert_eq!(beatmap_status_from_code(7), BeatmapStatus::Loved);
    assert_eq!(beatmap_status_from_code(0), BeatmapStatus::Unknown);
    assert_eq!(beatmap_status_from_code(9), BeatmapStatus::Unknown);
    assert_eq!(Mods(72).bits(), 72);
}

fn relay_config(
    beatmap_requests: bool,
    name: Option<&str>,
    player: Option<&str>,
    password: Option<&str>,
) -> OsuConfig {
    OsuConfig {
        beatmap_requests,
        server: "irc.ppy.sh".to_string(),
        name: name.map(|s| s.to_string()),
        player: player.map(|s| s.to_string()),
        password: password.map(|s| s.to_string()),
    }
}

#[test]
fn relay_absent_without_config() {
    assert!(matches!(plan_connection(None), Err(Error::NoConfig)));
}

#[test]
fn relay_absent_when_requests_disabled() {
    let cfg = relay_config(false, Some("n"), None, Some("p"));
    assert!(matches!(plan_connection(Some(cfg)), Err(Error::RequestsDisabled)));
}

#[test]
fn relay_absent_without_login() {
    let cfg = relay_config(true, None, None, Some("p"));
    assert!(matches!(plan_connection(Some(cfg)), Err(Error::NoLogin)));
    let cfg = relay_config(true, Some("n"), None, None);
    assert!(matches!(plan_connection(Some(cfg)), Err(Error::NoLogin)));
}

#[test]
fn relay_settings_default_the_player_to_the_name() {
    let cfg = relay_config(true, Some("bot"), None, Some("secret"));
    let s: RelaySettings = plan_connection(Some(cfg)).expect("relay should be enabled");
    assert_eq!(s.nickname, "bot");
    assert_eq!(s.player, "bot");
    assert_eq!(s.password, "secret");
    assert_eq!(s.server, "irc.ppy.sh");
    assert_eq!(s.port, 6667);
    assert!(!s.use_tls);
    let cfg = relay_config(true, Some("bot"), Some("someone"), Some("secret"));
    let s = plan_connection(Some(cfg)).expect("relay should be enabled");
    assert_eq!(s.player, "someone");
}

#[test]
fn request_line_is_bracketed() {
    assert_eq!(
        request_line("42", "A - B [Hard] 5.00★", "great map"),
        "[https://osu.ppy.sh/b/42 A - B [Hard] 5.00★] great map"
    );
}

#[test]
fn supervision_is_fail_fast() {
    assert!(osubot::supervise(Ok(()), Ok(())).is_ok());
    let r = osubot::supervise(Err(osubot::listener::Error::TimedOut), Ok(()));
    assert!(matches!(r, Err(HandleError::Rosu(osubot::listener::Error::TimedOut))));
    let r = osubot::supervise(Ok(()), Err("chat stream closed".to_string()));
    match r {
        Err(HandleError::Twitch(m)) => assert_eq!(m, "chat stream closed"),
        _ => panic!("expected the dispatcher error"),
    }
    let r = osubot::supervise(
        Err(osubot::listener::Error::TimedOut),
        Err("chat stream closed".to_string()),
    );
    assert!(matches!(r, Err(HandleError::Rosu(_))));
}

#[test]
fn handle_error_wraps_each_source() {
    assert!(matches!(
        HandleError::from(osubot::listener::Error::TimedOut),
        HandleError::Rosu(_)
    ));
    assert!(matches!(HandleError::from(Error::NoLogin), HandleError::BanchoIrc(_)));
    assert!(matches!(HandleError::from("boom".to_string()), HandleError::Twitch(_)));
}

use osubot::dispatch::{
    dispatch, handle_message, parse_command, pp_plan, pp_reply, resolve, CommandKind, Outcome,
    PpEstimates, PpPlan,
};
use osubot::game::GameState;

fn sample_state() -> GameState {
    let mut g = GameState::default();
    g.map_id = 123;
    g.artist = "A".to_string();
    g.title = "B".to_string();
    g.difficulty = "Hard".to_string();
    g.stars_mods = 500;
    g
}

#[test]
fn now_playing_reply_has_link_name_and_stars() {
    // scenario: publish the sample state, dispatch "!np"
    let gs = sample_state();
    let r = handle_message("!np", false, "!", &gs, false);
    match r {
        Outcome::Reply(s) => {
            assert!(s.contains("osu.ppy.sh/b/123"));
            assert!(s.contains("A - B [Hard]"));
            assert!(s.contains("5.00★"));
            assert_eq!(s, "osu.ppy.sh/b/123 A - B [Hard] +  5.00★");
        },
        _ => panic!("expected a reply"),
    }
}

#[test]
fn now_playing_includes_modifiers() {
    let mut gs = sample_state();
    gs.mods_str = vec!["HD".to_string(), "DT".to_string()];
    let r = handle_message("!np", false, "!", &gs, false);
    match r {
        Outcome::Reply(s) => assert_eq!(s, "osu.ppy.sh/b/123 A - B [Hard] + HDDT 5.00★"),
        _ => panic!("expected a reply"),
    }
}

#[test]
fn message_without_prefix_triggers_nothing() {
    let gs = sample_state();
    assert!(matches!(handle_message("np", false, "!", &gs, true), Outcome::NoReply));
    assert!(matches!(handle_message("ping", false, "!", &gs, true), Outcome::NoReply));
    assert!(matches!(handle_message("?np", false, "!", &gs, true), Outcome::NoReply));
}

#[test]
fn action_message_triggers_nothing() {
    let gs = sample_state();
    assert!(matches!(handle_message("!np", true, "!", &gs, true), Outcome::NoReply));
}

#[test]
fn dispatch_is_case_insensitive() {
    let gs = sample_state();
    for spelling in ["!NP", "!np", "!Np", "!nP"] {
        match handle_message(spelling, false, "!", &gs, false) {
            Outcome::Reply(s) => assert!(s.contains("osu.ppy.sh/b/123")),
            _ => panic!("{} should resolve to the now-playing handler", spelling),
        }
    }
}

#[test]
fn resolve_knows_every_alias() {
    for name in ["np", "nowplaying", "nowplay", "map"] {
        assert_eq!(resolve(name), Some(CommandKind::NowPlaying));
    }
    for name in ["nppp", "nowplayingpp", "nowplaypp", "mappp"] {
        assert_eq!(resolve(name), Some(CommandKind::NowPlayingPp));
    }
    for name in ["rq", "req", "request"] {
        assert_eq!(resolve(name), Some(CommandKind::Request));
    }
    assert_eq!(resolve("ping"), Some(CommandKind::Ping));
    assert_eq!(resolve("help"), None);
    assert_eq!(resolve(""), None);
}

#[test]
fn ping_always_replies_pong() {
    // the zero/default state included
    let zero = GameState::default();
    match handle_message("!ping", false, "!", &zero, false) {
        Outcome::Reply(s) => assert_eq!(s, "Pong!"),
        _ => panic!("expected Pong!"),
    }
    let gs = sample_state();
    match handle_message("!ping with extra words", false, "!", &gs, true) {
        Outcome::Reply(s) => assert_eq!(s, "Pong!"),
        _ => panic!("expected Pong!"),
    }
}

#[test]
fn unknown_command_produces_no_reply() {
    let gs = sample_state();
    assert!(matches!(handle_message("!help", false, "!", &gs, true), Outcome::NoReply));
}

#[test]
fn request_without_relay_produces_nothing() {
    let gs = sample_state();
    assert!(matches!(handle_message("!rq 42", false, "!", &gs, false), Outcome::NoReply));
    assert!(matches!(handle_message("!request 42 pls", false, "!", &gs, false), Outcome::NoReply));
}

#[test]
fn request_with_relay_forwards_and_confirms() {
    let gs = sample_state();
    match handle_message("!rq 42 great map", false, "!", &gs, true) {
        Outcome::ReplyAndRelay(s, q) => {
            assert_eq!(s, "Added request A - B [Hard] 5.00★ osu.ppy.sh/b/123");
            assert_eq!(q.beatmap_id, "42");
            assert_eq!(q.beatmap_name, "A - B [Hard] 5.00★");
            assert_eq!(q.note, "great map");
        },
        _ => panic!("expected a reply plus a relayed request"),
    }
}

#[test]
fn request_without_identifier_produces_nothing() {
    let gs = sample_state();
    assert!(matches!(handle_message("!rq", false, "!", &gs, true), Outcome::NoReply));
}

#[test]
fn performance_command_asks_for_estimates() {
    let gs = sample_state();
    assert!(matches!(handle_message("!nppp", false, "!", &gs, true), Outcome::NeedsPerformance));
}

#[test]
fn performance_reply_lists_all_six_estimates() {
    let gs = sample_state();
    let pp = PpEstimates { pp100: 300, pp99: 280, pp98: 260, pp97: 240, pp96: 220, pp95: 200 };
    let s = pp_reply(&gs, &pp);
    assert_eq!(
        s,
        "osu.ppy.sh/b/123 A - B [Hard] +  5.00★ | 100%: 300pp | 99%: 280pp | 98%: 260pp | 97%: 240pp | 96%: 220pp | 95%: 200pp"
    );
}

#[test]
fn performance_plan_uses_cache_only_when_present() {
    let mut gs = sample_state();
    gs.ss_pp = 0;
    assert_eq!(pp_plan(&gs), PpPlan::ComputeFresh);
    gs.ss_pp = 32190;
    assert_eq!(pp_plan(&gs), PpPlan::UseCached);
}

#[test]
fn parse_command_splits_name_and_arguments() {
    let cmd = parse_command("!Req 42  two words", false, "!").expect("should parse");
    assert_eq!(cmd.name, "req");
    assert_eq!(cmd.args, vec!["42".to_string(), "two".to_string(), "words".to_string()]);
    assert!(parse_command("!", false, "!").is_none());
    assert!(parse_command("!   ", false, "!").is_none());
    assert!(parse_command("np", false, "!").is_none());
    assert!(parse_command("!np", true, "!").is_none());
}

#[test]
fn longer_prefixes_are_honoured() {
    let gs = sample_state();
    match handle_message("botping", false, "bot", &gs, false) {
        Outcome::Reply(s) => assert_eq!(s, "Pong!"),
        _ => panic!("expected Pong!"),
    }
    assert!(matches!(handle_message("!ping", false, "bot", &gs, false), Outcome::NoReply));
}

#[test]
fn dispatch_on_parsed_command_matches_handle() {
    let gs = sample_state();
    let cmd = parse_command("!map", false, "!").expect("should parse");
    match dispatch(&cmd, &gs, false) {
        Outcome::Reply(s) => assert!(s.contains("osu.ppy.sh/b/123")),
        _ => panic!("expected a reply"),
    }
}

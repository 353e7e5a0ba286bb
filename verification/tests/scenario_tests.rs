use osubot::cell::StateCell;
use osubot::dispatch::{handle_message, Outcome};
use osubot::listener::{ListenerCore, WsEvent};

#[test]
fn telemetry_to_reply_end_to_end() {
    // a frame arrives, is decoded and published; a chat command then
    // formats the published snapshot
    let frame = r#"{"map_id": 123, "artist": "A", "title": "B",
                    "difficulty": "Hard", "stars_mods": 5.00}"#;
    let mut core = ListenerCore::new();
    let mut cell = StateCell::new();
    let r = osubot::listener::step(&mut core, &mut cell, WsEvent::Text(frame.to_string()), 10, false);
    assert!(r.is_ok());
    let snapshot = cell.read();
    match handle_message("!np", false, "!", &snapshot, false) {
        Outcome::Reply(s) => {
            assert!(s.contains("osu.ppy.sh/b/123"));
            assert!(s.contains("A - B [Hard]"));
            assert!(s.contains("5.00★"));
        },
        _ => panic!("expected a now-playing reply"),
    }
}

#[test]
fn commands_format_the_default_snapshot_without_failing() {
    // no telemetry yet: handlers still format the zero state
    let cell = StateCell::new();
    let snapshot = cell.read();
    match handle_message("!np", false, "!", &snapshot, true) {
        Outcome::Reply(s) => assert_eq!(s, "osu.ppy.sh/b/0  -  [] +  0.00★"),
        _ => panic!("expected a reply"),
    }
}

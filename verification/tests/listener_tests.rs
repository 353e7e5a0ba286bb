use osubot::cell::StateCell;
use osubot::listener::{Error, ListenerCore, WsEvent, LIVENESS_WINDOW_MS, POLL_INTERVAL_MS};

fn frame(map_id: i32, title: &str) -> String {
    format!(r#"{{"map_id": {}, "title": "{}"}}"#, map_id, title)
}

#[test]
fn uncontended_frames_visible_in_arrival_order() {
    let mut core = ListenerCore::new();
    let mut cell = StateCell::new();
    let r = osubot::listener::step(&mut core, &mut cell, WsEvent::Text(frame(1, "first")), 10, false);
    assert!(r.is_ok());
    assert_eq!(cell.read().map_id, 1);
    let r = osubot::listener::step(&mut core, &mut cell, WsEvent::Text(frame(2, "second")), 10, false);
    assert!(r.is_ok());
    assert_eq!(cell.read().map_id, 2);
    assert_eq!(cell.read().title, "second");
}

#[test]
fn denied_value_is_published_on_next_attempt() {
    let mut core = ListenerCore::new();
    let mut cell = StateCell::new();
    // the cell is busy: the frame stays buffered and the cell untouched
    let r = osubot::listener::step(&mut core, &mut cell, WsEvent::Text(frame(5, "kept")), 10, true);
    assert!(r.is_ok());
    assert!(core.has_pending());
    assert_eq!(cell.read().map_id, 0);
    // next iteration with the cell free: exactly the denied value appears
    let r = osubot::listener::step(&mut core, &mut cell, WsEvent::Quiet, 10, false);
    assert!(r.is_ok());
    assert!(!core.has_pending());
    assert_eq!(cell.read().map_id, 5);
    assert_eq!(cell.read().title, "kept");
}

#[test]
fn listener_times_out_after_silence() {
    // scenario: no frames for 31 s of simulated time
    let mut core = ListenerCore::new();
    let mut cell = StateCell::new();
    let mut fatal: Option<Error> = None;
    let mut steps: u64 = 0;
    for _ in 0..62 {
        steps += 1;
        match osubot::listener::step(&mut core, &mut cell, WsEvent::Quiet, POLL_INTERVAL_MS, false) {
            Ok(()) => (),
            Err(e) => {
                fatal = Some(e);
                break;
            },
        }
    }
    // the window is 30 s and each quiet poll accounts for 500 ms, so the
    // sixtieth iteration is the first to reach it
    assert_eq!(steps, LIVENESS_WINDOW_MS / POLL_INTERVAL_MS);
    assert!(matches!(fatal, Some(Error::TimedOut)));
    // nothing was ever published
    assert_eq!(cell.read().map_id, 0);
}

#[test]
fn malformed_frame_is_fatal_and_is_not_a_timeout() {
    let mut core = ListenerCore::new();
    let mut cell = StateCell::new();
    let r = osubot::listener::step(&mut core, &mut cell, WsEvent::Text("not json".to_string()), 10, false);
    assert!(matches!(r, Err(Error::Parse(_))));
    assert_eq!(cell.read().map_id, 0);
}

#[test]
fn transport_fault_is_fatal() {
    let mut core = ListenerCore::new();
    let mut cell = StateCell::new();
    let r = osubot::listener::step(
        &mut core,
        &mut cell,
        WsEvent::Transport("connection reset".to_string()),
        10,
        false,
    );
    match r {
        Err(Error::Websocket(d)) => assert_eq!(d, "connection reset"),
        _ => panic!("expected a transport error"),
    }
}

#[test]
fn reader_holding_cell_sees_second_frame_after_release() {
    // scenario: two frames arrive back-to-back while a reader holds the
    // cell; after the release a read returns the second frame, never the
    // first
    let mut core = ListenerCore::new();
    let mut cell = StateCell::new();
    let r = osubot::listener::step(&mut core, &mut cell, WsEvent::Text(frame(1, "old")), 5, true);
    assert!(r.is_ok());
    let r = osubot::listener::step(&mut core, &mut cell, WsEvent::Text(frame(2, "new")), 5, true);
    assert!(r.is_ok());
    // while the reader held the cell nothing changed
    assert_eq!(cell.read().map_id, 0);
    // reader released: the superseding frame is the one published
    let r = osubot::listener::step(&mut core, &mut cell, WsEvent::Quiet, 5, false);
    assert!(r.is_ok());
    assert_eq!(cell.read().map_id, 2);
    assert_eq!(cell.read().title, "new");
}

#[test]
fn non_text_frames_are_ignored_but_count_toward_silence() {
    let mut core = ListenerCore::new();
    let mut cell = StateCell::new();
    let r = osubot::listener::step(&mut core, &mut cell, WsEvent::NonText, LIVENESS_WINDOW_MS, false);
    assert!(matches!(r, Err(Error::TimedOut)));
}

#[test]
fn received_frame_resets_the_silence_clock() {
    let mut core = ListenerCore::new();
    let mut cell = StateCell::new();
    let r = osubot::listener::step(
        &mut core,
        &mut cell,
        WsEvent::Text(frame(3, "t")),
        LIVENESS_WINDOW_MS + 1000,
        false,
    );
    // a frame arrived, so the clock restarts and no timeout fires
    assert!(r.is_ok());
    assert!(!core.timed_out());
    assert_eq!(cell.read().map_id, 3);
}

#[test]
fn publish_respects_busy_flag() {
    let mut cell = StateCell::new();
    let mut g = osubot::game::GameState::default();
    g.map_id = 9;
    let ok = cell.publish(g, true);
    assert!(!ok);
    assert_eq!(cell.read().map_id, 0);
    let mut g = osubot::game::GameState::default();
    g.map_id = 9;
    let ok = cell.publish(g, false);
    assert!(ok);
    assert_eq!(cell.read().map_id, 9);
}

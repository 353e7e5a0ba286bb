use osubot::codec::decode_frame;
use osubot::game::{BeatmapStatus, GameStatus};

#[test]
fn decode_full_frame() {
    let frame = r#"{
        "map_id": 123, "mapset_id": 45,
        "artist": "A", "title": "B", "creator": "C", "difficulty": "Hard",
        "stars_mods": 5.02, "ar": 9.3, "cs": 4.0, "hp": 5.5, "od": 8.7,
        "bpm": 180.5, "combo": 10, "max_combo": 727, "accuracy": 99.32,
        "score": 1000000, "hit_300": 500, "hit_100": 12, "hit_50": 1,
        "hit_geki": 100, "hit_katu": 9, "hit_miss": 2,
        "current_pp": 123.45, "ss_pp": 321.9,
        "status": 2, "beatmap_status": 4, "menu_mods": 72, "mode": 0,
        "mods_str": ["HD", "DT"],
        "beatmap_full_path": "C:\\osu\\map.osu",
        "background_path_full": "C:\\osu\\bg.jpg"
    }"#;
    let gs = decode_frame(frame).expect("frame should decode");
    assert_eq!(gs.map_id, 123);
    assert_eq!(gs.mapset_id, 45);
    assert_eq!(gs.artist, "A");
    assert_eq!(gs.title, "B");
    assert_eq!(gs.creator, "C");
    assert_eq!(gs.difficulty, "Hard");
    assert_eq!(gs.stars_mods, 502);
    assert_eq!(gs.ar, 930);
    assert_eq!(gs.cs, 400);
    assert_eq!(gs.hp, 550);
    assert_eq!(gs.od, 870);
    assert_eq!(gs.bpm, 18050);
    assert_eq!(gs.combo, 10);
    assert_eq!(gs.max_combo, 727);
    assert_eq!(gs.accuracy, 9932);
    assert_eq!(gs.score, 1000000);
    assert_eq!(gs.hit_300, 500);
    assert_eq!(gs.hit_100, 12);
    assert_eq!(gs.hit_50, 1);
    assert_eq!(gs.hit_geki, 100);
    assert_eq!(gs.hit_katu, 9);
    assert_eq!(gs.hit_miss, 2);
    assert_eq!(gs.current_pp, 12345);
    assert_eq!(gs.ss_pp, 32190);
    assert_eq!(gs.status, GameStatus::Playing);
    assert_eq!(gs.beatmap_status, BeatmapStatus::Ranked);
    assert_eq!(gs.menu_mods.bits(), 72);
    assert_eq!(gs.mode, 0);
    assert_eq!(gs.mods_str, vec!["HD".to_string(), "DT".to_string()]);
    assert_eq!(gs.beatmap_full_path, "C:\\osu\\map.osu");
    assert_eq!(gs.background_path_full, "C:\\osu\\bg.jpg");
}

#[test]
fn decode_skips_unknown_keys() {
    let frame = r#"{"skin": "x", "plays": 3, "nested": {"a": [1, 2, {"b": null}]},
        "flags": [true, false, null], "map_id": 7}"#;
    let gs = decode_frame(frame).expect("frame should decode");
    assert_eq!(gs.map_id, 7);
}

#[test]
fn decode_missing_keys_stay_default() {
    let gs = decode_frame("{}").expect("empty object decodes to the default state");
    assert_eq!(gs.map_id, 0);
    assert_eq!(gs.artist, "");
    assert_eq!(gs.status, GameStatus::Unknown);
    assert_eq!(gs.mods_str, Vec::<String>::new());
}

#[test]
fn decode_string_escapes() {
    let frame = r#"{"artist": "a\"b\\c\/d\ne\u0041"}"#;
    let gs = decode_frame(frame).expect("escapes should decode");
    assert_eq!(gs.artist, "a\"b\\c/d\neA");
}

#[test]
fn decode_unknown_status_code_maps_to_unknown() {
    let gs = decode_frame(r#"{"status": 99}"#).expect("frame should decode");
    assert_eq!(gs.status, GameStatus::Unknown);
    let gs = decode_frame(r#"{"status": -3}"#).expect("frame should decode");
    assert_eq!(gs.status, GameStatus::Unknown);
}

#[test]
fn decode_rejects_malformed_frames() {
    assert!(decode_frame("").is_err());
    assert!(decode_frame("   ").is_err());
    assert!(decode_frame("[1, 2]").is_err());
    assert!(decode_frame("{").is_err());
    assert!(decode_frame(r#"{"map_id": }"#).is_err());
    assert!(decode_frame(r#"{"map_id": 1"#).is_err());
    assert!(decode_frame(r#"{"map_id": 1} trailing"#).is_err());
    assert!(decode_frame(r#"{"artist": "unterminated}"#).is_err());
}

#[test]
fn decode_rejects_exponent_notation() {
    assert!(decode_frame(r#"{"stars_mods": 5e2}"#).is_err());
    assert!(decode_frame(r#"{"stars_mods": 5.0E2}"#).is_err());
}

#[test]
fn decode_rejects_out_of_range_numbers() {
    assert!(decode_frame(r#"{"map_id": 3000000000}"#).is_err());
    assert!(decode_frame(r#"{"combo": 40000}"#).is_err());
    assert!(decode_frame(r#"{"map_id": 1.5}"#).is_err());
    assert!(decode_frame(r#"{"stars_mods": -1.0}"#).is_err());
    assert!(decode_frame(r#"{"mode": 256}"#).is_err());
}

#[test]
fn decode_whole_number_as_hundredths() {
    let gs = decode_frame(r#"{"stars_mods": 6}"#).expect("whole stars decode");
    assert_eq!(gs.stars_mods, 600);
    let gs = decode_frame(r#"{"stars_mods": 6.999}"#).expect("long fraction decodes");
    // digits beyond the second are discarded
    assert_eq!(gs.stars_mods, 699);
}

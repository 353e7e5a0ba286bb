//! The game-state record that one telemetry frame describes.
//!
//! Fractional quantities of the feed (star rating, approach rate, BPM,
//! accuracy, performance values) are carried as integers in hundredths,
//! so that every field is a plain value that contracts can speak about.

use vstd::prelude::*;

verus! {

/// Where the tracked play session currently is.
#[derive(Clone, Copy, Debug, PartialEq, Eq, Structural)]
pub enum GameStatus {
    PreSongSelect,
    Playing,
    SongSelect,
    EditorSongSelect,
    ResultsScreen,
    MultiplayerLobbySelect,
    MultiplayerLobby,
    MultiplayerResultsScreen,
    Unknown,
}

/// The status code the telemetry feed uses for each `GameStatus`;
/// codes outside the table mean `Unknown`.
pub open spec fn spec_status_from_code(code: int) -> GameStatus {
    if code == 0 {
        GameStatus::PreSongSelect
    } else if code == 2 {
        GameStatus::Playing
    } else if code == 5 {
        GameStatus::SongSelect
    } else if code == 4 {
        GameStatus::EditorSongSelect
    } else if code == 7 {
        GameStatus::ResultsScreen
    } else if code == 11 {
        GameStatus::MultiplayerLobbySelect
    } else if code == 12 {
        GameStatus::MultiplayerLobby
    } else if code == 14 {
        GameStatus::MultiplayerResultsScreen
    } else {
        GameStatus::Unknown
    }
}

pub fn status_from_code(code: u64) -> (s: GameStatus)
    ensures
        s == spec_status_from_code(code as int),
{
    if code == 0 {
        GameStatus::PreSongSelect
    } else if code == 2 {
        GameStatus::Playing
    } else if code == 5 {
        GameStatus::SongSelect
    } else if code == 4 {
        GameStatus::EditorSongSelect
    } else if code == 7 {
        GameStatus::ResultsScreen
    } else if code == 11 {
        GameStatus::MultiplayerLobbySelect
    } else if code == 12 {
        GameStatus::MultiplayerLobby
    } else if code == 14 {
        GameStatus::MultiplayerResultsScreen
    } else {
        GameStatus::Unknown
    }
}

/// Ranking state of the tracked beatmap.
#[derive(Clone, Copy, Debug, PartialEq, Eq, Structural)]
pub enum BeatmapStatus {
    Unknown,
    Unsubmitted,
    Unranked,
    Unused,
    Ranked,
    Approved,
    Qualified,
    Loved,
}

/// The status code the telemetry feed uses for each `BeatmapStatus`;
/// codes outside the table mean `Unknown`.
pub open spec fn spec_beatmap_status_from_code(code: int) -> BeatmapStatus {
    if code == 1 {
        BeatmapStatus::Unsubmitted
    } else if code == 2 {
        BeatmapStatus::Unranked
    } else if code == 3 {
        BeatmapStatus::Unused
    } else if code == 4 {
        BeatmapStatus::Ranked
    } else if code == 5 {
        BeatmapStatus::Approved
    } else if code == 6 {
        BeatmapStatus::Qualified
    } else if code == 7 {
        BeatmapStatus::Loved
    } else {
        BeatmapStatus::Unknown
    }
}

pub fn beatmap_status_from_code(code: u64) -> (s: BeatmapStatus)
    ensures
        s == spec_beatmap_status_from_code(code as int),
{
    if code == 1 {
        BeatmapStatus::Unsubmitted
    } else if code == 2 {
        BeatmapStatus::Unranked
    } else if code == 3 {
        BeatmapStatus::Unused
    } else if code == 4 {
        BeatmapStatus::Ranked
    } else if code == 5 {
        BeatmapStatus::Approved
    } else if code == 6 {
        BeatmapStatus::Qualified
    } else if code == 7 {
        BeatmapStatus::Loved
    } else {
        BeatmapStatus::Unknown
    }
}

/// The active modifier bit-set, as the feed reports it.
#[derive(Clone, Copy, Debug, PartialEq, Eq, Structural)]
pub struct Mods(pub u32);

impl Mods {
    pub fn none() -> (m: Mods)
        ensures
            m.0 == 0,
    {
        Mods(0)
    }

    pub fn bits(&self) -> (b: u32)
        ensures
            b == self.0,
    {
        self.0
    }
}

/// Mathematical image of a `GameState`: integers, character sequences,
/// and the two status enumerations.
pub ghost struct GameStateView {
    pub map_id: int,
    pub mapset_id: int,
    pub artist: Seq<char>,
    pub title: Seq<char>,
    pub creator: Seq<char>,
    pub difficulty: Seq<char>,
    pub stars_mods: int,
    pub ar: int,
    pub cs: int,
    pub hp: int,
    pub od: int,
    pub bpm: int,
    pub combo: int,
    pub max_combo: int,
    pub accuracy: int,
    pub score: int,
    pub hit_300: int,
    pub hit_100: int,
    pub hit_50: int,
    pub hit_geki: int,
    pub hit_katu: int,
    pub hit_miss: int,
    pub current_pp: int,
    pub ss_pp: int,
    pub status: GameStatus,
    pub beatmap_status: BeatmapStatus,
    pub menu_mods: int,
    pub mods_str: Seq<Seq<char>>,
    pub mode: int,
    pub beatmap_full_path: Seq<char>,
    pub background_path_full: Seq<char>,
}

/// One complete snapshot of the tracked play session, produced wholesale
/// from one decoded telemetry frame; the default value stands for
/// "no data yet".
///
/// `stars_mods`, `ar`, `cs`, `hp`, `od`, `bpm`, `accuracy`, `current_pp`
/// and `ss_pp` are in hundredths of their natural unit.
pub struct GameState {
    pub map_id: i32,
    pub mapset_id: i32,
    pub artist: String,
    pub title: String,
    pub creator: String,
    pub difficulty: String,
    pub stars_mods: u64,
    pub ar: u32,
    pub cs: u32,
    pub hp: u32,
    pub od: u32,
    pub bpm: u64,
    pub combo: i16,
    pub max_combo: i16,
    pub accuracy: u32,
    pub score: i32,
    pub hit_300: i16,
    pub hit_100: i16,
    pub hit_50: i16,
    pub hit_geki: i16,
    pub hit_katu: i16,
    pub hit_miss: i16,
    pub current_pp: u64,
    pub ss_pp: u64,
    pub status: GameStatus,
    pub beatmap_status: BeatmapStatus,
    pub menu_mods: Mods,
    pub mods_str: Vec<String>,
    pub mode: u8,
    pub beatmap_full_path: String,
    pub background_path_full: String,
}

impl View for GameState {
    type V = GameStateView;

    open spec fn view(&self) -> GameStateView {
        GameStateView {
            map_id: self.map_id as int,
            mapset_id: self.mapset_id as int,
            artist: self.artist@,
            title: self.title@,
            creator: self.creator@,
            difficulty: self.difficulty@,
            stars_mods: self.stars_mods as int,
            ar: self.ar as int,
            cs: self.cs as int,
            hp: self.hp as int,
            od: self.od as int,
            bpm: self.bpm as int,
            combo: self.combo as int,
            max_combo: self.max_combo as int,
            accuracy: self.accuracy as int,
            score: self.score as int,
            hit_300: self.hit_300 as int,
            hit_100: self.hit_100 as int,
            hit_50: self.hit_50 as int,
            hit_geki: self.hit_geki as int,
            hit_katu: self.hit_katu as int,
            hit_miss: self.hit_miss as int,
            current_pp: self.current_pp as int,
            ss_pp: self.ss_pp as int,
            status: self.status,
            beatmap_status: self.beatmap_status,
            menu_mods: self.menu_mods.0 as int,
            mods_str: self.mods_str.deep_view(),
            mode: self.mode as int,
            beatmap_full_path: self.beatmap_full_path@,
            background_path_full: self.background_path_full@,
        }
    }
}

/// The "no data yet" snapshot: zero everywhere, empty text,
/// unknown statuses, no modifiers.
pub open spec fn spec_default_state() -> GameStateView {
    GameStateView {
        map_id: 0,
        mapset_id: 0,
        artist: Seq::<char>::empty(),
        title: Seq::<char>::empty(),
        creator: Seq::<char>::empty(),
        difficulty: Seq::<char>::empty(),
        stars_mods: 0,
        ar: 0,
        cs: 0,
        hp: 0,
        od: 0,
        bpm: 0,
        combo: 0,
        max_combo: 0,
        accuracy: 0,
        score: 0,
        hit_300: 0,
        hit_100: 0,
        hit_50: 0,
        hit_geki: 0,
        hit_katu: 0,
        hit_miss: 0,
        current_pp: 0,
        ss_pp: 0,
        status: GameStatus::Unknown,
        beatmap_status: BeatmapStatus::Unknown,
        menu_mods: 0,
        mods_str: Seq::<Seq<char>>::empty(),
        mode: 0,
        beatmap_full_path: Seq::<char>::empty(),
        background_path_full: Seq::<char>::empty(),
    }
}

impl Default for GameState {
    fn default() -> (g: GameState)
        ensures
            g@ == spec_default_state(),
    {
        let g = GameState {
            map_id: 0,
            mapset_id: 0,
            artist: String::new(),
            title: String::new(),
            creator: String::new(),
            difficulty: String::new(),
            stars_mods: 0,
            ar: 0,
            cs: 0,
            hp: 0,
            od: 0,
            bpm: 0,
            combo: 0,
            max_combo: 0,
            accuracy: 0,
            score: 0,
            hit_300: 0,
            hit_100: 0,
            hit_50: 0,
            hit_geki: 0,
            hit_katu: 0,
            hit_miss: 0,
            current_pp: 0,
            ss_pp: 0,
            status: GameStatus::Unknown,
            beatmap_status: BeatmapStatus::Unknown,
            menu_mods: Mods(0),
            mods_str: Vec::new(),
            mode: 0,
            beatmap_full_path: String::new(),
            background_path_full: String::new(),
        };
        proof {
            assert(g@.mods_str =~= Seq::<Seq<char>>::empty());
        }
        g
    }
}

impl Clone for GameState {
    fn clone(&self) -> (g: GameState)
        ensures
            g@ == self@,
    {
        GameState {
            map_id: self.map_id,
            mapset_id: self.mapset_id,
            artist: self.artist.clone(),
            title: self.title.clone(),
            creator: self.creator.clone(),
            difficulty: self.difficulty.clone(),
            stars_mods: self.stars_mods,
            ar: self.ar,
            cs: self.cs,
            hp: self.hp,
            od: self.od,
            bpm: self.bpm,
            combo: self.combo,
            max_combo: self.max_combo,
            accuracy: self.accuracy,
            score: self.score,
            hit_300: self.hit_300,
            hit_100: self.hit_100,
            hit_50: self.hit_50,
            hit_geki: self.hit_geki,
            hit_katu: self.hit_katu,
            hit_miss: self.hit_miss,
            current_pp: self.current_pp,
            ss_pp: self.ss_pp,
            status: self.status,
            beatmap_status: self.beatmap_status,
            menu_mods: self.menu_mods,
            mods_str: clone_strings(&self.mods_str),
            mode: self.mode,
            beatmap_full_path: self.beatmap_full_path.clone(),
            background_path_full: self.background_path_full.clone(),
        }
    }
}

/// Field-for-field copy of a list of strings.
fn clone_strings(v: &Vec<String>) -> (r: Vec<String>)
    ensures
        r@ == v@,
{
    let mut r: Vec<String> = Vec::new();
    let mut i: usize = 0;
    while i < v.len()
        invariant
            i <= v.len(),
            r@ == v@.subrange(0, i as int),
        decreases v.len() - i,
    {
        r.push(v[i].clone());
        i = i + 1;
    }
    proof {
        assert(r@ =~= v@);
    }
    r
}

} // verus!

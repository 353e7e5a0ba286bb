//! Command parsing, dispatch, and reply formatting.
//!
//! One inbound chat message is parsed into a command (prefix stripped,
//! name case-folded, arguments split on whitespace), resolved against a
//! fixed alias table, and turned into the reply and the optional relayed
//! request that the surrounding process then sends.

use vstd::prelude::*;

use crate::game::GameState;
use crate::game::GameStateView;
use crate::text::append_all;
use crate::text::centi_string;
use crate::text::has_prefix;
use crate::text::i32_string;
use crate::text::join_from;
use crate::text::lower;
use crate::text::spec_centi_seq;
use crate::text::spec_concat;
use crate::text::spec_has_prefix;
use crate::text::spec_int_seq;
use crate::text::spec_join_from;
use crate::text::spec_lower;
use crate::text::spec_lower_char;
use crate::text::spec_nat_seq;
use crate::text::spec_tokens;
use crate::text::str_eq;
use crate::text::tokens;
use crate::text::u64_string;

verus! {

use vstd::string::StrSliceExecFns;
use vstd::string::StringExecFns;

/// One parsed chat command: the case-folded name and the arguments in
/// order.  Lives for a single dispatch.
pub struct ChatCommand {
    pub name: String,
    pub args: Vec<String>,
}

/// Mathematical image of a [`ChatCommand`].
pub ghost struct CommandView {
    pub name: Seq<char>,
    pub args: Seq<Seq<char>>,
}

impl View for ChatCommand {
    type V = CommandView;

    open spec fn view(&self) -> CommandView {
        CommandView { name: self.name@, args: self.args.deep_view() }
    }
}

/// The commands the dispatcher knows.
#[derive(Clone, Copy, Debug, PartialEq, Eq, Structural)]
pub enum CommandKind {
    /// Format the current map, modifiers and star rating.
    NowPlaying,
    /// As `NowPlaying`, plus performance estimates at fixed accuracies.
    NowPlayingPp,
    /// Forward a beatmap request over the relay.
    Request,
    /// Reply "Pong!" unconditionally.
    Ping,
}

/// The alias table: exact match on the case-folded name.
pub open spec fn spec_resolve(name: Seq<char>) -> Option<CommandKind> {
    if name == "np"@ || name == "nowplaying"@ || name == "nowplay"@ || name == "map"@ {
        Some(CommandKind::NowPlaying)
    } else if name == "nppp"@ || name == "nowplayingpp"@ || name == "nowplaypp"@ || name
        == "mappp"@ {
        Some(CommandKind::NowPlayingPp)
    } else if name == "rq"@ || name == "req"@ || name == "request"@ {
        Some(CommandKind::Request)
    } else if name == "ping"@ {
        Some(CommandKind::Ping)
    } else {
        None
    }
}

pub fn resolve(name: &str) -> (r: Option<CommandKind>)
    ensures
        r == spec_resolve(name@),
{
    if str_eq(name, "np") || str_eq(name, "nowplaying") || str_eq(name, "nowplay") || str_eq(
        name,
        "map",
    ) {
        Some(CommandKind::NowPlaying)
    } else if str_eq(name, "nppp") || str_eq(name, "nowplayingpp") || str_eq(name, "nowplaypp")
        || str_eq(name, "mappp") {
        Some(CommandKind::NowPlayingPp)
    } else if str_eq(name, "rq") || str_eq(name, "req") || str_eq(name, "request") {
        Some(CommandKind::Request)
    } else if str_eq(name, "ping") {
        Some(CommandKind::Ping)
    } else {
        None
    }
}

/// What one chat message parses to: `None` when the message is
/// action-formatted, lacks the prefix, or holds no command name.
pub open spec fn spec_parse_command(
    t: Seq<char>,
    is_action: bool,
    prefix: Seq<char>,
) -> Option<CommandView> {
    if is_action {
        None
    } else if !spec_has_prefix(t, prefix) {
        None
    } else {
        let toks = spec_tokens(t.subrange(prefix.len() as int, t.len() as int));
        if toks.len() == 0 {
            None
        } else {
            Some(
                CommandView {
                    name: spec_lower(toks[0]),
                    args: toks.subrange(1, toks.len() as int),
                },
            )
        }
    }
}

/// Parse one chat message: reject action-formatted text, strip the
/// configured prefix, split the rest on whitespace, and case-fold the
/// first token into the command name.
pub fn parse_command(text: &str, is_action: bool, prefix: &str) -> (r: Option<ChatCommand>)
    ensures
        ({
            let s = spec_parse_command(text@, is_action, prefix@);
            match r {
                None => s is None,
                Some(c) => s == Some(c@),
            }
        }),
{
    if is_action {
        return None;
    }
    if !has_prefix(text, prefix) {
        return None;
    }
    let nt = text.unicode_len();
    let np = prefix.unicode_len();
    let rest = text.substring_char(np, nt);
    let toks = tokens(rest);
    if toks.len() == 0 {
        proof {
            assert(spec_tokens(text@.subrange(prefix@.len() as int, text@.len() as int)).len()
                == 0);
        }
        return None;
    }
    let name = lower(toks[0].as_str());
    let mut args: Vec<String> = Vec::new();
    let mut i: usize = 1;
    while i < toks.len()
        invariant
            1 <= i <= toks.len(),
            args.deep_view() == toks.deep_view().subrange(1, i as int),
        decreases toks.len() - i,
    {
        let ghost prev = args.deep_view();
        args.push(toks[i].clone());
        proof {
            assert(args.deep_view() =~= prev.push(toks.deep_view()[i as int]));
            assert(prev.push(toks.deep_view()[i as int]) =~= toks.deep_view().subrange(
                1,
                i + 1,
            ));
        }
        i = i + 1;
    }
    proof {
        assert(args.deep_view() =~= toks.deep_view().subrange(1, toks.deep_view().len() as int));
    }
    Some(ChatCommand { name, args })
}

/// A beatmap request to forward over the relay network.
pub struct RelayRequest {
    pub beatmap_id: String,
    pub beatmap_name: String,
    pub note: String,
}

/// Mathematical image of a [`RelayRequest`].
pub ghost struct RelayRequestView {
    pub beatmap_id: Seq<char>,
    pub beatmap_name: Seq<char>,
    pub note: Seq<char>,
}

impl View for RelayRequest {
    type V = RelayRequestView;

    open spec fn view(&self) -> RelayRequestView {
        RelayRequestView {
            beatmap_id: self.beatmap_id@,
            beatmap_name: self.beatmap_name@,
            note: self.note@,
        }
    }
}

/// What dispatching one command asks the surrounding process to do.
pub enum Outcome {
    /// Send nothing.
    NoReply,
    /// Reply with this text.
    Reply(String),
    /// Reply with this text and forward this request over the relay.
    ReplyAndRelay(String, RelayRequest),
    /// Compute performance estimates first, then reply via `pp_reply`.
    NeedsPerformance,
}

/// Mathematical image of an [`Outcome`].
pub ghost enum OutcomeView {
    NoReply,
    Reply(Seq<char>),
    ReplyAndRelay(Seq<char>, RelayRequestView),
    NeedsPerformance,
}

impl View for Outcome {
    type V = OutcomeView;

    open spec fn view(&self) -> OutcomeView {
        match self {
            Outcome::NoReply => OutcomeView::NoReply,
            Outcome::Reply(s) => OutcomeView::Reply(s@),
            Outcome::ReplyAndRelay(s, q) => OutcomeView::ReplyAndRelay(s@, q@),
            Outcome::NeedsPerformance => OutcomeView::NeedsPerformance,
        }
    }
}

/// The now-playing line: map link, artist, title, difficulty, active
/// modifiers, and the star rating with two decimals.
pub open spec fn spec_np_reply(gs: GameStateView) -> Seq<char> {
    "osu.ppy.sh/b/"@ + spec_int_seq(gs.map_id) + " "@ + gs.artist + " - "@ + gs.title + " ["@
        + gs.difficulty + "] + "@ + spec_concat(gs.mods_str) + " "@ + spec_centi_seq(
        gs.stars_mods,
    ) + "★"@
}

pub fn np_reply(gs: &GameState) -> (r: String)
    ensures
        r@ == spec_np_reply(gs@),
{
    let mut s = String::from_str("osu.ppy.sh/b/");
    let map_id = i32_string(gs.map_id);
    s.append(map_id.as_str());
    s.append(" ");
    s.append(gs.artist.as_str());
    s.append(" - ");
    s.append(gs.title.as_str());
    s.append(" [");
    s.append(gs.difficulty.as_str());
    s.append("] + ");
    append_all(&mut s, &gs.mods_str);
    s.append(" ");
    let stars = centi_string(gs.stars_mods);
    s.append(stars.as_str());
    s.append("★");
    proof {
        assert(s@ =~= spec_np_reply(gs@));
    }
    s
}

/// The display name of the tracked beatmap: artist, title, difficulty,
/// star rating.
pub open spec fn spec_beatmap_name(gs: GameStateView) -> Seq<char> {
    gs.artist + " - "@ + gs.title + " ["@ + gs.difficulty + "] "@ + spec_centi_seq(gs.stars_mods)
        + "★"@
}

pub fn beatmap_name(gs: &GameState) -> (r: String)
    ensures
        r@ == spec_beatmap_name(gs@),
{
    let mut s = String::new();
    s.append(gs.artist.as_str());
    s.append(" - ");
    s.append(gs.title.as_str());
    s.append(" [");
    s.append(gs.difficulty.as_str());
    s.append("] ");
    let stars = centi_string(gs.stars_mods);
    s.append(stars.as_str());
    s.append("★");
    proof {
        assert(s@ =~= spec_beatmap_name(gs@));
    }
    s
}

/// The confirmation sent back after forwarding a request.
pub open spec fn spec_request_reply(gs: GameStateView) -> Seq<char> {
    "Added request "@ + spec_beatmap_name(gs) + " osu.ppy.sh/b/"@ + spec_int_seq(gs.map_id)
}

pub fn request_reply(gs: &GameState) -> (r: String)
    ensures
        r@ == spec_request_reply(gs@),
{
    let mut s = String::from_str("Added request ");
    let name = beatmap_name(gs);
    s.append(name.as_str());
    s.append(" osu.ppy.sh/b/");
    let map_id = i32_string(gs.map_id);
    s.append(map_id.as_str());
    proof {
        assert(s@ =~= spec_request_reply(gs@));
    }
    s
}

/// What one resolved command produces, given the snapshot and whether a
/// relay client is configured.
pub open spec fn spec_dispatch(
    cmd: CommandView,
    gs: GameStateView,
    relay_present: bool,
) -> OutcomeView {
    match spec_resolve(cmd.name) {
        None => OutcomeView::NoReply,
        Some(CommandKind::Ping) => OutcomeView::Reply("Pong!"@),
        Some(CommandKind::NowPlaying) => OutcomeView::Reply(spec_np_reply(gs)),
        Some(CommandKind::NowPlayingPp) => OutcomeView::NeedsPerformance,
        Some(CommandKind::Request) => {
            if !relay_present || cmd.args.len() == 0 {
                OutcomeView::NoReply
            } else {
                OutcomeView::ReplyAndRelay(
                    spec_request_reply(gs),
                    RelayRequestView {
                        beatmap_id: cmd.args[0],
                        beatmap_name: spec_beatmap_name(gs),
                        note: spec_join_from(cmd.args, 1),
                    },
                )
            }
        },
    }
}

/// Dispatch one parsed command against one snapshot.
///
/// A `request` needs a configured relay client and at least one argument
/// (the target beatmap identifier); otherwise it produces nothing, and
/// in particular nothing is relayed.
pub fn dispatch(cmd: &ChatCommand, gs: &GameState, relay_present: bool) -> (r: Outcome)
    ensures
        r@ == spec_dispatch(cmd@, gs@, relay_present),
{
    match resolve(cmd.name.as_str()) {
        None => Outcome::NoReply,
        Some(CommandKind::Ping) => Outcome::Reply(String::from_str("Pong!")),
        Some(CommandKind::NowPlaying) => Outcome::Reply(np_reply(gs)),
        Some(CommandKind::NowPlayingPp) => Outcome::NeedsPerformance,
        Some(CommandKind::Request) => {
            if !relay_present {
                Outcome::NoReply
            } else if cmd.args.len() == 0 {
                Outcome::NoReply
            } else {
                let id = cmd.args[0].clone();
                let name = beatmap_name(gs);
                let note = join_from(&cmd.args, 1);
                Outcome::ReplyAndRelay(
                    request_reply(gs),
                    RelayRequest { beatmap_id: id, beatmap_name: name, note },
                )
            }
        },
    }
}

/// What handling one raw chat message produces.
pub open spec fn spec_handle(
    t: Seq<char>,
    is_action: bool,
    prefix: Seq<char>,
    gs: GameStateView,
    relay_present: bool,
) -> OutcomeView {
    match spec_parse_command(t, is_action, prefix) {
        None => OutcomeView::NoReply,
        Some(c) => spec_dispatch(c, gs, relay_present),
    }
}

/// Handle one raw chat message end to end: parse, dispatch, format.
pub fn handle_message(
    text: &str,
    is_action: bool,
    prefix: &str,
    gs: &GameState,
    relay_present: bool,
) -> (r: Outcome)
    ensures
        r@ == spec_handle(text@, is_action, prefix@, gs@, relay_present),
{
    match parse_command(text, is_action, prefix) {
        None => Outcome::NoReply,
        Some(cmd) => dispatch(&cmd, gs, relay_present),
    }
}

/// Estimated performance values, in whole performance points, at the six
/// fixed accuracy thresholds.
pub struct PpEstimates {
    pub pp100: u64,
    pub pp99: u64,
    pub pp98: u64,
    pub pp97: u64,
    pub pp96: u64,
    pub pp95: u64,
}

/// Mathematical image of a [`PpEstimates`].
pub ghost struct PpEstimatesView {
    pub pp100: int,
    pub pp99: int,
    pub pp98: int,
    pub pp97: int,
    pub pp96: int,
    pub pp95: int,
}

impl View for PpEstimates {
    type V = PpEstimatesView;

    open spec fn view(&self) -> PpEstimatesView {
        PpEstimatesView {
            pp100: self.pp100 as int,
            pp99: self.pp99 as int,
            pp98: self.pp98 as int,
            pp97: self.pp97 as int,
            pp96: self.pp96 as int,
            pp95: self.pp95 as int,
        }
    }
}

/// The now-playing line extended with the six performance estimates.
pub open spec fn spec_pp_reply(gs: GameStateView, pp: PpEstimatesView) -> Seq<char> {
    spec_np_reply(gs) + " | 100%: "@ + spec_nat_seq(pp.pp100) + "pp | 99%: "@ + spec_nat_seq(
        pp.pp99,
    ) + "pp | 98%: "@ + spec_nat_seq(pp.pp98) + "pp | 97%: "@ + spec_nat_seq(pp.pp97)
        + "pp | 96%: "@ + spec_nat_seq(pp.pp96) + "pp | 95%: "@ + spec_nat_seq(pp.pp95) + "pp"@
}

/// Format the now-playing-with-performance reply from estimates the
/// caller computed (the performance collaborator is external).
pub fn pp_reply(gs: &GameState, pp: &PpEstimates) -> (r: String)
    ensures
        r@ == spec_pp_reply(gs@, pp@),
{
    let mut s = np_reply(gs);
    s.append(" | 100%: ");
    let v100 = u64_string(pp.pp100);
    s.append(v100.as_str());
    s.append("pp | 99%: ");
    let v99 = u64_string(pp.pp99);
    s.append(v99.as_str());
    s.append("pp | 98%: ");
    let v98 = u64_string(pp.pp98);
    s.append(v98.as_str());
    s.append("pp | 97%: ");
    let v97 = u64_string(pp.pp97);
    s.append(v97.as_str());
    s.append("pp | 96%: ");
    let v96 = u64_string(pp.pp96);
    s.append(v96.as_str());
    s.append("pp | 95%: ");
    let v95 = u64_string(pp.pp95);
    s.append(v95.as_str());
    s.append("pp");
    proof {
        assert(s@ =~= spec_pp_reply(gs@, pp@));
    }
    s
}

/// How to obtain the best-case performance value: reuse the one cached in
/// the snapshot, or compute it fresh from the beatmap file and modifiers.
#[derive(Clone, Copy, Debug, PartialEq, Eq, Structural)]
pub enum PpPlan {
    UseCached,
    ComputeFresh,
}

/// The cached best-case value is used exactly when the snapshot carries a
/// non-zero one.
pub fn pp_plan(gs: &GameState) -> (r: PpPlan)
    ensures
        r == (if gs@.ss_pp != 0 {
            PpPlan::UseCached
        } else {
            PpPlan::ComputeFresh
        }),
{
    if gs.ss_pp != 0 {
        PpPlan::UseCached
    } else {
        PpPlan::ComputeFresh
    }
}

/// Whole performance points nearest to `n` hundredths (halves round up).
pub fn centi_round(n: u64) -> (r: u64)
    ensures
        r == n as int / 100 + (if n as int % 100 >= 50 {
            1int
        } else {
            0int
        }),
{
    n / 100 + (if n % 100 >= 50 {
        1
    } else {
        0
    })
}

/// Law: a message that does not start with the configured prefix never
/// triggers any handler, even when it spells a known command name.
pub proof fn lemma_prefix_required(
    t: Seq<char>,
    is_action: bool,
    prefix: Seq<char>,
    gs: GameStateView,
    relay_present: bool,
)
    requires
        !spec_has_prefix(t, prefix),
    ensures
        spec_handle(t, is_action, prefix, gs, relay_present) == OutcomeView::NoReply,
{
}

/// Law: an action-formatted message never triggers any handler.
pub proof fn lemma_action_ignored(
    t: Seq<char>,
    prefix: Seq<char>,
    gs: GameStateView,
    relay_present: bool,
)
    ensures
        spec_handle(t, true, prefix, gs, relay_present) == OutcomeView::NoReply,
{
}

/// Law: dispatch is case-insensitive — two spellings of a command name
/// that fold to the same word dispatch identically.  Parsing always
/// folds the name (see `spec_parse_command`), so this covers every raw
/// spelling.
pub proof fn lemma_case_insensitive(
    w1: Seq<char>,
    w2: Seq<char>,
    args: Seq<Seq<char>>,
    gs: GameStateView,
    relay_present: bool,
)
    requires
        spec_lower(w1) == spec_lower(w2),
    ensures
        spec_dispatch(CommandView { name: spec_lower(w1), args }, gs, relay_present)
            == spec_dispatch(CommandView { name: spec_lower(w2), args }, gs, relay_present),
{
}

/// Law: case-folding is idempotent, so a parsed name is already folded
/// and folding it again changes nothing.
pub proof fn lemma_lower_idempotent(s: Seq<char>)
    ensures
        spec_lower(spec_lower(s)) == spec_lower(s),
{
    assert forall|i: int| 0 <= i < s.len() implies spec_lower_char(spec_lower_char(s[i]))
        == spec_lower_char(s[i]) by {
    }
    assert(spec_lower(spec_lower(s)) =~= spec_lower(s));
}

/// Law: `ping` replies "Pong!" whatever the snapshot holds, the zero
/// snapshot included.
pub proof fn lemma_ping_always_pongs(
    args: Seq<Seq<char>>,
    gs: GameStateView,
    relay_present: bool,
)
    ensures
        spec_dispatch(CommandView { name: "ping"@, args }, gs, relay_present)
            == OutcomeView::Reply("Pong!"@),
{
    reveal_strlit("ping");
    reveal_strlit("np");
    reveal_strlit("nowplaying");
    reveal_strlit("nowplay");
    reveal_strlit("map");
    reveal_strlit("nppp");
    reveal_strlit("nowplayingpp");
    reveal_strlit("nowplaypp");
    reveal_strlit("mappp");
    reveal_strlit("rq");
    reveal_strlit("req");
    reveal_strlit("request");
    assert("ping"@.len() == 4);
    assert("np"@.len() == 2);
    assert("nowplaying"@.len() == 10);
    assert("nowplay"@.len() == 7);
    assert("map"@.len() == 3);
    assert("nppp"@.len() == 4);
    assert("nowplayingpp"@.len() == 12);
    assert("nowplaypp"@.len() == 9);
    assert("mappp"@.len() == 5);
    assert("rq"@.len() == 2);
    assert("req"@.len() == 3);
    assert("request"@.len() == 7);
    assert("ping"@[0] == 'p');
    assert("nppp"@[0] == 'n');
}

/// Law: with no relay client configured, a request command produces no
/// reply and nothing to relay.
pub proof fn lemma_request_without_relay(
    name: Seq<char>,
    args: Seq<Seq<char>>,
    gs: GameStateView,
)
    requires
        spec_resolve(name) == Some(CommandKind::Request),
    ensures
        spec_dispatch(CommandView { name, args }, gs, false) == OutcomeView::NoReply,
{
}

} // verus!

//! The immutable configuration records read once at startup, and the
//! normalization of the chat login token.
//!
//! Reading and deserializing the configuration file is I/O and stays in
//! the surrounding process; it hands the parsed records over as plain
//! values.

use vstd::prelude::*;

use crate::text::has_prefix;
use crate::text::spec_has_prefix;

verus! {

use vstd::string::StrSliceExecFns;
use vstd::string::StringExecFns;

/// Login and command settings for the primary chat network.
pub struct TwitchConfig {
    pub name: String,
    pub token: String,
    pub prefix: String,
    pub channel: String,
}

/// Settings for the relay network.  Enabling beatmap requests takes the
/// flag plus a name and a password; everything else is optional.
pub struct OsuConfig {
    pub beatmap_requests: bool,
    pub server: String,
    pub name: Option<String>,
    pub player: Option<String>,
    pub password: Option<String>,
}

/// The whole configuration file.
pub struct BotConfig {
    pub twitch: TwitchConfig,
    pub osu: OsuConfig,
}

/// The relay server used when the configuration names none.
pub fn default_server() -> (s: String)
    ensures
        s@ == "irc.ppy.sh"@,
{
    String::from_str("irc.ppy.sh")
}

/// The login token with every leading "oauth:" marker removed.
pub open spec fn spec_strip_oauth(t: Seq<char>) -> Seq<char>
    decreases t.len(),
{
    if spec_has_prefix(t, "oauth:"@) {
        proof {
            reveal_strlit("oauth:");
        }
        spec_strip_oauth(t.subrange(6, t.len() as int))
    } else {
        t
    }
}

/// Strip every leading "oauth:" marker from the login token.
pub fn normalize_token(t: &str) -> (r: String)
    ensures
        r@ == spec_strip_oauth(t@),
    decreases t@.len(),
{
    proof {
        reveal_strlit("oauth:");
    }
    let n = t.unicode_len();
    if n >= 6 && has_prefix(t, "oauth:") {
        let rest = t.substring_char(6, n);
        normalize_token(rest)
    } else {
        String::from_str(t)
    }
}

} // verus!

//! The relay client's decisions: whether the configuration enables the
//! relay at all, the connection settings it yields, and the exact line
//! sent for one beatmap request.
//!
//! Connecting and sending over the relay network is I/O and stays in the
//! surrounding process.

use vstd::prelude::*;

use crate::config::OsuConfig;

verus! {

use vstd::string::StringExecFns;

/// Why no relay client exists, or why a send failed.
#[derive(Debug)]
pub enum Error {
    /// No relay configuration was given at all.
    NoConfig,
    /// The configuration does not enable beatmap requests.
    RequestsDisabled,
    /// Requests are enabled but name or password is missing.
    NoLogin,
    /// The relay transport failed; the detail text comes from it.
    IrcError(String),
}

/// Everything needed to open the relay connection.
pub struct RelaySettings {
    pub nickname: String,
    pub server: String,
    pub port: u16,
    pub password: String,
    pub player: String,
    pub use_tls: bool,
}

/// Decide from the configuration whether a relay client is to be built,
/// and with which settings: requests must be enabled and name and
/// password present; the recipient defaults to the login name; the
/// server was already defaulted when the configuration was read; the
/// port and the absence of transport security are fixed.
pub fn plan_connection(cfg: Option<OsuConfig>) -> (r: Result<RelaySettings, Error>)
    ensures
        match cfg {
            None => r matches Err(Error::NoConfig),
            Some(c) => {
                if !c.beatmap_requests {
                    r matches Err(Error::RequestsDisabled)
                } else if c.name is None || c.password is None {
                    r matches Err(Error::NoLogin)
                } else {
                    r matches Ok(s) && {
                        &&& s.nickname@ == c.name->0@
                        &&& s.server@ == c.server@
                        &&& s.port == 6667
                        &&& s.password@ == c.password->0@
                        &&& s.player@ == (match c.player {
                            Some(p) => p@,
                            None => c.name->0@,
                        })
                        &&& s.use_tls == false
                    }
                }
            },
        },
{
    match cfg {
        None => Err(Error::NoConfig),
        Some(c) => {
            if !c.beatmap_requests {
                Err(Error::RequestsDisabled)
            } else {
                match (c.name, c.password) {
                    (Some(nm), Some(pw)) => {
                        let player = match c.player {
                            Some(p) => p,
                            None => nm.clone(),
                        };
                        Ok(
                            RelaySettings {
                                nickname: nm,
                                server: c.server,
                                port: 6667,
                                password: pw,
                                player,
                                use_tls: false,
                            },
                        )
                    },
                    _ => Err(Error::NoLogin),
                }
            }
        },
    }
}

/// The one-line message sent over the relay for a beatmap request: the
/// map link and display name in brackets, then the requester's note.
pub open spec fn spec_request_line(
    id: Seq<char>,
    name: Seq<char>,
    note: Seq<char>,
) -> Seq<char> {
    "[https://osu.ppy.sh/b/"@ + id + " "@ + name + "] "@ + note
}

pub fn request_line(beatmap_id: &str, beatmap_name: &str, note: &str) -> (r: String)
    ensures
        r@ == spec_request_line(beatmap_id@, beatmap_name@, note@),
{
    let mut s = String::from_str("[https://osu.ppy.sh/b/");
    s.append(beatmap_id);
    s.append(" ");
    s.append(beatmap_name);
    s.append("] ");
    s.append(note);
    proof {
        assert(s@ =~= spec_request_line(beatmap_id@, beatmap_name@, note@));
    }
    s
}

} // verus!

//! Core of a chat bot that bridges a live game-telemetry feed to a
//! chat-command interface: a listener keeps the freshest decoded snapshot
//! in a shared cell, and a dispatcher turns inbound chat messages into
//! replies and relayed beatmap requests.

pub mod cell;
pub mod codec;
pub mod config;
pub mod dispatch;
pub mod game;
pub mod listener;
pub mod relay;
pub mod text;

use vstd::prelude::*;

verus! {

/// The first fatal error of either long-lived task, as the process
/// reports it: the telemetry listener's, the relay client's, or the chat
/// dispatcher's (which reports plain text).
#[derive(Debug)]
pub enum HandleError {
    Rosu(crate::listener::Error),
    BanchoIrc(crate::relay::Error),
    Twitch(String),
}

impl From<crate::listener::Error> for HandleError {
    fn from(item: crate::listener::Error) -> (r: Self) {
        HandleError::Rosu(item)
    }
}

impl vstd::std_specs::convert::FromSpecImpl<crate::listener::Error> for HandleError {
    open spec fn obeys_from_spec() -> bool {
        true
    }

    open spec fn from_spec(t: crate::listener::Error) -> Self {
        HandleError::Rosu(t)
    }
}

impl From<crate::relay::Error> for HandleError {
    fn from(item: crate::relay::Error) -> (r: Self) {
        HandleError::BanchoIrc(item)
    }
}

impl vstd::std_specs::convert::FromSpecImpl<crate::relay::Error> for HandleError {
    open spec fn obeys_from_spec() -> bool {
        true
    }

    open spec fn from_spec(t: crate::relay::Error) -> Self {
        HandleError::BanchoIrc(t)
    }
}

impl From<String> for HandleError {
    fn from(item: String) -> (r: Self) {
        HandleError::Twitch(item)
    }
}

impl vstd::std_specs::convert::FromSpecImpl<String> for HandleError {
    open spec fn obeys_from_spec() -> bool {
        true
    }

    open spec fn from_spec(t: String) -> Self {
        HandleError::Twitch(t)
    }
}

/// Combine the two long-lived tasks' results, fail-fast: the listener's
/// error wins, then the dispatcher's; the process succeeds only when
/// both tasks ended cleanly.
pub fn supervise(
    rosu: Result<(), crate::listener::Error>,
    twitch: Result<(), String>,
) -> (r: Result<(), HandleError>)
    ensures
        match rosu {
            Err(e) => r matches Err(HandleError::Rosu(e2)) && e2 == e,
            Ok(_) => match twitch {
                Err(m) => r matches Err(HandleError::Twitch(m2)) && m2 == m,
                Ok(_) => r is Ok,
            },
        },
{
    match rosu {
        Err(e) => Err(HandleError::Rosu(e)),
        Ok(_) => match twitch {
            Err(m) => Err(HandleError::Twitch(m)),
            Ok(_) => Ok(()),
        },
    }
}

} // verus!

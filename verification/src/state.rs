//! The role a coordination-service server holds within its ensemble, as
//! reported by diagnostic commands.

use crate::errors::ZK4LWError;
use crate::result::ZK4LWResult;
use crate::text::str_eq;
use vstd::prelude::*;

verus! {

/// The state of a server, as reported for example by the monitor command.
///
/// `OBSERVER` may be absent from what older servers report, but every
/// token below is decoded.
#[derive(Debug, Clone, Copy, PartialEq, Eq, Structural)]
pub enum ZK4LWServerState {
    LEADER,
    FOLLOWER,
    OBSERVER,
    STANDALONE,
}

/// The state a token denotes, or `None` for an unknown token.
pub open spec fn state_of_token(s: Seq<char>) -> Option<ZK4LWServerState> {
    if s == "leader"@ {
        Some(ZK4LWServerState::LEADER)
    } else if s == "follower"@ {
        Some(ZK4LWServerState::FOLLOWER)
    } else if s == "observer"@ {
        Some(ZK4LWServerState::OBSERVER)
    } else if s == "standalone"@ {
        Some(ZK4LWServerState::STANDALONE)
    } else {
        None
    }
}

/// The lowercase token that denotes `st`.
pub open spec fn state_token(st: ZK4LWServerState) -> Seq<char> {
    match st {
        ZK4LWServerState::LEADER => "leader"@,
        ZK4LWServerState::FOLLOWER => "follower"@,
        ZK4LWServerState::OBSERVER => "observer"@,
        ZK4LWServerState::STANDALONE => "standalone"@,
    }
}

/// Every state's token decodes back to that state.
pub proof fn lemma_state_token_round_trip(st: ZK4LWServerState)
    ensures
        state_of_token(state_token(st)) == Some(st),
{
    reveal_strlit("leader");
    reveal_strlit("follower");
    reveal_strlit("observer");
    reveal_strlit("standalone");
    assert("leader"@.len() == 6);
    assert("follower"@.len() == 8);
    assert("observer"@.len() == 8);
    assert("standalone"@.len() == 10);
    assert("follower"@[0] == 'f' && "observer"@[0] == 'o');
}

impl ZK4LWServerState {
    /// Parses the fixed lowercase token a server reports; an unknown token
    /// is a decode error carrying the token itself.
    pub fn from_token(s: &str) -> (r: ZK4LWResult<ZK4LWServerState>)
        ensures
            r matches Ok(st) ==> state_of_token(s@) == Some(st),
            r matches Err(e) ==> state_of_token(s@) is None && (e matches
                ZK4LWError::ParseStringError(t) && t@ == s@),
    {
        if str_eq(s, "leader") {
            Ok(ZK4LWServerState::LEADER)
        } else if str_eq(s, "follower") {
            Ok(ZK4LWServerState::FOLLOWER)
        } else if str_eq(s, "observer") {
            Ok(ZK4LWServerState::OBSERVER)
        } else if str_eq(s, "standalone") {
            Ok(ZK4LWServerState::STANDALONE)
        } else {
            Err(ZK4LWError::ParseStringError(s.to_owned()))
        }
    }

    /// The token this state is reported as.
    pub fn as_token(&self) -> (r: &'static str)
        ensures
            r@ == state_token(*self),
    {
        match self {
            ZK4LWServerState::LEADER => "leader",
            ZK4LWServerState::FOLLOWER => "follower",
            ZK4LWServerState::OBSERVER => "observer",
            ZK4LWServerState::STANDALONE => "standalone",
        }
    }
}

impl Default for ZK4LWServerState {
    /// A server out of contact with any ensemble is standalone.
    fn default() -> (r: Self)
        ensures
            r == ZK4LWServerState::STANDALONE,
    {
        ZK4LWServerState::STANDALONE
    }
}

} // verus!

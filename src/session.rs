use vstd::prelude::*;
use crate::pong::NUM_PLAYERS;

verus! {

/// Input delay, in ticks, given to the local player.
pub const LOCAL_FRAME_DELAY: u32 = 2;

/// Where a player slot is played from.
#[derive(Clone, Copy, Debug, PartialEq, Eq, Structural)]
pub enum PlayerKind {
    Local,
    /// At the network address given by the descriptor of the same index.
    Remote,
}

/// Why a player list was rejected.
#[derive(Clone, Copy, Debug, PartialEq, Eq, Structural)]
pub enum ConfigError {
    /// The list does not name exactly one descriptor per player.
    WrongPlayerCount,
}

/// How the session's player slots are to be registered.
#[derive(Debug)]
pub struct SessionPlan {
    /// Kind of each slot, by player handle.
    pub kinds: Vec<PlayerKind>,
    /// Handle of the local player whose input this process submits.
    pub local_handle: usize,
    /// Input delay for that player.
    pub frame_delay: u32,
}

/// The descriptor of a local player.
pub open spec fn is_local(d: Seq<char>) -> bool {
    d == "localhost"@
}

pub open spec fn kind_of(d: Seq<char>) -> PlayerKind {
    if is_local(d) {
        PlayerKind::Local
    } else {
        PlayerKind::Remote
    }
}

/// The last index below `n` whose descriptor is local, or 0 when there is none.
pub open spec fn last_local(ds: Seq<String>, n: int) -> int
    decreases n,
{
    if n <= 0 {
        0
    } else if is_local(ds[n - 1]@) {
        n - 1
    } else {
        last_local(ds, n - 1)
    }
}

/// Reads the ordered player list: "localhost" names the local player, anything
/// else a remote peer's address; the order fixes the handles.
pub fn plan_session(players: &Vec<String>) -> (r: Result<SessionPlan, ConfigError>)
    ensures
        r is Err <==> players@.len() != NUM_PLAYERS,
        r matches Err(e) ==> e == ConfigError::WrongPlayerCount,
        r matches Ok(plan) ==> {
            &&& plan.kinds@.len() == players@.len()
            &&& forall|i: int|
                0 <= i < players@.len() ==> plan.kinds@[i] == kind_of(#[trigger] players@[i]@)
            &&& plan.local_handle == last_local(players@, players@.len() as int)
            &&& plan.frame_delay == LOCAL_FRAME_DELAY
        },
{
    if players.len() != NUM_PLAYERS {
        return Err(ConfigError::WrongPlayerCount);
    }
    let local_name = "localhost".to_owned();
    let mut kinds: Vec<PlayerKind> = Vec::new();
    let mut local_handle: usize = 0;
    let mut i: usize = 0;
    while i < players.len()
        invariant
            0 <= i <= players@.len(),
            local_name@ == "localhost"@,
            kinds@.len() == i,
            forall|j: int| 0 <= j < i ==> kinds@[j] == kind_of(#[trigger] players@[j]@),
            local_handle == last_local(players@, i as int),
        decreases players@.len() - i,
    {
        if players[i] == local_name {
            kinds.push(PlayerKind::Local);
            local_handle = i;
        } else {
            kinds.push(PlayerKind::Remote);
        }
        i = i + 1;
    }
    Ok(SessionPlan { kinds, local_handle, frame_delay: LOCAL_FRAME_DELAY })
}

} // verus!

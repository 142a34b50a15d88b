//! The failure vocabulary shared by every operation of the library, and
//! the fixed capacity of a game.

use vstd::prelude::*;

verus! {

/// Every way an operation of the registry or of the commitment scheme
/// can fail. Each operation returns exactly one of these kinds; no
/// failure is recovered internally.
#[derive(Debug, Clone, Copy, PartialEq, Eq, Structural)]
pub enum GameError {
    /// The game already holds the maximum number of committed players.
    EnoughPlayers,
    /// Resolution was requested before both player slots were filled.
    NotEnoughPlayers,
    /// The referenced game identifier has no stored record.
    GameNotExist,
    /// The caller already committed to this game.
    AlreadyCommit,
    /// The supplied shape name does not match a known value.
    IllegalShape,
    /// The caller attempting to reveal is not a committed player.
    PlayersNotMatch,
    /// The recomputed commitment does not match the stored one.
    RevealNotMatch,
    /// A reveal was attempted before both players had committed.
    NotTimeToReveal,
    /// Resolution was attempted before both players had revealed.
    NotEnoughReveal,
}

/// A game holds exactly this many players once full.
pub const MAX_PLAYER_COUNT: usize = 2;

} // verus!

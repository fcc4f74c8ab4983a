//! The packets as the game logic sees them, free of any wire format.

use vstd::prelude::*;

pub mod client;
pub mod server;

verus! {

pub type PlayerId = usize;

pub type RoomId = usize;

#[derive(Debug, Clone, Copy, PartialEq, Eq)]
pub enum ModeratorStatus {
    Mascot,
    StealthModerator,
    Moderator,
    NotModerator,
}

impl ModeratorStatus {
    /// The number that stands for the status on the wire.
    pub open spec fn rank(self) -> nat {
        match self {
            ModeratorStatus::Mascot => 3,
            ModeratorStatus::StealthModerator => 2,
            ModeratorStatus::Moderator => 1,
            ModeratorStatus::NotModerator => 0,
        }
    }

    /// The number that stands for the status on the wire.
    pub fn wire_rank(&self) -> (out: u64)
        ensures
            out == self.rank(),
    {
        match self {
            ModeratorStatus::Mascot => 3,
            ModeratorStatus::StealthModerator => 2,
            ModeratorStatus::Moderator => 1,
            ModeratorStatus::NotModerator => 0,
        }
    }
}

} // verus!

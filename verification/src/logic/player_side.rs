use vstd::prelude::*;

verus! {

/// One of the two players. White moves first.
#[derive(Clone, Copy, Debug, PartialEq, Eq, Structural, Hash)]
pub enum PlayerSide {
    White,
    Black,
}

impl PlayerSide {
    /// The other player.
    pub open spec fn other(self) -> PlayerSide {
        match self {
            PlayerSide::White => PlayerSide::Black,
            PlayerSide::Black => PlayerSide::White,
        }
    }

    /// Returns the other player.
    pub fn opponent(self) -> (r: PlayerSide)
        ensures
            r == self.other(),
    {
        match self {
            PlayerSide::White => PlayerSide::Black,
            PlayerSide::Black => PlayerSide::White,
        }
    }
}

impl std::ops::Not for PlayerSide {
    type Output = PlayerSide;

    /// `!side` is the other player.
    fn not(self) -> (r: PlayerSide)
        ensures
            r == self.other(),
    {
        self.opponent()
    }
}

impl vstd::std_specs::ops::NotSpecImpl for PlayerSide {
    open spec fn obeys_not_spec() -> bool {
        true
    }

    open spec fn not_req(self) -> bool {
        true
    }

    open spec fn not_spec(self) -> PlayerSide {
        self.other()
    }
}

/// Taking the other player twice gives the player back, and never the
/// player itself once.
pub proof fn lemma_other_is_an_involution(side: PlayerSide)
    ensures
        side.other().other() == side,
        side.other() != side,
{
}

} // verus!

use vstd::prelude::*;
use std::time::Duration;

verus! {

/// The name of a match.
pub type GameUUID = String;

/// Who sits on a seat.
#[derive(Clone, Copy, Debug, PartialEq, Eq, Structural)]
pub enum PlayerType {
    Human,
    Computer,
}

/// Which colour the creator of a match wants.
#[derive(Clone, Copy, Debug, PartialEq, Eq, Structural)]
pub enum ColorPreference {
    AlwaysWhite,
    AlwaysBlack,
    Random,
}

/// The time that each player has, and what a move adds to it.
#[derive(Clone, Copy, Debug)]
pub struct TimeControl {
    pub time: Duration,
    pub increment: Duration,
}

/// How a match was set up.
#[derive(Debug)]
pub struct GameConfiguration {
    pub creator_name: String,
    pub opponent: PlayerType,
    pub side_selection: ColorPreference,
    pub time_control: Option<TimeControl>,
}

impl Clone for GameConfiguration {
    /// A copy with the same settings.
    fn clone(&self) -> (r: GameConfiguration)
        ensures
            r.creator_name@ == self.creator_name@,
            r.opponent == self.opponent,
            r.side_selection == self.side_selection,
            r.time_control == self.time_control,
    {
        GameConfiguration {
            creator_name: self.creator_name.clone(),
            opponent: self.opponent,
            side_selection: self.side_selection,
            time_control: self.time_control,
        }
    }
}

} // verus!

use vstd::prelude::*;
use super::game_configuration::{ColorPreference, GameConfiguration, GameUUID, PlayerType};
use super::user_uuid::UserUUID;
use crate::chance::{fresh_name, random_bool};
use vstd::string::StringExecFns;
use crate::logic::player_side::PlayerSide;

verus! {

/// One who sits on a seat.
#[derive(Clone, Copy, Debug)]
pub struct Player {
    time_left: (),
    player_type: PlayerType,
}

impl Player {
    /// A computer player.
    pub fn new_computer() -> (r: Player)
        ensures
            r.kind() == PlayerType::Computer,
    {
        Player { time_left: (), player_type: PlayerType::Computer }
    }

    /// A human player.
    pub fn new_human() -> (r: Player)
        ensures
            r.kind() == PlayerType::Human,
    {
        Player { time_left: (), player_type: PlayerType::Human }
    }

    /// Whether a human or the computer plays.
    pub closed spec fn kind(self) -> PlayerType {
        self.player_type
    }

    /// A player is known by its kind.
    pub proof fn lemma_kind_decides(self, other: Player)
        requires
            self.kind() == other.kind(),
        ensures
            self == other,
    {
    }

    /// Tells whether a human or the computer plays.
    pub fn player_type(&self) -> (r: PlayerType)
        ensures
            r == self.kind(),
    {
        self.player_type
    }
}

/// The part that someone takes in a match.
#[derive(Clone, Copy, Debug, PartialEq, Eq, Structural)]
pub enum ClientRole {
    PlayerBlack,
    PlayerWhite,
    Viewer,
}

/// A seat as the contracts see it: who sits there, and of what kind.
pub struct Seat {
    pub who: Seq<char>,
    pub kind: PlayerType,
}

/// A match and who takes part in it, as a mathematical value.
pub struct Table {
    /// The name of the match.
    pub name: Seq<char>,
    /// Who set the match up.
    pub creator: Seq<char>,
    /// Whether the match is played against the computer.
    pub opponent: PlayerType,
    /// The policy by which the first to sit down gets a colour.
    pub policy: ColorPreference,
    /// The seat of White, if taken.
    pub white: Option<Seat>,
    /// The seat of Black, if taken.
    pub black: Option<Seat>,
    /// Those who are sent every change, in the order they joined.
    pub spectators: Seq<Seq<char>>,
}

/// What joining a match came to.
#[derive(Clone, Copy, Debug, PartialEq, Eq, Structural)]
pub struct Joined {
    /// The part of the one who joined.
    pub role: ClientRole,
    /// Whether this very join filled the last free seat.
    pub filled: bool,
}

impl Table {
    /// The colour that the policy `policy` gives the first to sit down,
    /// `draw` being the draw for a random colour.
    pub open spec fn first_color(policy: ColorPreference, draw: bool) -> PlayerSide {
        match policy {
            ColorPreference::AlwaysWhite => PlayerSide::White,
            ColorPreference::AlwaysBlack => PlayerSide::Black,
            ColorPreference::Random => if draw {
                PlayerSide::White
            } else {
                PlayerSide::Black
            },
        }
    }

    /// The table with `seat` taken for `color`.
    pub open spec fn with_seat(self, color: PlayerSide, seat: Seat) -> Table {
        match color {
            PlayerSide::White => Table { white: Some(seat), ..self },
            PlayerSide::Black => Table { black: Some(seat), ..self },
        }
    }

    /// The seat of `color`, if taken.
    pub open spec fn seat(self, color: PlayerSide) -> Option<Seat> {
        match color {
            PlayerSide::White => self.white,
            PlayerSide::Black => self.black,
        }
    }

    /// The table of the new match `name` that `creator` set up. Against the
    /// computer, the computer sits down at once, on the colour that the
    /// policy leaves to it, under the creator's identity.
    pub open spec fn fresh(
        name: Seq<char>,
        creator: Seq<char>,
        opponent: PlayerType,
        policy: ColorPreference,
        draw: bool,
    ) -> Table {
        let empty = Table {
            name,
            creator,
            opponent,
            policy,
            white: None,
            black: None,
            spectators: Seq::empty(),
        };
        match opponent {
            PlayerType::Human => empty,
            PlayerType::Computer => empty.with_seat(
                Table::first_color(policy, draw).other(),
                Seat { who: creator, kind: PlayerType::Computer },
            ),
        }
    }

    /// The seat that a human `who` already has, if any.
    pub open spec fn seat_of_human(self, who: Seq<char>) -> Option<PlayerSide> {
        if self.white == Some(Seat { who, kind: PlayerType::Human }) {
            Some(PlayerSide::White)
        } else if self.black == Some(Seat { who, kind: PlayerType::Human }) {
            Some(PlayerSide::Black)
        } else {
            None
        }
    }

    /// The colour that one who joins now would be seated on, if a seat is
    /// free: the colour of the policy if both are, the free one if one is.
    pub open spec fn free_color(self, draw: bool) -> Option<PlayerSide> {
        match (self.white, self.black) {
            (None, None) => Some(Table::first_color(self.policy, draw)),
            (None, Some(_)) => Some(PlayerSide::White),
            (Some(_), None) => Some(PlayerSide::Black),
            (Some(_), Some(_)) => None,
        }
    }

    /// The part that belongs to a colour.
    pub open spec fn role_of(color: PlayerSide) -> ClientRole {
        match color {
            PlayerSide::White => ClientRole::PlayerWhite,
            PlayerSide::Black => ClientRole::PlayerBlack,
        }
    }

    /// Both seats are taken.
    pub open spec fn full(self) -> bool {
        self.white is Some && self.black is Some
    }

    /// The table after `who` has joined, and what the join came to. Whoever
    /// joins is sent every change from then on. A human who has a seat
    /// keeps it. Anyone else takes a free seat if there is one, and looks
    /// on if there is none.
    pub open spec fn join(self, who: Seq<char>, draw: bool) -> (Table, Joined) {
        let listed = Table { spectators: self.spectators.push(who), ..self };
        match self.seat_of_human(who) {
            Some(color) => (listed, Joined { role: Table::role_of(color), filled: false }),
            None => match self.free_color(draw) {
                Some(color) => {
                    let seated = listed.with_seat(color, Seat { who, kind: PlayerType::Human });
                    (seated, Joined { role: Table::role_of(color), filled: seated.full() })
                },
                None => (listed, Joined { role: ClientRole::Viewer, filled: false }),
            },
        }
    }

    /// The colour that the computer plays, if it plays.
    pub open spec fn ai_color(self) -> Option<PlayerSide> {
        if self.white matches Some(seat) && seat.kind == PlayerType::Computer {
            Some(PlayerSide::White)
        } else if self.black matches Some(seat) && seat.kind == PlayerType::Computer {
            Some(PlayerSide::Black)
        } else {
            None
        }
    }

    /// Those who take part, each with a part: the players, White first,
    /// then everyone who is sent the changes, as a viewer.
    pub open spec fn participants(self) -> Seq<(Seq<char>, ClientRole)> {
        let white = match self.white {
            Some(seat) => seq![(seat.who, ClientRole::PlayerWhite)],
            None => Seq::empty(),
        };
        let black = match self.black {
            Some(seat) => seq![(seat.who, ClientRole::PlayerBlack)],
            None => Seq::empty(),
        };
        white + black + self.spectators.map_values(|who: Seq<char>| (who, ClientRole::Viewer))
    }
}

/// A match: its name, its setup, and who takes part.
#[derive(Debug)]
pub struct Game {
    creator_uuid: UserUUID,
    game_uuid: GameUUID,
    player_white: Option<(UserUUID, Player)>,
    player_black: Option<(UserUUID, Player)>,
    spectators: Vec<UserUUID>,
    game_configuration: GameConfiguration,
}

/// The seat as the contracts see it.
pub open spec fn seat_view(seat: Option<(UserUUID, Player)>) -> Option<Seat> {
    match seat {
        Some((who, player)) => Some(Seat { who: who@, kind: player.kind() }),
        None => None,
    }
}

impl View for Game {
    type V = Table;

    closed spec fn view(&self) -> Table {
        Table {
            name: self.game_uuid@,
            creator: self.creator_uuid@,
            opponent: self.game_configuration.opponent,
            policy: self.game_configuration.side_selection,
            white: seat_view(self.player_white),
            black: seat_view(self.player_black),
            spectators: self.spectators@.map_values(|who: UserUUID| who@),
        }
    }
}

impl Game {
    /// How the match was set up.
    pub closed spec fn configuration(&self) -> GameConfiguration {
        self.game_configuration
    }

    /// The value of a match agrees with its setup.
    pub proof fn lemma_view_of_configuration(&self)
        ensures
            self@.opponent == self.configuration().opponent,
            self@.policy == self.configuration().side_selection,
    {
    }

    /// The new match `game_uuid` that `client_uuid` set up as
    /// `game_configuration` says, `draw` being the draw for a random
    /// colour.
    pub fn with_draw(
        game_uuid: GameUUID,
        client_uuid: UserUUID,
        game_configuration: GameConfiguration,
        draw: bool,
    ) -> (r: Game)
        ensures
            r@ == Table::fresh(
                game_uuid@,
                client_uuid@,
                game_configuration.opponent,
                game_configuration.side_selection,
                draw,
            ),
            r.configuration() == game_configuration,
    {
        let mut game = Game {
            creator_uuid: client_uuid.clone(),
            game_uuid,
            player_white: None,
            player_black: None,
            spectators: Vec::new(),
            game_configuration,
        };
        assert(game@.spectators =~= Seq::<Seq<char>>::empty());
        match game.game_configuration.opponent {
            PlayerType::Human => {},
            PlayerType::Computer => {
                let human = Game::color_for(game.game_configuration.side_selection, draw);
                game.seat(human.opponent(), client_uuid, Player::new_computer());
            },
        }
        game
    }

    /// The new match `game_uuid` that `client_uuid` set up as
    /// `game_configuration` says. Where the computer plays and the colours
    /// are drawn, this draws them.
    pub fn new(game_uuid: GameUUID, client_uuid: UserUUID, game_configuration: GameConfiguration) -> (r:
        Game)
        ensures
            exists|draw: bool|
                r@ == Table::fresh(
                    game_uuid@,
                    client_uuid@,
                    game_configuration.opponent,
                    game_configuration.side_selection,
                    draw,
                ),
            r.configuration() == game_configuration,
    {
        let draw = match game_configuration.side_selection {
            ColorPreference::Random => random_bool(),
            _ => false,
        };
        Game::with_draw(game_uuid, client_uuid, game_configuration, draw)
    }

    /// A new match under a fresh name, that `client_uuid` set up as
    /// `game_configuration` says.
    pub fn open(client_uuid: UserUUID, game_configuration: GameConfiguration) -> (r: Game)
        ensures
            exists|draw: bool, name: Seq<char>|
                name.len() == 32 && r@ == Table::fresh(
                    name,
                    client_uuid@,
                    game_configuration.opponent,
                    game_configuration.side_selection,
                    draw,
                ),
            r.configuration() == game_configuration,
    {
        Game::new(fresh_name(), client_uuid, game_configuration)
    }

    /// The colour that `policy` gives the first to sit down.
    fn color_for(policy: ColorPreference, draw: bool) -> (r: PlayerSide)
        ensures
            r == Table::first_color(policy, draw),
    {
        match policy {
            ColorPreference::AlwaysWhite => PlayerSide::White,
            ColorPreference::AlwaysBlack => PlayerSide::Black,
            ColorPreference::Random => {
                if draw {
                    PlayerSide::White
                } else {
                    PlayerSide::Black
                }
            },
        }
    }

    /// Seats `player` on `color` under the identity `who`.
    fn seat(&mut self, color: PlayerSide, who: UserUUID, player: Player)
        ensures
            final(self)@ == old(self)@.with_seat(color, Seat { who: who@, kind: player.kind() }),
            final(self).configuration() == old(self).configuration(),
    {
        match color {
            PlayerSide::White => {
                self.player_white = Some((who, player));
            },
            PlayerSide::Black => {
                self.player_black = Some((who, player));
            },
        }
    }

    /// Seats `player` on the colour that `color` asks for, `draw` being
    /// the draw for a random colour.
    pub fn add_with_color_pref(
        &mut self,
        client_uuid: UserUUID,
        player: Player,
        color: ColorPreference,
        draw: bool,
    )
        ensures
            final(self)@ == old(self)@.with_seat(
                Table::first_color(color, draw),
                Seat { who: client_uuid@, kind: player.kind() },
            ),
            final(self).configuration() == old(self).configuration(),
    {
        self.seat(Game::color_for(color, draw), client_uuid, player);
    }

    /// Tells whether a seat is free.
    pub fn player_slot_is_available(&self) -> (r: bool)
        ensures
            r == !self@.full(),
    {
        self.player_white.is_none() || self.player_black.is_none()
    }

    /// Tells whether both seats are taken.
    pub fn player_slots_are_taken(&self) -> (r: bool)
        ensures
            r == self@.full(),
    {
        self.player_white.is_some() && self.player_black.is_some()
    }

    /// The colour that the computer plays, if it plays.
    pub fn get_ai_color(&self) -> (r: Option<PlayerSide>)
        ensures
            r == self@.ai_color(),
    {
        match &self.player_white {
            Some(seat) => {
                if seat.1.player_type() == PlayerType::Computer {
                    return Some(PlayerSide::White);
                }
            },
            None => {},
        }
        match &self.player_black {
            Some(seat) => {
                if seat.1.player_type() == PlayerType::Computer {
                    return Some(PlayerSide::Black);
                }
            },
            None => {},
        }
        None
    }

    /// Who is to move when it is the turn of `turn`: a human, the
    /// computer, or nobody yet.
    pub fn opponent_type_turn(&self, turn: PlayerSide) -> (r: Option<PlayerType>)
        ensures
            r == match self@.seat(turn) {
                Some(seat) => Some(seat.kind),
                None => None,
            },
    {
        match turn {
            PlayerSide::White => match &self.player_white {
                Some(seat) => Some(seat.1.player_type()),
                None => None,
            },
            PlayerSide::Black => match &self.player_black {
                Some(seat) => Some(seat.1.player_type()),
                None => None,
            },
        }
    }

    /// Who sits on the seat of `color`, if it is taken.
    pub fn seat_holder(&self, color: PlayerSide) -> (r: Option<(UserUUID, Player)>)
        ensures
            seat_view(r) == self@.seat(color),
    {
        let seat = match color {
            PlayerSide::White => &self.player_white,
            PlayerSide::Black => &self.player_black,
        };
        match seat {
            Some(held) => Some((held.0.clone(), held.1)),
            None => None,
        }
    }

    /// Tells whether the computer is to move when it is the turn of
    /// `turn`.
    pub fn computer_is_to_move(&self, turn: PlayerSide) -> (r: bool)
        ensures
            r == (self@.seat(turn) matches Some(seat) && seat.kind == PlayerType::Computer),
            r ==> self@.ai_color() is Some,
    {
        match self.opponent_type_turn(turn) {
            Some(PlayerType::Computer) => true,
            _ => false,
        }
    }

    /// The seat that the human `who` has, if any.
    fn seat_of_human(&self, who: &UserUUID) -> (r: Option<PlayerSide>)
        ensures
            r == self@.seat_of_human(who@),
    {
        match &self.player_white {
            Some(seat) => {
                if seat.1.player_type() == PlayerType::Human && seat.0 == *who {
                    return Some(PlayerSide::White);
                }
            },
            None => {},
        }
        match &self.player_black {
            Some(seat) => {
                if seat.1.player_type() == PlayerType::Human && seat.0 == *who {
                    return Some(PlayerSide::Black);
                }
            },
            None => {},
        }
        None
    }

    /// The colour that one who joins now would be seated on.
    fn free_color(&self, draw: bool) -> (r: Option<PlayerSide>)
        ensures
            r == self@.free_color(draw),
    {
        match (&self.player_white, &self.player_black) {
            (None, None) => Some(Game::color_for(self.game_configuration.side_selection, draw)),
            (None, Some(_)) => Some(PlayerSide::White),
            (Some(_), None) => Some(PlayerSide::Black),
            (Some(_), Some(_)) => None,
        }
    }

    /// The part that belongs to a colour.
    fn role_of(color: PlayerSide) -> (r: ClientRole)
        ensures
            r == Table::role_of(color),
    {
        match color {
            PlayerSide::White => ClientRole::PlayerWhite,
            PlayerSide::Black => ClientRole::PlayerBlack,
        }
    }

    /// Lists `client_uuid` among those who are sent every change.
    pub fn add_spectator(&mut self, client_uuid: UserUUID)
        ensures
            final(self)@ == (Table {
                spectators: old(self)@.spectators.push(client_uuid@),
                ..old(self)@
            }),
            final(self).configuration() == old(self).configuration(),
    {
        self.spectators.push(client_uuid);
        assert(final(self)@.spectators =~= old(self)@.spectators.push(client_uuid@));
    }

    /// Seats `player` on a free seat under the identity `client_uuid`:
    /// on the colour of the policy if both are free, on the free one if
    /// one is.
    pub fn add_player(&mut self, client_uuid: UserUUID, player: Player, draw: bool)
        requires
            !old(self)@.full(),
        ensures
            old(self)@.free_color(draw) matches Some(color) && final(self)@
                == old(self)@.with_seat(color, Seat { who: client_uuid@, kind: player.kind() }),
            final(self).configuration() == old(self).configuration(),
    {
        match self.free_color(draw) {
            Some(color) => {
                self.seat(color, client_uuid, player);
            },
            None => {},
        }
    }

    /// Lets `client_uuid` join, `draw` being the draw for a random colour,
    /// and tells what part the client has from now on.
    pub fn join(&mut self, client_uuid: UserUUID, draw: bool) -> (r: Joined)
        ensures
            (final(self)@, r) == old(self)@.join(client_uuid@, draw),
            final(self).configuration() == old(self).configuration(),
    {
        let seated = self.seat_of_human(&client_uuid);
        let free = self.free_color(draw);
        self.add_spectator(client_uuid.clone());
        match seated {
            Some(color) => Joined { role: Game::role_of(color), filled: false },
            None => match free {
                Some(color) => {
                    self.seat(color, client_uuid, Player::new_human());
                    Joined { role: Game::role_of(color), filled: self.player_slots_are_taken() }
                },
                None => Joined { role: ClientRole::Viewer, filled: false },
            },
        }
    }

    /// Lets `client_uuid` join, and tells what part the client has from
    /// now on. Where the colours are drawn, this draws them.
    pub fn add_client(&mut self, client_uuid: UserUUID) -> (r: Joined)
        ensures
            exists|draw: bool|
                (final(self)@, r) == old(self)@.join(client_uuid@, draw),
            final(self).configuration() == old(self).configuration(),
    {
        let draw = match self.game_configuration.side_selection {
            ColorPreference::Random => random_bool(),
            _ => false,
        };
        self.join(client_uuid, draw)
    }

    /// Tells whether `client_uuid` is sent every change.
    pub fn is_spectator(&self, client_uuid: &UserUUID) -> (r: bool)
        ensures
            r == self@.spectators.contains(client_uuid@),
    {
        let mut k: usize = 0;
        while k < self.spectators.len()
            invariant
                0 <= k <= self.spectators.len(),
                forall|j: int| 0 <= j < k ==> self@.spectators[j] != client_uuid@,
            decreases self.spectators.len() - k,
        {
            if self.spectators[k] == *client_uuid {
                assert(self@.spectators[k as int] == client_uuid@);
                return true;
            }
            k += 1;
        }
        false
    }

    /// Those who are sent every change, in the order they joined.
    pub fn get_spectators(&self) -> (r: Vec<UserUUID>)
        ensures
            r@.map_values(|who: UserUUID| who@) == self@.spectators,
    {
        let ghost text = |who: UserUUID| who@;
        let mut r: Vec<UserUUID> = Vec::new();
        let mut k: usize = 0;
        assert(r@.map_values(text) =~= self@.spectators.take(0));
        while k < self.spectators.len()
            invariant
                0 <= k <= self.spectators.len(),
                text == (|who: UserUUID| who@),
                r@.map_values(text) == self@.spectators.take(k as int),
            decreases self.spectators.len() - k,
        {
            let ghost before = r@;
            r.push(self.spectators[k].clone());
            assert(r@.map_values(text) =~= before.map_values(text).push(
                self@.spectators[k as int],
            ));
            assert(self@.spectators.take(k + 1) =~= self@.spectators.take(k as int).push(
                self@.spectators[k as int],
            ));
            k += 1;
        }
        assert(self@.spectators.take(self.spectators.len() as int) =~= self@.spectators);
        r
    }

    /// How the match was set up.
    pub fn get_description(&self) -> (r: &GameConfiguration)
        ensures
            *r == self.configuration(),
    {
        &self.game_configuration
    }

    /// The name of the match.
    pub fn game_uuid(&self) -> (r: &GameUUID)
        ensures
            r@ == self@.name,
    {
        &self.game_uuid
    }

    /// Those who take part, each with a part: the players, White first,
    /// then everyone who is sent the changes, as a viewer.
    pub fn get_participants(&self) -> (r: Vec<(UserUUID, ClientRole)>)
        ensures
            r@.map_values(|e: (UserUUID, ClientRole)| (e.0@, e.1)) == self@.participants(),
    {
        let ghost plain = |e: (UserUUID, ClientRole)| (e.0@, e.1);
        let ghost as_viewer = |who: Seq<char>| (who, ClientRole::Viewer);
        let mut r: Vec<(UserUUID, ClientRole)> = Vec::new();
        match &self.player_white {
            Some(seat) => {
                r.push((seat.0.clone(), ClientRole::PlayerWhite));
            },
            None => {},
        }
        match &self.player_black {
            Some(seat) => {
                r.push((seat.0.clone(), ClientRole::PlayerBlack));
            },
            None => {},
        }
        let ghost players = r@.map_values(plain);
        let mut k: usize = 0;
        assert(r@.map_values(plain) =~= players + self@.spectators.take(0).map_values(as_viewer));
        while k < self.spectators.len()
            invariant
                0 <= k <= self.spectators.len(),
                plain == (|e: (UserUUID, ClientRole)| (e.0@, e.1)),
                as_viewer == (|who: Seq<char>| (who, ClientRole::Viewer)),
                r@.map_values(plain) == players + self@.spectators.take(k as int).map_values(
                    as_viewer,
                ),
            decreases self.spectators.len() - k,
        {
            let ghost before = r@;
            r.push((self.spectators[k].clone(), ClientRole::Viewer));
            assert(r@.map_values(plain) =~= before.map_values(plain).push(
                (self@.spectators[k as int], ClientRole::Viewer),
            ));
            assert(self@.spectators.take(k + 1).map_values(as_viewer) =~= self@.spectators.take(
                k as int,
            ).map_values(as_viewer).push((self@.spectators[k as int], ClientRole::Viewer)));
            k += 1;
        }
        assert(self@.spectators.take(self.spectators.len() as int) =~= self@.spectators);
        assert(players =~= (match self@.white {
            Some(seat) => seq![(seat.who, ClientRole::PlayerWhite)],
            None => Seq::empty(),
        }) + (match self@.black {
            Some(seat) => seq![(seat.who, ClientRole::PlayerBlack)],
            None => Seq::empty(),
        }));
        r
    }
}

/// The name and the picture under which a player is shown: those of the
/// client if the client is known, and a placeholder for one who has left.
pub open spec fn shown_as(known: Option<(String, String)>) -> (Seq<char>, Seq<char>) {
    match known {
        Some((name, avatar)) => (name@, avatar@),
        None => ("Disconnected..."@, "xxxx"@),
    }
}

/// How the player on a seat is shown to those who look on: name, picture
/// and kind. `known` holds the name and the picture of the client on the
/// seat, if the client is still there.
pub fn participant_card(known: Option<(String, String)>, player: Player) -> (r: (
    String,
    String,
    Player,
))
    ensures
        (r.0@, r.1@) == shown_as(known),
        r.2 == player,
{
    match known {
        Some((name, avatar)) => (name, avatar, player),
        None => (String::from_str("Disconnected..."), String::from_str("xxxx"), player),
    }
}

} // verus!

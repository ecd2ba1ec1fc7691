use vstd::prelude::*;
use vstd::string::*;

verus! {

/// True when the IEEE-754 single-precision value with these bits is finite
/// (its exponent field is not all ones).
pub open spec fn is_finite_bits(b: u32) -> bool {
    (b >> 23u32) & 0xffu32 != 0xffu32
}

/// Tests whether a single-precision bit pattern encodes a finite number.
pub fn finite_bits(b: u32) -> (r: bool)
    ensures
        r == is_finite_bits(b),
{
    (b >> 23u32) & 0xffu32 != 0xffu32
}

/// A point in world space. Each coordinate is kept as the bit pattern of a
/// single-precision float, so that records can be compared and copied exactly.
#[derive(Clone, Copy, Debug, PartialEq, Eq, Structural)]
pub struct Position {
    pub x: u32,
    pub y: u32,
}

impl Position {
    pub fn new(x: u32, y: u32) -> (r: Self)
        ensures
            r.x == x,
            r.y == y,
    {
        Self { x, y }
    }
}

/// One player update as reported from outside: identity key, the two parts
/// of the character name and a 2D position.
#[derive(Clone, Debug)]
pub struct PlayerDTO {
    pub x: u32,
    pub y: u32,
    pub username: String,
    pub forename: String,
    pub surname: String,
}

/// The mathematical content of an update.
pub ghost struct PlayerDtoView {
    pub x: u32,
    pub y: u32,
    pub username: Seq<char>,
    pub forename: Seq<char>,
    pub surname: Seq<char>,
}

impl View for PlayerDTO {
    type V = PlayerDtoView;

    open spec fn view(&self) -> PlayerDtoView {
        PlayerDtoView {
            x: self.x,
            y: self.y,
            username: self.username@,
            forename: self.forename@,
            surname: self.surname@,
        }
    }
}

/// An update is accepted when its identity key is non-empty and both
/// coordinates are finite.
pub open spec fn dto_is_valid(d: PlayerDtoView) -> bool {
    d.username.len() > 0 && is_finite_bits(d.x) && is_finite_bits(d.y)
}

/// The character name shown to viewers: forename, a space, surname.
pub open spec fn character_name_of(d: PlayerDtoView) -> Seq<char> {
    d.forename + seq![' '] + d.surname
}

/// The mathematical content of a player record.
pub ghost struct PlayerView {
    pub character_name: Seq<char>,
    pub name: Seq<char>,
    pub position: Position,
    pub last_updated_at: u64,
}

/// The record that an update produces at time `now`.
pub open spec fn record_of(d: PlayerDtoView, now: u64) -> PlayerView {
    PlayerView {
        character_name: character_name_of(d),
        name: d.username,
        position: Position { x: d.x, y: d.y },
        last_updated_at: now,
    }
}

impl PlayerDTO {
    pub fn new(username: String, forename: String, surname: String, x: u32, y: u32) -> (r: Self)
        ensures
            r@ == (PlayerDtoView { x, y, username: username@, forename: forename@, surname: surname@ }),
    {
        PlayerDTO { x, y, username, forename, surname }
    }

    /// Checks the update: non-empty identity key, finite coordinates.
    pub fn is_valid(&self) -> (r: bool)
        ensures
            r == dto_is_valid(self@),
    {
        !self.username.as_str().is_empty() && finite_bits(self.x) && finite_bits(self.y)
    }
}

/// A player's record: character name, identity key, position and the
/// (internal, never shown) tick of its last update. Immutable once built.
#[derive(Clone, Debug)]
pub struct Player {
    pub(crate) character_name: String,
    pub(crate) name: String,
    pub(crate) position: Position,
    pub(crate) last_updated_at: u64,
}

impl View for Player {
    type V = PlayerView;

    open(crate) spec fn view(&self) -> PlayerView {
        PlayerView {
            character_name: self.character_name@,
            name: self.name@,
            position: self.position,
            last_updated_at: self.last_updated_at,
        }
    }
}

impl Player {
    /// Builds the record of an update, stamped with `now`.
    pub fn from_dto(player: &PlayerDTO, now: u64) -> (r: Self)
        ensures
            r@ == record_of(player@, now),
    {
        proof {
            reveal_strlit(" ");
        }
        let mut character_name = player.forename.clone();
        character_name.append(" ");
        character_name.append(player.surname.as_str());
        assert(character_name@ =~= character_name_of(player@));
        Self {
            position: Position::new(player.x, player.y),
            name: player.username.clone(),
            character_name,
            last_updated_at: now,
        }
    }

    /// A copy of the record whose view is the same.
    pub fn duplicate(&self) -> (r: Self)
        ensures
            r@ == self@,
    {
        Player {
            character_name: self.character_name.clone(),
            name: self.name.clone(),
            position: self.position,
            last_updated_at: self.last_updated_at,
        }
    }

    pub fn character_name(&self) -> (r: &String)
        ensures
            r@ == self@.character_name,
    {
        &self.character_name
    }

    pub fn name(&self) -> (r: &String)
        ensures
            r@ == self@.name,
    {
        &self.name
    }

    pub fn position(&self) -> (r: Position)
        ensures
            r == self@.position,
    {
        self.position
    }

    pub fn last_updated_at(&self) -> (r: u64)
        ensures
            r == self@.last_updated_at,
    {
        self.last_updated_at
    }
}

} // verus!

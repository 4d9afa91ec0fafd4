//! Catalogue identifiers, lifecycle states and the stored records.

use crate::text::{
    clone_optional, clone_strings, decimal_text, parse_u32, u32_reading, u32_text,
};
use crate::time::Timestamp;
use vstd::prelude::*;
use vstd::std_specs::convert::{FromSpecImpl, TryFromSpecImpl};

verus! {

/// Compares two string slices; `str::eq` of the standard library, which is
/// true exactly when both hold the same characters.
pub assume_specification[ <str as PartialEq>::eq ](a: &str, b: &str) -> (r: bool)
    ensures
        r == (a@ == b@),
;

/// The number under which the catalogue lists a game.
#[derive(Clone, Copy, Debug, PartialEq, Eq, Hash, Structural)]
pub struct GameId {
    pub app_id: u32,
}

/// Why a text is no identifier.
#[derive(Clone, Copy, Debug, PartialEq, Eq, Structural)]
pub enum InvalidGameId {
    /// The text is not a decimal number that fits 32 bits.
    FromString,
}

impl InvalidGameId {
    /// The message for this error.
    pub fn message(&self) -> (s: String)
        ensures
            s@ == "Could not convert string to u32"@,
    {
        "Could not convert string to u32".to_owned()
    }
}

impl GameId {
    /// The identifier that `text` writes, if it writes one.
    pub open spec fn reading(text: Seq<char>) -> Result<GameId, InvalidGameId> {
        match u32_reading(text) {
            Some(n) => Ok(GameId { app_id: n }),
            None => Err(InvalidGameId::FromString),
        }
    }

    /// The decimal text of this identifier.
    pub open spec fn text(self) -> Seq<char> {
        decimal_text(self.app_id as nat)
    }

    /// Writes the identifier in decimal.
    pub fn to_text(&self) -> (s: String)
        ensures
            s@ == self.text(),
    {
        u32_text(self.app_id)
    }
}

impl From<u32> for GameId {
    fn from(u: u32) -> (id: GameId) {
        GameId { app_id: u }
    }
}

impl FromSpecImpl<u32> for GameId {
    open spec fn obeys_from_spec() -> bool {
        true
    }

    open spec fn from_spec(u: u32) -> GameId {
        GameId { app_id: u }
    }
}

impl TryFrom<&str> for GameId {
    type Error = InvalidGameId;

    fn try_from(s: &str) -> (r: Result<GameId, InvalidGameId>) {
        match parse_u32(s) {
            Some(n) => Ok(GameId { app_id: n }),
            None => Err(InvalidGameId::FromString),
        }
    }
}

impl TryFromSpecImpl<&str> for GameId {
    open spec fn obeys_try_from_spec() -> bool {
        true
    }

    open spec fn try_from_spec(s: &str) -> Result<GameId, InvalidGameId> {
        GameId::reading(s@)
    }
}

impl From<GameId> for String {
    fn from(id: GameId) -> (s: String)
        ensures
            s@ == id.text(),
    {
        id.to_text()
    }
}

impl FromSpecImpl<GameId> for String {
    open spec fn obeys_from_spec() -> bool {
        false
    }

    open spec fn from_spec(id: GameId) -> String {
        arbitrary()
    }
}

impl From<GameId> for i64 {
    fn from(id: GameId) -> (n: i64) {
        id.app_id as i64
    }
}

impl FromSpecImpl<GameId> for i64 {
    open spec fn obeys_from_spec() -> bool {
        true
    }

    open spec fn from_spec(id: GameId) -> i64 {
        id.app_id as i64
    }
}

/// Where a game stands in its owner's play-through, as the notes label it.
/// A label that is none of the known ones is kept as it came.
#[derive(Debug, PartialEq)]
pub enum GameState {
    Completed,
    InProgress,
    NoRelease,
    PlayAgain,
    PlaySoon,
    Released,
    Tried,
    Upcoming,
    Other(String),
}

impl GameState {
    /// The label under which the notes show this state.
    pub open spec fn label(self) -> Seq<char> {
        match self {
            GameState::Completed => "Completed"@,
            GameState::InProgress => "In progress"@,
            GameState::NoRelease => "No release"@,
            GameState::PlayAgain => "Play again"@,
            GameState::PlaySoon => "Play soon"@,
            GameState::Released => "Released"@,
            GameState::Tried => "Tried"@,
            GameState::Upcoming => "Upcoming"@,
            GameState::Other(s) => s@,
        }
    }

    /// The state that a label stands for.
    pub open spec fn of_label(s: String) -> GameState {
        if s@ == "Completed"@ {
            GameState::Completed
        } else if s@ == "In progress"@ {
            GameState::InProgress
        } else if s@ == "No release"@ {
            GameState::NoRelease
        } else if s@ == "Play again"@ {
            GameState::PlayAgain
        } else if s@ == "Play soon"@ {
            GameState::PlaySoon
        } else if s@ == "Released"@ {
            GameState::Released
        } else if s@ == "Tried"@ {
            GameState::Tried
        } else if s@ == "Upcoming"@ {
            GameState::Upcoming
        } else {
            GameState::Other(s)
        }
    }

    /// Whether a game in this state is out: every state but `NoRelease`
    /// and `Upcoming`.
    pub open spec fn released(self) -> bool {
        !(self is NoRelease) && !(self is Upcoming)
    }

    /// Whether a game in this state is out. The states that say no are
    /// looked at again on every pass.
    pub fn is_released(&self) -> (r: bool)
        ensures
            r == self.released(),
            r == !(*self is NoRelease || *self is Upcoming),
    {
        match self {
            GameState::NoRelease => false,
            GameState::Upcoming => false,
            _ => true,
        }
    }

    /// The label of this state as a string.
    pub fn to_label(&self) -> (s: String)
        ensures
            s@ == self.label(),
    {
        match self {
            GameState::Completed => "Completed".to_owned(),
            GameState::InProgress => "In progress".to_owned(),
            GameState::NoRelease => "No release".to_owned(),
            GameState::PlayAgain => "Play again".to_owned(),
            GameState::PlaySoon => "Play soon".to_owned(),
            GameState::Released => "Released".to_owned(),
            GameState::Tried => "Tried".to_owned(),
            GameState::Upcoming => "Upcoming".to_owned(),
            GameState::Other(s) => s.clone(),
        }
    }
}

impl Clone for GameState {
    fn clone(&self) -> (r: GameState)
        ensures
            r == *self,
    {
        match self {
            GameState::Completed => GameState::Completed,
            GameState::InProgress => GameState::InProgress,
            GameState::NoRelease => GameState::NoRelease,
            GameState::PlayAgain => GameState::PlayAgain,
            GameState::PlaySoon => GameState::PlaySoon,
            GameState::Released => GameState::Released,
            GameState::Tried => GameState::Tried,
            GameState::Upcoming => GameState::Upcoming,
            GameState::Other(s) => GameState::Other(s.clone()),
        }
    }
}

impl From<String> for GameState {
    fn from(s: String) -> (r: GameState) {
        let t = s.as_str();
        if *t == *"Completed" {
            GameState::Completed
        } else if *t == *"In progress" {
            GameState::InProgress
        } else if *t == *"No release" {
            GameState::NoRelease
        } else if *t == *"Play again" {
            GameState::PlayAgain
        } else if *t == *"Play soon" {
            GameState::PlaySoon
        } else if *t == *"Released" {
            GameState::Released
        } else if *t == *"Tried" {
            GameState::Tried
        } else if *t == *"Upcoming" {
            GameState::Upcoming
        } else {
            GameState::Other(s)
        }
    }
}

impl FromSpecImpl<String> for GameState {
    open spec fn obeys_from_spec() -> bool {
        true
    }

    open spec fn from_spec(s: String) -> GameState {
        GameState::of_label(s)
    }
}

impl From<GameState> for String {
    fn from(state: GameState) -> (s: String)
        ensures
            s@ == state.label(),
    {
        match state {
            GameState::Other(s) => s,
            other => other.to_label(),
        }
    }
}

impl FromSpecImpl<GameState> for String {
    open spec fn obeys_from_spec() -> bool {
        false
    }

    open spec fn from_spec(state: GameState) -> String {
        arbitrary()
    }
}

/// A copy of an optional state.
pub fn clone_state(o: &Option<GameState>) -> (r: Option<GameState>)
    ensures
        r == *o,
{
    match o {
        Some(s) => Some(s.clone()),
        None => None,
    }
}

/// What the notes say of one game, as the store keeps it.
#[derive(Debug, PartialEq)]
pub struct NotedGame {
    pub note_id: String,
    pub app_id: Option<GameId>,
    pub state: Option<GameState>,
    pub tags: Vec<String>,
    pub my_rating: Option<u8>,
    pub notes: Option<String>,
    pub first_noted: Timestamp,
}

impl NotedGame {
    /// Whether `other` holds what this record holds, field by field.
    pub open spec fn same_as(self, other: NotedGame) -> bool {
        &&& self.note_id == other.note_id
        &&& self.app_id == other.app_id
        &&& self.state == other.state
        &&& self.tags@ == other.tags@
        &&& self.my_rating == other.my_rating
        &&& self.notes == other.notes
        &&& self.first_noted == other.first_noted
    }
}

impl Clone for NotedGame {
    fn clone(&self) -> (r: NotedGame)
        ensures
            self.same_as(r),
    {
        NotedGame {
            note_id: self.note_id.clone(),
            app_id: self.app_id,
            state: clone_state(&self.state),
            tags: clone_strings(&self.tags),
            my_rating: self.my_rating,
            notes: clone_optional(&self.notes),
            first_noted: self.first_noted,
        }
    }
}

/// How long a game has been played, as the library provider reports it.
/// `playtime` is in whole seconds.
#[derive(Clone, Copy, Debug, PartialEq, Eq, Structural)]
pub struct SteamPlaytime {
    pub id: GameId,
    pub playtime: u64,
    pub last_played: Timestamp,
}

/// One row of the playtime history. `playtime` is in whole seconds.
#[derive(Clone, Copy, Debug, PartialEq, Eq, Structural)]
pub struct PlayedGame {
    pub id: GameId,
    pub playtime: u64,
    pub last_played: Timestamp,
    pub recorded: Timestamp,
}

/// The details that the store keeps of one game.
#[derive(Debug, PartialEq)]
pub struct GameDetails {
    pub id: GameId,
    pub description: Option<String>,
    pub controller_support: Option<String>,
    pub coop: bool,
    pub local_coop: bool,
    pub metacritic_percent: Option<u8>,
    pub is_released: bool,
    pub release_date: Option<String>,
    pub release_estimate: Option<Timestamp>,
    pub recorded: Timestamp,
}

impl Clone for GameDetails {
    fn clone(&self) -> (r: GameDetails)
        ensures
            r == *self,
    {
        GameDetails {
            id: self.id,
            description: clone_optional(&self.description),
            controller_support: clone_optional(&self.controller_support),
            coop: self.coop,
            local_coop: self.local_coop,
            metacritic_percent: self.metacritic_percent,
            is_released: self.is_released,
            release_date: clone_optional(&self.release_date),
            release_estimate: self.release_estimate,
            recorded: self.recorded,
        }
    }
}

/// A noted game that the store has found to be out, and whose note still
/// says otherwise.
#[derive(Debug, PartialEq)]
pub struct ReleasedGame {
    pub note_id: String,
    pub game_id: GameId,
}

/// A game on the wish list. `deleted` is set when the game has left the
/// list; the row itself stays.
#[derive(Clone, Copy, Debug, PartialEq, Eq, Structural)]
pub struct WishlistedGame {
    pub id: GameId,
    pub wishlisted: Timestamp,
    pub deleted: Option<Timestamp>,
}

/// A label read as a state and written again is the label it was, known
/// or not.
pub proof fn lemma_state_label_round_trip(s: String)
    ensures
        GameState::of_label(s).label() == s@,
{
}

/// Writing an identifier and reading the text back gives the identifier.
pub proof fn lemma_game_id_round_trip(id: GameId)
    ensures
        GameId::reading(id.text()) == Ok::<GameId, InvalidGameId>(id),
{
    crate::text::lemma_decimal_text_reads_back(id.app_id as nat);
}

} // verus!

//! What the library provider answers, field by field.

use vstd::prelude::*;

verus! {

/// One owned game: its number, the minutes played in all, and the second
/// since the epoch at which it was last played.
#[derive(Clone, Copy, Debug, PartialEq, Eq, Structural)]
pub struct SteamOwnedGame {
    pub appid: u32,
    pub playtime_forever: u64,
    pub rtime_last_played: u64,
}

/// The games of one account.
#[derive(Debug, PartialEq)]
pub struct SteamOwnedGames {
    pub game_count: u32,
    pub games: Vec<SteamOwnedGame>,
}

/// The answer to a question for the games of one account.
#[derive(Debug, PartialEq)]
pub struct SteamOwnedGamesResponse {
    pub response: SteamOwnedGames,
}

/// The answer to a question for the whole catalogue.
#[derive(Debug, PartialEq)]
pub struct SteamAllGamesResponse {
    pub applist: SteamApplist,
}

/// The catalogue.
#[derive(Debug, PartialEq)]
pub struct SteamApplist {
    pub apps: Vec<SteamAppIdPair>,
}

/// One game of the catalogue.
#[derive(Debug, PartialEq)]
pub struct SteamAppIdPair {
    pub appid: u32,
    pub name: String,
}

impl Clone for SteamAppIdPair {
    fn clone(&self) -> (r: SteamAppIdPair)
        ensures
            r == *self,
    {
        SteamAppIdPair { appid: self.appid, name: self.name.clone() }
    }
}

/// The answer to a question for the details of games: one entry for each
/// game, under the game's number as text.
#[derive(Debug, PartialEq)]
pub struct SteamAppDetailsResponse {
    pub results: Vec<(String, SteamAppDetailsResponseEntry)>,
}

/// The entry of one game in such an answer.
#[derive(Debug, PartialEq)]
pub struct SteamAppDetailsResponseEntry {
    pub data: SteamAppDetails,
}

/// The details of one game as the library provider gives them.
#[derive(Debug, PartialEq)]
pub struct SteamAppDetails {
    pub short_description: Option<String>,
    pub controller_support: Option<String>,
    pub categories: Vec<Category>,
    pub metacritic: Option<MetacriticScore>,
    pub release_date: Option<ReleaseDate>,
}

/// A category that a game is filed under.
#[derive(Debug, PartialEq)]
pub struct Category {
    pub id: u32,
    pub description: String,
}

/// When a game comes out, as written, and whether it is still to come.
#[derive(Debug, PartialEq)]
pub struct ReleaseDate {
    pub coming_soon: bool,
    pub date: String,
}

/// The score of a game, from 0 to 100.
#[derive(Clone, Copy, Debug, PartialEq, Eq, Structural)]
pub struct MetacriticScore {
    pub score: u8,
}

/// One game of a wish list and the second since the epoch at which it was
/// put there.
#[derive(Clone, Copy, Debug, PartialEq, Eq, Structural)]
pub struct SteamWishlistItem {
    pub appid: u32,
    pub date_added: i64,
}

/// The wish list of one account.
#[derive(Debug, PartialEq)]
pub struct SteamWishlist {
    pub items: Vec<SteamWishlistItem>,
}

/// The answer to a question for the wish list of one account.
#[derive(Debug, PartialEq)]
pub struct SteamWishlistResponse {
    pub response: SteamWishlist,
}

} // verus!

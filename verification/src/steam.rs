//! What the library provider sends, turned into the records of the store.

pub mod conv;

use crate::models::game::{GameDetails, GameId, SteamPlaytime, WishlistedGame};
use crate::models::steam::{
    SteamAppDetailsResponse, SteamAppDetailsResponseEntry, SteamAppIdPair, SteamOwnedGame,
    SteamOwnedGamesResponse, SteamWishlistItem, SteamWishlistResponse,
};
use crate::db::table::{find, lemma_position, position};
use crate::steam::conv::{details_from, extract_game_details};
use crate::text::{parse_u32, u32_reading};
use crate::time::{epoch_instant, utc_from_epoch, Timestamp};
use vstd::prelude::*;

verus! {

/// Why the library provider gave no answer that could be used. Each case
/// holds the message of what went wrong.
#[derive(Debug, PartialEq)]
pub enum SteamError {
    /// The request failed.
    Http(String),
    /// The answer could not be read off the connection.
    Io(String),
    /// The answer is not what was asked for.
    Json(String),
    /// The answer holds a value that cannot be taken over.
    Conv(String),
}

/// The games of an account.
pub trait SteamPlayerServiceHandling {
    /// The games that the account owns.
    fn get_owned_games(&self, account_id: &str) -> Result<Vec<GameId>, SteamError>;

    /// How long the account has played each of its games.
    fn get_played_games(&self, account_id: &str) -> Result<Vec<SteamPlaytime>, SteamError>;
}

/// The catalogue.
pub trait SteamAppsServiceHandling {
    /// Every game of the catalogue.
    fn get_all_games(&self) -> Result<Vec<SteamAppIdPair>, SteamError>;
}

/// The details of games.
pub trait SteamAppDetailsHandling {
    /// The details of the given games, and the games of which none could
    /// be had.
    fn get_game_details(&self, ids: &Vec<GameId>) -> Result<
        (Vec<GameDetails>, Vec<GameId>),
        SteamError,
    >;
}

/// The wish list of an account.
pub trait SteamWishlistHandling {
    /// The games that the account wishes for.
    fn get_wishlist(&self, account_id: &str) -> Result<Vec<WishlistedGame>, SteamError>;
}

/// All that the library provider is asked for.
pub trait SteamHandling: SteamPlayerServiceHandling + SteamAppsServiceHandling + SteamAppDetailsHandling + SteamWishlistHandling {

}

/// Where the library provider is reached, and the key to ask with.
#[derive(Debug, PartialEq)]
pub struct SteamClient {
    pub api_key: String,
    pub api_host: String,
    pub store_host: String,
}

impl SteamClient {
    /// A client for the given key and hosts.
    pub fn new(api_key: &str, api_host: &str, store_host: &str) -> (client: SteamClient)
        ensures
            client.api_key@ == api_key@,
            client.api_host@ == api_host@,
            client.store_host@ == store_host@,
    {
        SteamClient {
            api_key: api_key.to_owned(),
            api_host: api_host.to_owned(),
            store_host: store_host.to_owned(),
        }
    }
}

/// The seconds in `minutes` minutes, or the most that fits.
pub open spec fn seconds_of(minutes: u64) -> u64 {
    if minutes * 60 <= u64::MAX {
        (minutes * 60) as u64
    } else {
        u64::MAX
    }
}

/// The instant `secs` seconds after the epoch, or `now` where there is no
/// such instant.
pub open spec fn last_played_at(secs: u64, now: Timestamp) -> Timestamp {
    if secs <= i64::MAX {
        match epoch_instant(secs as i64) {
            Some(t) => t,
            None => now,
        }
    } else {
        now
    }
}

/// The playtime of one game as the store reads it: minutes turned into
/// seconds, and the instant of the last play, or `now` where there is none.
pub open spec fn playtime_of(game: SteamOwnedGame, now: Timestamp) -> SteamPlaytime {
    SteamPlaytime {
        id: GameId { app_id: game.appid },
        playtime: seconds_of(game.playtime_forever),
        last_played: last_played_at(game.rtime_last_played, now),
    }
}

/// The games that an answer lists.
pub fn owned_game_ids(response: &SteamOwnedGamesResponse) -> (r: Vec<GameId>)
    ensures
        r@ == response.response.games@.map_values(
            |g: SteamOwnedGame| GameId { app_id: g.appid },
        ),
{
    let games = &response.response.games;
    let mut out: Vec<GameId> = Vec::new();
    let mut i: usize = 0;
    while i < games.len()
        invariant
            i <= games.len(),
            out@ == games@.take(i as int).map_values(
                |g: SteamOwnedGame| GameId { app_id: g.appid },
            ),
        decreases games.len() - i,
    {
        out.push(GameId { app_id: games[i].appid });
        i += 1;
        assert(out@ =~= games@.take(i as int).map_values(
            |g: SteamOwnedGame| GameId { app_id: g.appid },
        ));
    }
    assert(games@.take(i as int) =~= games@);
    out
}

/// The playtime of one game of an answer.
pub fn playtime_from(game: &SteamOwnedGame, now: Timestamp) -> (r: SteamPlaytime)
    ensures
        r == playtime_of(*game, now),
{
    let playtime: u64 = if game.playtime_forever <= u64::MAX / 60 {
        game.playtime_forever * 60
    } else {
        u64::MAX
    };
    let last_played = if game.rtime_last_played <= i64::MAX as u64 {
        match utc_from_epoch(game.rtime_last_played as i64) {
            Some(t) => t,
            None => now,
        }
    } else {
        now
    };
    SteamPlaytime { id: GameId { app_id: game.appid }, playtime, last_played }
}

/// The playtime of the games that an answer lists.
pub fn played_games(response: &SteamOwnedGamesResponse, now: Timestamp) -> (r: Vec<SteamPlaytime>)
    ensures
        r@ == response.response.games@.map_values(|g: SteamOwnedGame| playtime_of(g, now)),
{
    let games = &response.response.games;
    let mut out: Vec<SteamPlaytime> = Vec::new();
    let mut i: usize = 0;
    while i < games.len()
        invariant
            i <= games.len(),
            out@ == games@.take(i as int).map_values(|g: SteamOwnedGame| playtime_of(g, now)),
        decreases games.len() - i,
    {
        out.push(playtime_from(&games[i], now));
        i += 1;
        assert(out@ =~= games@.take(i as int).map_values(
            |g: SteamOwnedGame| playtime_of(g, now),
        ));
    }
    assert(games@.take(i as int) =~= games@);
    out
}

/// The row of the wish list that an item of an answer stands for, where
/// its date is an instant.
pub open spec fn wish_of(item: SteamWishlistItem) -> Option<WishlistedGame> {
    match epoch_instant(item.date_added) {
        Some(t) => Some(
            WishlistedGame { id: GameId { app_id: item.appid }, wishlisted: t, deleted: None },
        ),
        None => None,
    }
}

/// Whether the date of every item is an instant.
pub open spec fn all_dated(items: Seq<SteamWishlistItem>) -> bool {
    forall|i: int| 0 <= i < items.len() ==> wish_of(#[trigger] items[i]) is Some
}

/// The rows of the wish list that an answer stands for. The answer is
/// refused as a whole where the date of an item is no instant.
pub fn wishlist_items(response: &SteamWishlistResponse) -> (r: Result<
    Vec<WishlistedGame>,
    SteamError,
>)
    ensures
        r is Ok <==> all_dated(response.response.items@),
        r matches Ok(rows) ==> rows@ == response.response.items@.map_values(
            |item: SteamWishlistItem| wish_of(item)->0,
        ),
        r matches Err(e) ==> e matches SteamError::Conv(m) && m@
            == "Bad unix timestamp for date_added field"@,
{
    let items = &response.response.items;
    let mut out: Vec<WishlistedGame> = Vec::new();
    let mut i: usize = 0;
    while i < items.len()
        invariant
            i <= items.len(),
            items@ == response.response.items@,
            all_dated(items@.take(i as int)),
            out@ == items@.take(i as int).map_values(|item: SteamWishlistItem| wish_of(item)->0),
        decreases items.len() - i,
    {
        match utc_from_epoch(items[i].date_added) {
            Some(t) => {
                out.push(
                    WishlistedGame {
                        id: GameId { app_id: items[i].appid },
                        wishlisted: t,
                        deleted: None,
                    },
                );
            },
            None => {
                assert(wish_of(items@[i as int]) is None);
                return Err(SteamError::Conv("Bad unix timestamp for date_added field".to_owned()));
            },
        }
        i += 1;
        proof {
            assert(out@ =~= items@.take(i as int).map_values(
                |item: SteamWishlistItem| wish_of(item)->0,
            ));
            assert forall|k: int| 0 <= k < items@.take(i as int).len() implies wish_of(
                #[trigger] items@.take(i as int)[k],
            ) is Some by {
                if k < i - 1 {
                    assert(items@.take(i - 1)[k] == items@.take(i as int)[k]);
                }
            }
        }
    }
    assert(items@.take(i as int) =~= items@);
    Ok(out)
}

/// What came back when the details of one game were asked for: the
/// answer, or nothing where it could not be read.
#[derive(Debug, PartialEq)]
pub struct DetailsAnswer {
    pub id: GameId,
    pub response: Option<SteamAppDetailsResponse>,
}

/// Whether every entry stands under a text that is an identifier.
pub open spec fn keys_read(results: Seq<(String, SteamAppDetailsResponseEntry)>) -> bool {
    forall|k: int| 0 <= k < results.len() ==> u32_reading((#[trigger] results[k]).0@) is Some
}

/// The details table after the details of one game are put in it, in the
/// place of those it held of that game.
pub open spec fn details_put(rows: Seq<GameDetails>, new: GameDetails) -> Seq<GameDetails> {
    let p = position(rows, new.id);
    if p < rows.len() {
        rows.update(p, new)
    } else {
        rows.push(new)
    }
}

/// The details after each entry of an answer is put in, in order.
pub open spec fn entries_put(
    rows: Seq<GameDetails>,
    results: Seq<(String, SteamAppDetailsResponseEntry)>,
    now: Timestamp,
) -> Seq<GameDetails>
    decreases results.len(),
{
    if results.len() == 0 {
        rows
    } else {
        let entry = results.last();
        let id = GameId { app_id: u32_reading(entry.0@)->0 };
        details_put(entries_put(rows, results.drop_last(), now), details_from(id, entry.1.data, now))
    }
}

/// The details and the failures after one answer: an answer that could not
/// be read, or that holds an entry under a text that is no identifier,
/// counts as a failure of the game asked for; of any other answer each
/// entry is put in.
pub open spec fn answer_read(
    so_far: (Seq<GameDetails>, Seq<GameId>),
    answer: DetailsAnswer,
    now: Timestamp,
) -> (Seq<GameDetails>, Seq<GameId>) {
    match answer.response {
        Some(response) => if keys_read(response.results@) {
            (entries_put(so_far.0, response.results@, now), so_far.1)
        } else {
            (so_far.0, so_far.1.push(answer.id))
        },
        None => (so_far.0, so_far.1.push(answer.id)),
    }
}

/// The details and the failures after each of `answers`, in order.
pub open spec fn answers_read(answers: Seq<DetailsAnswer>, now: Timestamp) -> (
    Seq<GameDetails>,
    Seq<GameId>,
)
    decreases answers.len(),
{
    if answers.len() == 0 {
        (Seq::empty(), Seq::empty())
    } else {
        answer_read(answers_read(answers.drop_last(), now), answers.last(), now)
    }
}

/// Whether every entry of an answer stands under an identifier.
pub fn all_keys_read(response: &SteamAppDetailsResponse) -> (r: bool)
    ensures
        r == keys_read(response.results@),
{
    let mut i: usize = 0;
    while i < response.results.len()
        invariant
            i <= response.results.len(),
            forall|k: int| 0 <= k < i ==> u32_reading((#[trigger] response.results@[k]).0@) is Some,
        decreases response.results.len() - i,
    {
        if parse_u32(response.results[i].0.as_str()).is_none() {
            return false;
        }
        i += 1;
    }
    true
}

/// Puts each entry of an answer into `rows`.
pub fn put_entries(rows: &mut Vec<GameDetails>, response: &SteamAppDetailsResponse, now: Timestamp)
    requires
        keys_read(response.results@),
    ensures
        final(rows)@ == entries_put(old(rows)@, response.results@, now),
{
    let mut i: usize = 0;
    while i < response.results.len()
        invariant
            i <= response.results.len(),
            keys_read(response.results@),
            rows@ == entries_put(old(rows)@, response.results@.take(i as int), now),
        decreases response.results.len() - i,
    {
        proof {
            assert(response.results@.take(i + 1).drop_last() =~= response.results@.take(i as int));
        }
        let entry = &response.results[i];
        assert(u32_reading(response.results@[i as int].0@) is Some);
        let id = GameId { app_id: parse_u32(entry.0.as_str()).unwrap() };
        let details = extract_game_details(&id, &entry.1.data, &now);
        proof {
            lemma_position(rows@, id);
        }
        match find(rows, id) {
            Some(p) => {
                rows.set(p, details);
            },
            None => {
                rows.push(details);
            },
        }
        i += 1;
    }
    assert(response.results@.take(i as int) =~= response.results@);
}

/// Reads the answers to the questions for the details of games: the
/// details of the games that were answered, recorded at `now`, and the
/// games of which none could be had.
pub fn collect_details(answers: &Vec<DetailsAnswer>, now: Timestamp) -> (r: (
    Vec<GameDetails>,
    Vec<GameId>,
))
    ensures
        (r.0@, r.1@) == answers_read(answers@, now),
{
    let mut details: Vec<GameDetails> = Vec::new();
    let mut failures: Vec<GameId> = Vec::new();
    let mut i: usize = 0;
    while i < answers.len()
        invariant
            i <= answers.len(),
            (details@, failures@) == answers_read(answers@.take(i as int), now),
        decreases answers.len() - i,
    {
        proof {
            assert(answers@.take(i + 1).drop_last() =~= answers@.take(i as int));
        }
        let answer = &answers[i];
        match &answer.response {
            Some(response) => {
                if all_keys_read(response) {
                    put_entries(&mut details, response, now);
                } else {
                    failures.push(answer.id);
                }
            },
            None => {
                failures.push(answer.id);
            },
        }
        i += 1;
    }
    assert(answers@.take(i as int) =~= answers@);
    (details, failures)
}

} // verus!

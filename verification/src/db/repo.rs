//! The tables of the store and the operations on each of them.

use crate::db::rules::{
    BACKFILL_LIMIT, CatalogEntry, DetailLookupFailure, FAILURE_LIMIT, OwnershipRecord,
    ReleaseUpdateLogEntry, awaits_release, blocked, candidates, catalog_with_all, details_with,
    details_with_all, entries_named, entries_of, failures_with, failures_with_all, followed_ids,
    ignored_with_all, is_out, lacks_details, live_ids, marked_row, merged_details, names_hold,
    newly_released, note_position, noted_with, noted_with_all, one_more, one_row_each_note,
    owned_with_all, pick_listed, pick_live, pick_named, pick_newly_released, pick_open_note,
    pick_release_date, pick_upcoming_note, pick_upcoming_wish, played_with_all,
    playtime_reached, reconciled, release_dates_of, snapshot_ids, upcoming_noted,
    upcoming_wishlisted, wishlist_marked, wishlist_with_new, written,
};
use crate::db::table::{
    find, has_one_row_each, holds, lemma_filter_map_step, lemma_position,
    lemma_push_keeps_one_row_each, lemma_update_keeps_one_row_each, listed, one_row_each,
    position,
};
use crate::models::game::{GameDetails, GameId, NotedGame, PlayedGame, ReleasedGame, WishlistedGame};
use crate::models::steam::SteamAppIdPair;
use crate::text::clone_optional;
use crate::time::Timestamp;
use vstd::prelude::*;

verus! {

/// Why the store gave no answer. Each case holds the message of what went
/// wrong. The tables held in memory give no such error; it is for a store
/// that is kept elsewhere.
#[derive(Debug, PartialEq)]
pub enum RepoError {
    /// The database refused.
    Postgres(String),
    /// A number of the database does not fit.
    IntConversion(String),
}

/// The store: one table for each kind of record.
pub struct Repo {
    pub steam_games: Vec<CatalogEntry>,
    pub owned_games: Vec<OwnershipRecord>,
    pub played_games: Vec<PlayedGame>,
    pub game_details: Vec<GameDetails>,
    pub blacklist: Vec<DetailLookupFailure>,
    pub noted_games: Vec<NotedGame>,
    pub wishlist: Vec<WishlistedGame>,
    pub release_updates: Vec<ReleaseUpdateLogEntry>,
    pub ignored_games: Vec<GameId>,
}

/// A store whose tables can be told to be in order.
pub trait Stored {
    /// Whether the tables are in order: what every operation asks for and
    /// leaves behind.
    spec fn ready(&self) -> bool;
}

/// The catalogue.
pub trait SteamGamesHandling: Stored {
    /// Adds the games that the catalogue does not list yet. A game that is
    /// listed keeps the name it has.
    fn insert_steam_games(&mut self, games: &Vec<SteamAppIdPair>)
        requires
            old(self).ready(),
        ensures
            final(self).ready(),
    ;

    /// The entries of the given games; none for an empty list.
    fn get_game_names_by_id(&self, ids: &Vec<GameId>) -> (r: Vec<CatalogEntry>)
        requires
            self.ready(),
    ;
}

/// The ownership table.
pub trait OwnedGamesHandling: Stored {
    /// Records that the games are owned. A game that the table holds keeps
    /// its row and its date; each other game gets one row, dated `now`.
    fn insert_owned_games(&mut self, games: &Vec<GameId>, now: Timestamp)
        requires
            old(self).ready(),
        ensures
            final(self).ready(),
    ;
}

/// The details of the games, and the count of failed attempts to get them.
pub trait GameDetailsHandling: Stored {
    /// The followed games whose details are missing and have not failed too
    /// often: not more than the limit of one pass.
    fn get_games_missing_details(&self) -> (r: Vec<GameId>)
        requires
            self.ready(),
    ;

    /// Takes in details: new games get a row, known games the new values,
    /// but for a release date or an estimate that the new values lack.
    fn insert_game_details(&mut self, details: &Vec<GameDetails>)
        requires
            old(self).ready(),
        ensures
            final(self).ready(),
    ;

    /// Counts one failure more for each of the games.
    fn mark_game_detail_failures(&mut self, games: &Vec<GameId>)
        requires
            old(self).ready(),
        ensures
            final(self).ready(),
    ;

    /// The release dates as written that the store holds of the given
    /// games; none for an empty list.
    fn get_release_dates(&self, games: &Vec<GameId>) -> (r: Vec<(GameId, String)>)
        requires
            self.ready(),
    ;
}

/// The playtime history.
pub trait PlayedGamesHandling: Stored {
    /// Adds the updates that bring a playtime which the history of the game
    /// has not reached, and says how many it added.
    fn insert_played_game_updates(&mut self, updates: &Vec<PlayedGame>) -> (count: u64)
        requires
            old(self).ready(),
        ensures
            final(self).ready(),
    ;
}

/// The notes.
pub trait NotedGamesHandling: Stored {
    /// Takes in notes: a new note gets a row, a known one the new values
    /// under the date it was first noted.
    fn insert_noted_games(&mut self, notes: Vec<NotedGame>)
        requires
            old(self).ready(),
        ensures
            final(self).ready(),
    ;

    /// The entries of the catalogue under one of the given names.
    fn get_appids_by_name(&self, names: &Vec<String>) -> (r: Vec<CatalogEntry>)
        requires
            self.ready(),
    ;

    /// The games of the notes that are still to come at `now`.
    fn get_upcoming_noted_game_ids(&self, now: Timestamp) -> (r: Vec<GameId>)
        requires
            self.ready(),
    ;

    /// The notes that say nothing final of a game that is out.
    fn get_newly_released_games(&self) -> (r: Vec<ReleasedGame>)
        requires
            self.ready(),
    ;
}

/// The wish list.
pub trait WishlistHandling: Stored {
    /// Brings the wish list in line with a snapshot taken at `now`.
    fn update_wishlist(&mut self, items: &Vec<WishlistedGame>, now: Timestamp)
        requires
            old(self).ready(),
        ensures
            final(self).ready(),
    ;

    /// The games of the wish list that are still to come at `now`.
    fn get_upcoming_wishlisted_game_ids(&self, now: Timestamp) -> (r: Vec<GameId>)
        requires
            self.ready(),
    ;
}

/// The audit trail of release dates.
pub trait ReleaseUpdateHandling: Stored {
    /// Writes down one change of a release date.
    fn insert_release_update(
        &mut self,
        game: &GameId,
        prev_text: &str,
        prev_date: &Option<Timestamp>,
        new_text: &str,
        new_date: &Option<Timestamp>,
        now: Timestamp,
    )
        requires
            old(self).ready(),
        ensures
            final(self).ready(),
    ;
}

/// The games that are to be left alone.
pub trait IgnoredGamesHandling: Stored {
    /// Adds the games to those that are ignored, each once.
    fn insert_ignored_games(&mut self, ids: &Vec<GameId>)
        requires
            old(self).ready(),
        ensures
            final(self).ready(),
    ;
}

impl Repo {
    /// Whether each table that holds one row for a game, or for a note,
    /// holds no second.
    pub open spec fn wf(&self) -> bool {
        &&& one_row_each(self.steam_games@)
        &&& one_row_each(self.owned_games@)
        &&& one_row_each(self.game_details@)
        &&& one_row_each(self.blacklist@)
        &&& one_row_each(self.wishlist@)
        &&& one_row_each(self.ignored_games@)
        &&& one_row_each_note(self.noted_games@)
    }

    /// Whether each table that holds one row for a game, or for a note,
    /// holds no second.
    pub fn is_wf(&self) -> (b: bool)
        ensures
            b == self.wf(),
    {
        has_one_row_each(&self.steam_games) && has_one_row_each(&self.owned_games)
            && has_one_row_each(&self.game_details) && has_one_row_each(&self.blacklist)
            && has_one_row_each(&self.wishlist) && has_one_row_each(&self.ignored_games)
            && has_one_row_each_note(&self.noted_games)
    }

    /// A store with nothing in it.
    pub fn new() -> (repo: Repo)
        ensures
            repo.wf(),
            repo.steam_games@.len() == 0,
            repo.owned_games@.len() == 0,
            repo.played_games@.len() == 0,
            repo.game_details@.len() == 0,
            repo.blacklist@.len() == 0,
            repo.noted_games@.len() == 0,
            repo.wishlist@.len() == 0,
            repo.release_updates@.len() == 0,
            repo.ignored_games@.len() == 0,
    {
        Repo {
            steam_games: Vec::new(),
            owned_games: Vec::new(),
            played_games: Vec::new(),
            game_details: Vec::new(),
            blacklist: Vec::new(),
            noted_games: Vec::new(),
            wishlist: Vec::new(),
            release_updates: Vec::new(),
            ignored_games: Vec::new(),
        }
    }
}

impl Stored for Repo {
    open spec fn ready(&self) -> bool {
        self.wf()
    }
}

// ---------------------------------------------------------------- catalogue

/// The catalogue keeps one entry for each game.
pub proof fn lemma_catalog_with_all_wf(rows: Seq<CatalogEntry>, games: Seq<SteamAppIdPair>)
    requires
        one_row_each(rows),
    ensures
        one_row_each(catalog_with_all(rows, games)),
    decreases games.len(),
{
    if games.len() > 0 {
        lemma_catalog_with_all_wf(rows, games.drop_last());
        let before = catalog_with_all(rows, games.drop_last());
        let id = GameId { app_id: games.last().appid };
        if !holds(before, id) {
            lemma_push_keeps_one_row_each(before, CatalogEntry { id, name: games.last().name });
        }
    }
}

/// Whether `name` is one of `names`.
pub fn name_listed(names: &Vec<String>, name: &str) -> (r: bool)
    ensures
        r == names_hold(names@, name@),
{
    let mut i: usize = 0;
    while i < names.len()
        invariant
            i <= names.len(),
            forall|k: int| 0 <= k < i ==> (#[trigger] names@[k])@ != name@,
        decreases names.len() - i,
    {
        if *names[i].as_str() == *name {
            assert(names@[i as int]@ == name@);
            return true;
        }
        i += 1;
    }
    false
}

impl SteamGamesHandling for Repo {
    fn insert_steam_games(&mut self, games: &Vec<SteamAppIdPair>)
        ensures
            final(self).steam_games@ == catalog_with_all(old(self).steam_games@, games@),
            *final(self) == (Repo { steam_games: final(self).steam_games, ..*old(self) }),
    {
        let mut i: usize = 0;
        while i < games.len()
            invariant
                i <= games.len(),
                self.steam_games@ == catalog_with_all(old(self).steam_games@, games@.take(i as int)),
                *self == (Repo { steam_games: self.steam_games, ..*old(self) }),
            decreases games.len() - i,
        {
            proof {
                assert(games@.take(i + 1).drop_last() =~= games@.take(i as int));
            }
            let id = GameId { app_id: games[i].appid };
            if find(&self.steam_games, id).is_none() {
                self.steam_games.push(CatalogEntry { id, name: games[i].name.clone() });
            }
            i += 1;
        }
        proof {
            assert(games@.take(i as int) =~= games@);
            lemma_catalog_with_all_wf(old(self).steam_games@, games@);
        }
    }

    fn get_game_names_by_id(&self, ids: &Vec<GameId>) -> (r: Vec<CatalogEntry>)
        ensures
            r@ == entries_of(self.steam_games@, ids@),
    {
        let mut out: Vec<CatalogEntry> = Vec::new();
        let mut i: usize = 0;
        while i < self.steam_games.len()
            invariant
                i <= self.steam_games.len(),
                out@ == self.steam_games@.take(i as int).filter_map(pick_listed(ids@)),
            decreases self.steam_games.len() - i,
        {
            proof {
                lemma_filter_map_step(self.steam_games@, i as int, pick_listed(ids@));
            }
            if listed(ids, self.steam_games[i].id) {
                out.push(self.steam_games[i].clone());
            }
            i += 1;
        }
        assert(self.steam_games@.take(i as int) =~= self.steam_games@);
        out
    }
}

// ---------------------------------------------------------------- ownership

/// The ownership table keeps one row for each game.
pub proof fn lemma_owned_with_all_wf(rows: Seq<OwnershipRecord>, ids: Seq<GameId>, now: Timestamp)
    requires
        one_row_each(rows),
    ensures
        one_row_each(owned_with_all(rows, ids, now)),
    decreases ids.len(),
{
    if ids.len() > 0 {
        lemma_owned_with_all_wf(rows, ids.drop_last(), now);
    }
}

impl OwnedGamesHandling for Repo {
    fn insert_owned_games(&mut self, games: &Vec<GameId>, now: Timestamp)
        ensures
            final(self).owned_games@ == owned_with_all(old(self).owned_games@, games@, now),
            *final(self) == (Repo { owned_games: final(self).owned_games, ..*old(self) }),
    {
        let mut i: usize = 0;
        while i < games.len()
            invariant
                i <= games.len(),
                self.owned_games@ == owned_with_all(
                    old(self).owned_games@,
                    games@.take(i as int),
                    now,
                ),
                *self == (Repo { owned_games: self.owned_games, ..*old(self) }),
            decreases games.len() - i,
        {
            proof {
                assert(games@.take(i + 1).drop_last() =~= games@.take(i as int));
            }
            if find(&self.owned_games, games[i]).is_none() {
                self.owned_games.push(OwnershipRecord { id: games[i], first_recorded: now });
            }
            i += 1;
        }
        proof {
            assert(games@.take(i as int) =~= games@);
            lemma_owned_with_all_wf(old(self).owned_games@, games@, now);
        }
    }
}

// ------------------------------------------------------------ ignored games

/// The list of ignored games holds each game once.
pub proof fn lemma_ignored_with_all_wf(rows: Seq<GameId>, ids: Seq<GameId>)
    requires
        one_row_each(rows),
    ensures
        one_row_each(ignored_with_all(rows, ids)),
    decreases ids.len(),
{
    if ids.len() > 0 {
        lemma_ignored_with_all_wf(rows, ids.drop_last());
    }
}

impl IgnoredGamesHandling for Repo {
    fn insert_ignored_games(&mut self, ids: &Vec<GameId>)
        ensures
            final(self).ignored_games@ == ignored_with_all(old(self).ignored_games@, ids@),
            *final(self) == (Repo { ignored_games: final(self).ignored_games, ..*old(self) }),
    {
        let mut i: usize = 0;
        while i < ids.len()
            invariant
                i <= ids.len(),
                self.ignored_games@ == ignored_with_all(
                    old(self).ignored_games@,
                    ids@.take(i as int),
                ),
                *self == (Repo { ignored_games: self.ignored_games, ..*old(self) }),
            decreases ids.len() - i,
        {
            proof {
                assert(ids@.take(i + 1).drop_last() =~= ids@.take(i as int));
            }
            if find(&self.ignored_games, ids[i]).is_none() {
                self.ignored_games.push(ids[i]);
            }
            i += 1;
        }
        proof {
            assert(ids@.take(i as int) =~= ids@);
            lemma_ignored_with_all_wf(old(self).ignored_games@, ids@);
        }
    }
}

// ----------------------------------------------------------------- playtime

/// Whether the history holds a row of the update's game with at least its
/// playtime.
pub fn has_reached(rows: &Vec<PlayedGame>, update: &PlayedGame) -> (r: bool)
    ensures
        r == playtime_reached(rows@, *update),
{
    let mut i: usize = 0;
    while i < rows.len()
        invariant
            i <= rows.len(),
            forall|k: int|
                0 <= k < i ==> !((#[trigger] rows@[k]).id == update.id && rows@[k].playtime
                    >= update.playtime),
        decreases rows.len() - i,
    {
        if rows[i].id.app_id == update.id.app_id && rows[i].playtime >= update.playtime {
            assert(rows@[i as int].id == update.id);
            return true;
        }
        i += 1;
    }
    false
}

impl PlayedGamesHandling for Repo {
    fn insert_played_game_updates(&mut self, updates: &Vec<PlayedGame>) -> (count: u64)
        ensures
            final(self).played_games@ == played_with_all(old(self).played_games@, updates@),
            *final(self) == (Repo { played_games: final(self).played_games, ..*old(self) }),
            count == final(self).played_games@.len() - old(self).played_games@.len(),
    {
        let mut count: u64 = 0;
        let mut i: usize = 0;
        while i < updates.len()
            invariant
                i <= updates.len(),
                count <= i,
                self.played_games@ == played_with_all(
                    old(self).played_games@,
                    updates@.take(i as int),
                ),
                *self == (Repo { played_games: self.played_games, ..*old(self) }),
                count == self.played_games@.len() - old(self).played_games@.len(),
            decreases updates.len() - i,
        {
            proof {
                assert(updates@.take(i + 1).drop_last() =~= updates@.take(i as int));
            }
            if !has_reached(&self.played_games, &updates[i]) {
                self.played_games.push(updates[i]);
                count += 1;
            }
            i += 1;
        }
        proof {
            assert(updates@.take(i as int) =~= updates@);
        }
        count
    }
}

// ------------------------------------------------------------------ details

/// The details table keeps one row for each game.
pub proof fn lemma_details_with_all_wf(rows: Seq<GameDetails>, news: Seq<GameDetails>)
    requires
        one_row_each(rows),
    ensures
        one_row_each(details_with_all(rows, news)),
    decreases news.len(),
{
    if news.len() > 0 {
        lemma_details_with_all_wf(rows, news.drop_last());
        let before = details_with_all(rows, news.drop_last());
        let new = news.last();
        lemma_position(before, new.id);
        let p = position(before, new.id);
        if p < before.len() {
            lemma_update_keeps_one_row_each(before, p, merged_details(before[p], new));
        } else {
            lemma_push_keeps_one_row_each(before, new);
        }
    }
}

/// The failure table keeps one row for each game.
pub proof fn lemma_failures_with_all_wf(rows: Seq<DetailLookupFailure>, ids: Seq<GameId>)
    requires
        one_row_each(rows),
    ensures
        one_row_each(failures_with_all(rows, ids)),
    decreases ids.len(),
{
    if ids.len() > 0 {
        lemma_failures_with_all_wf(rows, ids.drop_last());
        let before = failures_with_all(rows, ids.drop_last());
        let id = ids.last();
        lemma_position(before, id);
        let p = position(before, id);
        if p < before.len() {
            lemma_update_keeps_one_row_each(
                before,
                p,
                DetailLookupFailure { id, failure_count: one_more(before[p].failure_count) },
            );
        } else {
            lemma_push_keeps_one_row_each(before, DetailLookupFailure { id, failure_count: 1 });
        }
    }
}

/// Whether a release date is written.
pub fn is_written(text: &Option<String>) -> (r: bool)
    ensures
        r == written(*text),
{
    match text {
        Some(s) => s.as_str().unicode_len() > 0,
        None => false,
    }
}

/// The details kept when `new` arrives for a game whose details are `prev`.
pub fn merge_details(prev: &GameDetails, new: &GameDetails) -> (r: GameDetails)
    ensures
        r == merged_details(*prev, *new),
{
    GameDetails {
        id: new.id,
        description: clone_optional(&new.description),
        controller_support: clone_optional(&new.controller_support),
        coop: new.coop,
        local_coop: new.local_coop,
        metacritic_percent: new.metacritic_percent,
        is_released: new.is_released,
        release_date: if is_written(&new.release_date) {
            clone_optional(&new.release_date)
        } else {
            clone_optional(&prev.release_date)
        },
        release_estimate: if new.release_estimate.is_some() {
            new.release_estimate
        } else {
            prev.release_estimate
        },
        recorded: new.recorded,
    }
}

/// Whether the details of `id` have failed too often to be asked for.
pub fn is_blocked(failures: &Vec<DetailLookupFailure>, id: GameId) -> (r: bool)
    ensures
        r == blocked(failures@, id),
{
    proof {
        lemma_position(failures@, id);
    }
    match find(failures, id) {
        Some(i) => failures[i].failure_count >= FAILURE_LIMIT,
        None => false,
    }
}

/// Whether the details say that `id` is still to come at `now`.
pub fn is_awaited(details: &Vec<GameDetails>, id: GameId, now: Timestamp) -> (r: bool)
    ensures
        r == awaits_release(details@, id, now),
{
    proof {
        lemma_position(details@, id);
    }
    match find(details, id) {
        Some(i) => {
            if !details[i].is_released {
                true
            } else {
                match details[i].release_estimate {
                    Some(t) => t.is_after(&now),
                    None => false,
                }
            }
        },
        None => false,
    }
}

/// Whether the details say that `id` is out.
pub fn is_released_now(details: &Vec<GameDetails>, id: GameId) -> (r: bool)
    ensures
        r == is_out(details@, id),
{
    proof {
        lemma_position(details@, id);
    }
    match find(details, id) {
        Some(i) => details[i].is_released,
        None => false,
    }
}

impl Repo {
    /// Takes in the details of one game.
    pub fn insert_one_game_details(&mut self, new: &GameDetails)
        requires
            old(self).wf(),
        ensures
            final(self).wf(),
            final(self).game_details@ == details_with(old(self).game_details@, *new),
            *final(self) == (Repo { game_details: final(self).game_details, ..*old(self) }),
    {
        proof {
            lemma_position(self.game_details@, new.id);
            assert(seq![*new].drop_last() =~= Seq::<GameDetails>::empty());
            lemma_details_with_all_wf(self.game_details@, seq![*new]);
        }
        match find(&self.game_details, new.id) {
            Some(i) => {
                let merged = merge_details(&self.game_details[i], new);
                self.game_details.set(i, merged);
            },
            None => {
                self.game_details.push(new.clone());
            },
        }
    }

    /// Counts one failure more for one game.
    pub fn mark_one_game_detail_failure(&mut self, id: GameId)
        requires
            old(self).wf(),
        ensures
            final(self).wf(),
            final(self).blacklist@ == failures_with(old(self).blacklist@, id),
            *final(self) == (Repo { blacklist: final(self).blacklist, ..*old(self) }),
    {
        proof {
            lemma_position(self.blacklist@, id);
            assert(seq![id].drop_last() =~= Seq::<GameId>::empty());
            lemma_failures_with_all_wf(self.blacklist@, seq![id]);
        }
        match find(&self.blacklist, id) {
            Some(i) => {
                let count = self.blacklist[i].failure_count;
                let next: u64 = if count < u64::MAX {
                    count + 1
                } else {
                    count
                };
                self.blacklist.set(i, DetailLookupFailure { id, failure_count: next });
            },
            None => {
                self.blacklist.push(DetailLookupFailure { id, failure_count: 1 });
            },
        }
    }
}

impl GameDetailsHandling for Repo {
    fn get_games_missing_details(&self) -> (r: Vec<GameId>)
        ensures
            r@ == candidates(
                self.game_details@,
                self.blacklist@,
                followed_ids(self.owned_games@, self.wishlist@, self.noted_games@),
            ),
            r@.len() <= BACKFILL_LIMIT,
            forall|k: int|
                0 <= k < r@.len() ==> !holds(self.game_details@, #[trigger] r@[k]) && !blocked(
                    self.blacklist@,
                    r@[k],
                ),
    {
        let followed = self.followed_games();
        self.pick_candidates(&followed)
    }

    fn insert_game_details(&mut self, details: &Vec<GameDetails>)
        ensures
            final(self).game_details@ == details_with_all(old(self).game_details@, details@),
            *final(self) == (Repo { game_details: final(self).game_details, ..*old(self) }),
    {
        let mut i: usize = 0;
        while i < details.len()
            invariant
                i <= details.len(),
                self.wf(),
                self.game_details@ == details_with_all(
                    old(self).game_details@,
                    details@.take(i as int),
                ),
                *self == (Repo { game_details: self.game_details, ..*old(self) }),
            decreases details.len() - i,
        {
            proof {
                assert(details@.take(i + 1).drop_last() =~= details@.take(i as int));
            }
            self.insert_one_game_details(&details[i]);
            i += 1;
        }
        proof {
            assert(details@.take(i as int) =~= details@);
        }
    }

    fn mark_game_detail_failures(&mut self, games: &Vec<GameId>)
        ensures
            final(self).blacklist@ == failures_with_all(old(self).blacklist@, games@),
            *final(self) == (Repo { blacklist: final(self).blacklist, ..*old(self) }),
    {
        let mut i: usize = 0;
        while i < games.len()
            invariant
                i <= games.len(),
                self.wf(),
                self.blacklist@ == failures_with_all(old(self).blacklist@, games@.take(i as int)),
                *self == (Repo { blacklist: self.blacklist, ..*old(self) }),
            decreases games.len() - i,
        {
            proof {
                assert(games@.take(i + 1).drop_last() =~= games@.take(i as int));
            }
            self.mark_one_game_detail_failure(games[i]);
            i += 1;
        }
        proof {
            assert(games@.take(i as int) =~= games@);
        }
    }

    fn get_release_dates(&self, games: &Vec<GameId>) -> (r: Vec<(GameId, String)>)
        ensures
            r@ == release_dates_of(self.game_details@, games@),
    {
        let mut out: Vec<(GameId, String)> = Vec::new();
        let mut i: usize = 0;
        while i < self.game_details.len()
            invariant
                i <= self.game_details.len(),
                out@ == self.game_details@.take(i as int).filter_map(pick_release_date(games@)),
            decreases self.game_details.len() - i,
        {
            proof {
                lemma_filter_map_step(self.game_details@, i as int, pick_release_date(games@));
            }
            let d = &self.game_details[i];
            match &d.release_date {
                Some(text) => {
                    if listed(games, d.id) {
                        out.push((d.id, text.clone()));
                    }
                },
                None => {},
            }
            i += 1;
        }
        assert(self.game_details@.take(i as int) =~= self.game_details@);
        out
    }
}

// --------------------------------------------------------------- candidates

/// The candidates are not more than the limit, each lacks details, and
/// none is listed twice.
pub proof fn lemma_candidates(
    details: Seq<GameDetails>,
    failures: Seq<DetailLookupFailure>,
    followed: Seq<GameId>,
)
    ensures
        candidates(details, failures, followed).len() <= BACKFILL_LIMIT,
        forall|k: int|
            0 <= k < candidates(details, failures, followed).len() ==> lacks_details(
                details,
                failures,
                #[trigger] candidates(details, failures, followed)[k],
            ) && followed.contains(candidates(details, failures, followed)[k]),
        forall|k: int, l: int|
            0 <= k < l < candidates(details, failures, followed).len() ==> candidates(
                details,
                failures,
                followed,
            )[k] != candidates(details, failures, followed)[l],
    decreases followed.len(),
{
    if followed.len() > 0 {
        let rest = followed.drop_last();
        lemma_candidates(details, failures, rest);
        let before = candidates(details, failures, rest);
        let all = candidates(details, failures, followed);
        assert forall|k: int| 0 <= k < all.len() implies lacks_details(
            details,
            failures,
            #[trigger] all[k],
        ) && followed.contains(all[k]) by {
            if k < before.len() {
                assert(all[k] == before[k]);
                let w = choose|w: int| 0 <= w < rest.len() && rest[w] == before[k];
                assert(followed[w] == before[k]);
            } else {
                assert(followed[followed.len() - 1] == all[k]);
            }
        }
        assert forall|k: int, l: int| 0 <= k < l < all.len() implies all[k] != all[l] by {
            if l < before.len() {
                assert(all[k] == before[k] && all[l] == before[l]);
            } else {
                assert(all[k] == before[k]);
                assert(before.contains(before[k]));
            }
        }
    }
}

impl Repo {
    /// The games that the store follows: the owned ones, those of the wish
    /// list, and those of the notes that say nothing final.
    pub fn followed_games(&self) -> (r: Vec<GameId>)
        ensures
            r@ == followed_ids(self.owned_games@, self.wishlist@, self.noted_games@),
    {
        let mut out: Vec<GameId> = Vec::new();
        let mut i: usize = 0;
        while i < self.owned_games.len()
            invariant
                i <= self.owned_games.len(),
                out@ == self.owned_games@.take(i as int).map_values(|o: OwnershipRecord| o.id),
            decreases self.owned_games.len() - i,
        {
            out.push(self.owned_games[i].id);
            i += 1;
            assert(out@ =~= self.owned_games@.take(i as int).map_values(
                |o: OwnershipRecord| o.id,
            ));
        }
        assert(self.owned_games@.take(i as int) =~= self.owned_games@);
        let ghost first = out@;
        let mut j: usize = 0;
        while j < self.wishlist.len()
            invariant
                j <= self.wishlist.len(),
                out@ == first + snapshot_ids(self.wishlist@.take(j as int)),
            decreases self.wishlist.len() - j,
        {
            out.push(self.wishlist[j].id);
            j += 1;
            assert(out@ =~= first + snapshot_ids(self.wishlist@.take(j as int)));
        }
        assert(self.wishlist@.take(j as int) =~= self.wishlist@);
        let ghost second = out@;
        let mut k: usize = 0;
        while k < self.noted_games.len()
            invariant
                k <= self.noted_games.len(),
                out@ == second + self.noted_games@.take(k as int).filter_map(pick_open_note()),
            decreases self.noted_games.len() - k,
        {
            proof {
                lemma_filter_map_step(self.noted_games@, k as int, pick_open_note());
            }
            let n = &self.noted_games[k];
            match n.app_id {
                Some(id) => {
                    let open = match &n.state {
                        None => true,
                        Some(s) => !s.is_released(),
                    };
                    if open {
                        out.push(id);
                    }
                },
                None => {},
            }
            k += 1;
            assert(out@ =~= second + self.noted_games@.take(k as int).filter_map(
                pick_open_note(),
            ));
        }
        assert(self.noted_games@.take(k as int) =~= self.noted_games@);
        out
    }

    /// The games of `followed` whose details are to be fetched, each once,
    /// in order, and no more than the limit of one pass.
    pub fn pick_candidates(&self, followed: &Vec<GameId>) -> (r: Vec<GameId>)
        ensures
            r@ == candidates(self.game_details@, self.blacklist@, followed@),
            r@.len() <= BACKFILL_LIMIT,
            forall|k: int|
                0 <= k < r@.len() ==> !holds(self.game_details@, #[trigger] r@[k]) && !blocked(
                    self.blacklist@,
                    r@[k],
                ),
    {
        let mut out: Vec<GameId> = Vec::new();
        let mut i: usize = 0;
        while i < followed.len()
            invariant
                i <= followed.len(),
                out@ == candidates(self.game_details@, self.blacklist@, followed@.take(i as int)),
            decreases followed.len() - i,
        {
            proof {
                assert(followed@.take(i + 1).drop_last() =~= followed@.take(i as int));
            }
            let id = followed[i];
            if out.len() < BACKFILL_LIMIT && find(&self.game_details, id).is_none() && !is_blocked(
                &self.blacklist,
                id,
            ) && !listed(&out, id) {
                out.push(id);
            }
            i += 1;
        }
        proof {
            assert(followed@.take(i as int) =~= followed@);
            lemma_candidates(self.game_details@, self.blacklist@, followed@);
        }
        out
    }
}

// -------------------------------------------------------------------- notes

/// `note_position` is the index of the row of the note, and past the end
/// exactly when no row is of that note.
pub proof fn lemma_note_position(rows: Seq<NotedGame>, note_id: Seq<char>)
    ensures
        0 <= note_position(rows, note_id) <= rows.len(),
        note_position(rows, note_id) < rows.len() ==> rows[note_position(rows, note_id)].note_id@
            == note_id,
        forall|j: int|
            0 <= j < note_position(rows, note_id) ==> (#[trigger] rows[j]).note_id@ != note_id,
    decreases rows.len(),
{
    if rows.len() == 0 {
    } else if rows.first().note_id@ == note_id {
    } else {
        let rest = rows.drop_first();
        lemma_note_position(rest, note_id);
        let p = note_position(rest, note_id);
        if p < rest.len() {
            assert(rows[p + 1] == rest[p]);
        }
        assert forall|j: int| 0 <= j < p + 1 implies (#[trigger] rows[j]).note_id@ != note_id by {
            if j > 0 {
                assert(rest[j - 1] == rows[j]);
            }
        }
    }
}

/// The notes table keeps one row for each note.
pub proof fn lemma_noted_with_wf(rows: Seq<NotedGame>, new: NotedGame)
    requires
        one_row_each_note(rows),
    ensures
        one_row_each_note(noted_with(rows, new)),
{
    lemma_note_position(rows, new.note_id@);
    let p = note_position(rows, new.note_id@);
    let after = noted_with(rows, new);
    assert forall|i: int, j: int| 0 <= i < j < after.len() implies (#[trigger] after[i]).note_id@
        != (#[trigger] after[j]).note_id@ by {
        if p < rows.len() {
            assert(after[i].note_id@ == rows[i].note_id@);
            assert(after[j].note_id@ == rows[j].note_id@);
        } else {
            if j == rows.len() {
                assert(rows[i].note_id@ != new.note_id@);
            } else {
                assert(after[i] == rows[i] && after[j] == rows[j]);
            }
        }
    }
}

/// Looks for the row of a note.
pub fn find_note(rows: &Vec<NotedGame>, note_id: &str) -> (r: Option<usize>)
    ensures
        r is Some <==> note_position(rows@, note_id@) < rows.len(),
        r matches Some(i) ==> i == note_position(rows@, note_id@),
{
    let mut i: usize = 0;
    while i < rows.len()
        invariant
            i <= rows.len(),
            forall|j: int| 0 <= j < i ==> (#[trigger] rows@[j]).note_id@ != note_id@,
        decreases rows.len() - i,
    {
        if *rows[i].note_id.as_str() == *note_id {
            proof {
                lemma_note_position(rows@, note_id@);
                let p = note_position(rows@, note_id@);
                assert(rows@[i as int].note_id@ == note_id@);
                if p < rows.len() {
                    assert(rows@[p].note_id@ == note_id@);
                }
            }
            return Some(i);
        }
        i += 1;
    }
    proof {
        lemma_note_position(rows@, note_id@);
        let p = note_position(rows@, note_id@);
        if p < rows.len() {
            assert(rows@[p].note_id@ == note_id@);
        }
    }
    None
}

/// Whether no two rows are of the same note.
pub fn has_one_row_each_note(rows: &Vec<NotedGame>) -> (b: bool)
    ensures
        b == one_row_each_note(rows@),
{
    let mut j: usize = 0;
    while j < rows.len()
        invariant
            j <= rows.len(),
            forall|a: int, c: int|
                0 <= a < c < j ==> (#[trigger] rows@[a]).note_id@ != (#[trigger] rows@[c]).note_id@,
        decreases rows.len() - j,
    {
        proof {
            lemma_note_position(rows@, rows@[j as int].note_id@);
        }
        match find_note(rows, rows[j].note_id.as_str()) {
            Some(p) => {
                if p != j {
                    assert(p < j);
                    assert(rows@[p as int].note_id@ == rows@[j as int].note_id@);
                    return false;
                }
            },
            None => {},
        }
        j += 1;
    }
    true
}

/// The same rows in the opposite order.
pub fn reversed(notes: Vec<NotedGame>) -> (r: Vec<NotedGame>)
    ensures
        r@ == notes@.reverse(),
{
    let mut rest = notes;
    let mut out: Vec<NotedGame> = Vec::new();
    while rest.len() > 0
        invariant
            out@.len() + rest@.len() == notes@.len(),
            rest@ == notes@.take(rest@.len() as int),
            forall|k: int| 0 <= k < out@.len() ==> out@[k] == notes@[notes@.len() - 1 - k],
        decreases rest.len(),
    {
        let last = rest.pop();
        match last {
            Some(n) => {
                out.push(n);
            },
            None => {},
        }
    }
    assert(out@ =~= notes@.reverse());
    out
}

impl Repo {
    /// Writes down one change of a release date.
    pub fn log_release_update(&mut self, entry: ReleaseUpdateLogEntry)
        requires
            old(self).wf(),
        ensures
            final(self).wf(),
            final(self).release_updates@ == old(self).release_updates@.push(entry),
            *final(self) == (Repo { release_updates: final(self).release_updates, ..*old(self) }),
    {
        self.release_updates.push(entry);
    }

    /// Takes in one note.
    pub fn insert_one_noted_game(&mut self, new: NotedGame)
        requires
            old(self).wf(),
        ensures
            final(self).wf(),
            final(self).noted_games@ == noted_with(old(self).noted_games@, new),
            *final(self) == (Repo { noted_games: final(self).noted_games, ..*old(self) }),
    {
        proof {
            lemma_noted_with_wf(self.noted_games@, new);
        }
        match find_note(&self.noted_games, new.note_id.as_str()) {
            Some(i) => {
                let kept_id = self.noted_games[i].note_id.clone();
                let first_noted = self.noted_games[i].first_noted;
                let merged = NotedGame {
                    note_id: kept_id,
                    app_id: new.app_id,
                    state: new.state,
                    tags: new.tags,
                    my_rating: new.my_rating,
                    notes: new.notes,
                    first_noted,
                };
                self.noted_games.set(i, merged);
            },
            None => {
                self.noted_games.push(new);
            },
        }
    }
}

impl NotedGamesHandling for Repo {
    fn insert_noted_games(&mut self, notes: Vec<NotedGame>)
        ensures
            final(self).noted_games@ == noted_with_all(old(self).noted_games@, notes@),
            *final(self) == (Repo { noted_games: final(self).noted_games, ..*old(self) }),
    {
        let ghost all = notes@;
        let count = notes.len();
        assert(all.len() == count);
        let mut rest = reversed(notes);
        let mut i: usize = 0;
        while rest.len() > 0
            invariant
                self.wf(),
                all.len() <= usize::MAX,
                i + rest@.len() == all.len(),
                forall|k: int| 0 <= k < rest@.len() ==> rest@[k] == all[all.len() - 1 - k],
                self.noted_games@ == noted_with_all(old(self).noted_games@, all.take(i as int)),
                *self == (Repo { noted_games: self.noted_games, ..*old(self) }),
            decreases rest.len(),
        {
            proof {
                assert(all.take(i + 1).drop_last() =~= all.take(i as int));
            }
            let next = rest.pop();
            match next {
                Some(n) => {
                    assert(n == all[i as int]);
                    self.insert_one_noted_game(n);
                },
                None => {},
            }
            i += 1;
        }
        proof {
            assert(all.take(i as int) =~= all);
        }
    }

    fn get_appids_by_name(&self, names: &Vec<String>) -> (r: Vec<CatalogEntry>)
        ensures
            r@ == entries_named(self.steam_games@, names@),
    {
        let mut out: Vec<CatalogEntry> = Vec::new();
        let mut i: usize = 0;
        while i < self.steam_games.len()
            invariant
                i <= self.steam_games.len(),
                out@ == self.steam_games@.take(i as int).filter_map(pick_named(names@)),
            decreases self.steam_games.len() - i,
        {
            proof {
                lemma_filter_map_step(self.steam_games@, i as int, pick_named(names@));
            }
            if name_listed(names, self.steam_games[i].name.as_str()) {
                out.push(self.steam_games[i].clone());
            }
            i += 1;
        }
        assert(self.steam_games@.take(i as int) =~= self.steam_games@);
        out
    }

    fn get_upcoming_noted_game_ids(&self, now: Timestamp) -> (r: Vec<GameId>)
        ensures
            r@ == upcoming_noted(self.noted_games@, self.game_details@, now),
    {
        let mut out: Vec<GameId> = Vec::new();
        let mut i: usize = 0;
        while i < self.noted_games.len()
            invariant
                i <= self.noted_games.len(),
                out@ == self.noted_games@.take(i as int).filter_map(
                    pick_upcoming_note(self.game_details@, now),
                ),
            decreases self.noted_games.len() - i,
        {
            proof {
                lemma_filter_map_step(
                    self.noted_games@,
                    i as int,
                    pick_upcoming_note(self.game_details@, now),
                );
            }
            match self.noted_games[i].app_id {
                Some(id) => {
                    if is_awaited(&self.game_details, id, now) {
                        out.push(id);
                    }
                },
                None => {},
            }
            i += 1;
        }
        assert(self.noted_games@.take(i as int) =~= self.noted_games@);
        out
    }

    fn get_newly_released_games(&self) -> (r: Vec<ReleasedGame>)
        ensures
            r@ == newly_released(self.noted_games@, self.game_details@),
    {
        let mut out: Vec<ReleasedGame> = Vec::new();
        let mut i: usize = 0;
        while i < self.noted_games.len()
            invariant
                i <= self.noted_games.len(),
                out@ == self.noted_games@.take(i as int).filter_map(
                    pick_newly_released(self.game_details@),
                ),
            decreases self.noted_games.len() - i,
        {
            proof {
                lemma_filter_map_step(
                    self.noted_games@,
                    i as int,
                    pick_newly_released(self.game_details@),
                );
            }
            let n = &self.noted_games[i];
            match n.app_id {
                Some(id) => {
                    let open = match &n.state {
                        None => true,
                        Some(s) => !s.is_released(),
                    };
                    if open && is_released_now(&self.game_details, id) {
                        out.push(ReleasedGame { note_id: n.note_id.clone(), game_id: id });
                    }
                },
                None => {},
            }
            i += 1;
        }
        assert(self.noted_games@.take(i as int) =~= self.noted_games@);
        out
    }
}

// ---------------------------------------------------------------- wish list

/// Marking the rows that have left the wish list keeps one row for each
/// game.
pub proof fn lemma_wishlist_marked_wf(rows: Seq<WishlistedGame>, wanted: Seq<GameId>, now: Timestamp)
    requires
        one_row_each(rows),
    ensures
        one_row_each(wishlist_marked(rows, wanted, now)),
{
    let after = wishlist_marked(rows, wanted, now);
    assert forall|i: int, j: int| 0 <= i < j < after.len() implies (#[trigger] after[i]).id != (
    #[trigger] after[j]).id by {
        assert(after[i].id == rows[i].id);
        assert(after[j].id == rows[j].id);
    }
}

/// Putting games on the wish list keeps one row for each game.
pub proof fn lemma_wishlist_with_new_wf(
    rows: Seq<WishlistedGame>,
    live: Seq<GameId>,
    items: Seq<WishlistedGame>,
)
    requires
        one_row_each(rows),
    ensures
        one_row_each(wishlist_with_new(rows, live, items)),
    decreases items.len(),
{
    if items.len() > 0 {
        lemma_wishlist_with_new_wf(rows, live, items.drop_last());
        let before = wishlist_with_new(rows, live, items.drop_last());
        let item = items.last();
        if !live.contains(item.id) {
            lemma_position(before, item.id);
            let p = position(before, item.id);
            if p < before.len() {
                lemma_update_keeps_one_row_each(
                    before,
                    p,
                    WishlistedGame { deleted: None, ..before[p] },
                );
            } else {
                lemma_push_keeps_one_row_each(
                    before,
                    WishlistedGame { id: item.id, wishlisted: item.wishlisted, deleted: None },
                );
            }
        }
    }
}

impl Repo {
    /// The games that are on the wish list now.
    pub fn get_wishlisted_ids(&self) -> (r: Vec<GameId>)
        ensures
            r@ == live_ids(self.wishlist@),
    {
        let mut out: Vec<GameId> = Vec::new();
        let mut i: usize = 0;
        while i < self.wishlist.len()
            invariant
                i <= self.wishlist.len(),
                out@ == self.wishlist@.take(i as int).filter_map(pick_live()),
            decreases self.wishlist.len() - i,
        {
            proof {
                lemma_filter_map_step(self.wishlist@, i as int, pick_live());
            }
            if self.wishlist[i].deleted.is_none() {
                out.push(self.wishlist[i].id);
            }
            i += 1;
        }
        assert(self.wishlist@.take(i as int) =~= self.wishlist@);
        out
    }

    /// Marks as deleted at `now` every row that is on the wish list and
    /// whose game is not in `wanted`.
    pub fn delete_wishlist_ids(&mut self, wanted: &Vec<GameId>, now: Timestamp)
        requires
            old(self).wf(),
        ensures
            final(self).wf(),
            final(self).wishlist@ == wishlist_marked(old(self).wishlist@, wanted@, now),
            *final(self) == (Repo { wishlist: final(self).wishlist, ..*old(self) }),
    {
        let ghost rows = self.wishlist@;
        let mut i: usize = 0;
        while i < self.wishlist.len()
            invariant
                i <= self.wishlist.len(),
                rows == old(self).wishlist@,
                self.wishlist@.len() == rows.len(),
                forall|k: int| 0 <= k < i ==> self.wishlist@[k] == marked_row(rows[k], wanted@, now),
                forall|k: int| i <= k < rows.len() ==> self.wishlist@[k] == rows[k],
                *self == (Repo { wishlist: self.wishlist, ..*old(self) }),
            decreases self.wishlist.len() - i,
        {
            let row = self.wishlist[i];
            if row.deleted.is_none() && !listed(wanted, row.id) {
                self.wishlist.set(
                    i,
                    WishlistedGame { id: row.id, wishlisted: row.wishlisted, deleted: Some(now) },
                );
            }
            i += 1;
        }
        proof {
            assert(self.wishlist@ =~= wishlist_marked(rows, wanted@, now));
            lemma_wishlist_marked_wf(rows, wanted@, now);
        }
    }

    /// Puts on the wish list each of `items` whose game is not in `live`.
    pub fn insert_wishlist_items(&mut self, live: &Vec<GameId>, items: &Vec<WishlistedGame>)
        requires
            old(self).wf(),
        ensures
            final(self).wf(),
            final(self).wishlist@ == wishlist_with_new(old(self).wishlist@, live@, items@),
            *final(self) == (Repo { wishlist: final(self).wishlist, ..*old(self) }),
    {
        let mut i: usize = 0;
        while i < items.len()
            invariant
                i <= items.len(),
                self.wishlist@ == wishlist_with_new(
                    old(self).wishlist@,
                    live@,
                    items@.take(i as int),
                ),
                *self == (Repo { wishlist: self.wishlist, ..*old(self) }),
            decreases items.len() - i,
        {
            proof {
                assert(items@.take(i + 1).drop_last() =~= items@.take(i as int));
                lemma_position(self.wishlist@, items@[i as int].id);
            }
            let item = items[i];
            if !listed(live, item.id) {
                match find(&self.wishlist, item.id) {
                    Some(p) => {
                        let row = self.wishlist[p];
                        self.wishlist.set(
                            p,
                            WishlistedGame { id: row.id, wishlisted: row.wishlisted, deleted: None },
                        );
                    },
                    None => {
                        self.wishlist.push(
                            WishlistedGame {
                                id: item.id,
                                wishlisted: item.wishlisted,
                                deleted: None,
                            },
                        );
                    },
                }
            }
            i += 1;
        }
        proof {
            assert(items@.take(i as int) =~= items@);
            lemma_wishlist_with_new_wf(old(self).wishlist@, live@, items@);
        }
    }
}

impl WishlistHandling for Repo {
    fn update_wishlist(&mut self, items: &Vec<WishlistedGame>, now: Timestamp)
        ensures
            final(self).wishlist@ == reconciled(old(self).wishlist@, items@, now),
            *final(self) == (Repo { wishlist: final(self).wishlist, ..*old(self) }),
    {
        let live = self.get_wishlisted_ids();
        let mut wanted: Vec<GameId> = Vec::new();
        let mut i: usize = 0;
        while i < items.len()
            invariant
                i <= items.len(),
                wanted@ == snapshot_ids(items@.take(i as int)),
            decreases items.len() - i,
        {
            wanted.push(items[i].id);
            i += 1;
            assert(wanted@ =~= snapshot_ids(items@.take(i as int)));
        }
        assert(items@.take(i as int) =~= items@);
        self.delete_wishlist_ids(&wanted, now);
        self.insert_wishlist_items(&live, items);
    }

    fn get_upcoming_wishlisted_game_ids(&self, now: Timestamp) -> (r: Vec<GameId>)
        ensures
            r@ == upcoming_wishlisted(self.wishlist@, self.game_details@, now),
    {
        let mut out: Vec<GameId> = Vec::new();
        let mut i: usize = 0;
        while i < self.wishlist.len()
            invariant
                i <= self.wishlist.len(),
                out@ == self.wishlist@.take(i as int).filter_map(
                    pick_upcoming_wish(self.game_details@, now),
                ),
            decreases self.wishlist.len() - i,
        {
            proof {
                lemma_filter_map_step(
                    self.wishlist@,
                    i as int,
                    pick_upcoming_wish(self.game_details@, now),
                );
            }
            if is_awaited(&self.game_details, self.wishlist[i].id, now) {
                out.push(self.wishlist[i].id);
            }
            i += 1;
        }
        assert(self.wishlist@.take(i as int) =~= self.wishlist@);
        out
    }
}

// -------------------------------------------------------------- audit trail

impl ReleaseUpdateHandling for Repo {
    fn insert_release_update(
        &mut self,
        game: &GameId,
        prev_text: &str,
        prev_date: &Option<Timestamp>,
        new_text: &str,
        new_date: &Option<Timestamp>,
        now: Timestamp,
    )
        ensures
            final(self).release_updates@.len() == old(self).release_updates@.len() + 1,
            final(self).release_updates@.drop_last() == old(self).release_updates@,
            ({
                let entry = final(self).release_updates@.last();
                &&& entry.id == *game
                &&& entry.prev_text@ == prev_text@
                &&& entry.new_text@ == new_text@
                &&& entry.prev_estimate == *prev_date
                &&& entry.new_estimate == *new_date
                &&& entry.recorded == now
            }),
            *final(self) == (Repo { release_updates: final(self).release_updates, ..*old(self) }),
    {
        self.release_updates.push(
            ReleaseUpdateLogEntry {
                id: *game,
                prev_text: prev_text.to_owned(),
                new_text: new_text.to_owned(),
                prev_estimate: *prev_date,
                new_estimate: *new_date,
                recorded: now,
            },
        );
        assert(self.release_updates@.drop_last() =~= old(self).release_updates@);
    }
}

} // verus!

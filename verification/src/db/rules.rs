//! What each operation of the store makes of a table, as functions on
//! sequences of rows.

use crate::db::table::{holds, position, Record};
use crate::models::game::{
    GameDetails, GameId, GameState, NotedGame, PlayedGame, ReleasedGame, WishlistedGame,
};
use crate::models::steam::SteamAppIdPair;
use crate::time::Timestamp;
use vstd::prelude::*;

verus! {

/// A game of the catalogue. The name is the one first seen.
#[derive(Debug, PartialEq)]
pub struct CatalogEntry {
    pub id: GameId,
    pub name: String,
}

/// That a game is owned, and since when the store has known it.
#[derive(Clone, Copy, Debug, PartialEq, Eq, Structural)]
pub struct OwnershipRecord {
    pub id: GameId,
    pub first_recorded: Timestamp,
}

/// How often the details of a game could not be fetched.
#[derive(Clone, Copy, Debug, PartialEq, Eq, Structural)]
pub struct DetailLookupFailure {
    pub id: GameId,
    pub failure_count: u64,
}

/// One change of a release date, as the audit trail keeps it.
#[derive(Debug, PartialEq)]
pub struct ReleaseUpdateLogEntry {
    pub id: GameId,
    pub prev_text: String,
    pub new_text: String,
    pub prev_estimate: Option<Timestamp>,
    pub new_estimate: Option<Timestamp>,
    pub recorded: Timestamp,
}

impl Clone for CatalogEntry {
    fn clone(&self) -> (r: CatalogEntry)
        ensures
            r == *self,
    {
        CatalogEntry { id: self.id, name: self.name.clone() }
    }
}

impl Record for CatalogEntry {
    open spec fn game(&self) -> GameId {
        self.id
    }

    fn id(&self) -> (id: GameId) {
        self.id
    }
}

impl Record for OwnershipRecord {
    open spec fn game(&self) -> GameId {
        self.id
    }

    fn id(&self) -> (id: GameId) {
        self.id
    }
}

impl Record for DetailLookupFailure {
    open spec fn game(&self) -> GameId {
        self.id
    }

    fn id(&self) -> (id: GameId) {
        self.id
    }
}

/// The most failures after which the details of a game are still asked
/// for, plus one.
pub const FAILURE_LIMIT: u64 = 5;

/// The most games whose missing details one pass asks for.
pub const BACKFILL_LIMIT: usize = 100;

// ---------------------------------------------------------------- catalogue

/// The catalogue after `game` is seen: unchanged where its number is
/// listed, else with one entry more.
pub open spec fn catalog_with(rows: Seq<CatalogEntry>, game: SteamAppIdPair) -> Seq<CatalogEntry> {
    let id = GameId { app_id: game.appid };
    if holds(rows, id) {
        rows
    } else {
        rows.push(CatalogEntry { id, name: game.name })
    }
}

/// The catalogue after each of `games` is seen, in order.
pub open spec fn catalog_with_all(rows: Seq<CatalogEntry>, games: Seq<SteamAppIdPair>) -> Seq<
    CatalogEntry,
>
    decreases games.len(),
{
    if games.len() == 0 {
        rows
    } else {
        catalog_with(catalog_with_all(rows, games.drop_last()), games.last())
    }
}

/// Picks the entries of the games in `ids`.
pub open spec fn pick_listed(ids: Seq<GameId>) -> spec_fn(CatalogEntry) -> Option<CatalogEntry> {
    |e: CatalogEntry|
        if ids.contains(e.id) {
            Some(e)
        } else {
            None
        }
}

/// The entries of the games in `ids`, in the order of the catalogue.
pub open spec fn entries_of(rows: Seq<CatalogEntry>, ids: Seq<GameId>) -> Seq<CatalogEntry> {
    rows.filter_map(pick_listed(ids))
}

/// Whether `name` is one of `names`, character for character.
pub open spec fn names_hold(names: Seq<String>, name: Seq<char>) -> bool {
    exists|k: int| 0 <= k < names.len() && (#[trigger] names[k])@ == name
}

/// Picks the entries whose name is one of `names`.
pub open spec fn pick_named(names: Seq<String>) -> spec_fn(CatalogEntry) -> Option<CatalogEntry> {
    |e: CatalogEntry|
        if names_hold(names, e.name@) {
            Some(e)
        } else {
            None
        }
}

/// The entries whose name is one of `names`, in the order of the
/// catalogue.
pub open spec fn entries_named(rows: Seq<CatalogEntry>, names: Seq<String>) -> Seq<CatalogEntry> {
    rows.filter_map(pick_named(names))
}

// ---------------------------------------------------------------- ownership

/// The ownership table after `id` is recorded at `now`: unchanged where
/// the game is in it, else with one row more.
pub open spec fn owned_with(rows: Seq<OwnershipRecord>, id: GameId, now: Timestamp) -> Seq<
    OwnershipRecord,
> {
    if holds(rows, id) {
        rows
    } else {
        rows.push(OwnershipRecord { id, first_recorded: now })
    }
}

/// The ownership table after each of `ids` is recorded at `now`, in order.
pub open spec fn owned_with_all(rows: Seq<OwnershipRecord>, ids: Seq<GameId>, now: Timestamp) -> Seq<
    OwnershipRecord,
>
    decreases ids.len(),
{
    if ids.len() == 0 {
        rows
    } else {
        owned_with(owned_with_all(rows, ids.drop_last(), now), ids.last(), now)
    }
}

// ------------------------------------------------------------ ignored games

/// The list of ignored games after `id` is added: unchanged where it is
/// there already.
pub open spec fn ignored_with(rows: Seq<GameId>, id: GameId) -> Seq<GameId> {
    if holds(rows, id) {
        rows
    } else {
        rows.push(id)
    }
}

/// The list of ignored games after each of `ids` is added, in order.
pub open spec fn ignored_with_all(rows: Seq<GameId>, ids: Seq<GameId>) -> Seq<GameId>
    decreases ids.len(),
{
    if ids.len() == 0 {
        rows
    } else {
        ignored_with(ignored_with_all(rows, ids.drop_last()), ids.last())
    }
}

// ----------------------------------------------------------------- playtime

/// Whether the history holds a row of the update's game with at least its
/// playtime.
pub open spec fn playtime_reached(rows: Seq<PlayedGame>, update: PlayedGame) -> bool {
    exists|i: int|
        0 <= i < rows.len() && (#[trigger] rows[i]).id == update.id && rows[i].playtime
            >= update.playtime
}

/// The playtime history after one update: a row more, unless the playtime
/// was reached before.
pub open spec fn played_with(rows: Seq<PlayedGame>, update: PlayedGame) -> Seq<PlayedGame> {
    if playtime_reached(rows, update) {
        rows
    } else {
        rows.push(update)
    }
}

/// The playtime history after each of `updates`, in order.
pub open spec fn played_with_all(rows: Seq<PlayedGame>, updates: Seq<PlayedGame>) -> Seq<
    PlayedGame,
>
    decreases updates.len(),
{
    if updates.len() == 0 {
        rows
    } else {
        played_with(played_with_all(rows, updates.drop_last()), updates.last())
    }
}

// ------------------------------------------------------------------ details

/// Whether a release date is written: there is a text and it is not empty.
pub open spec fn written(text: Option<String>) -> bool {
    text matches Some(s) && s@.len() > 0
}

/// The details kept when `new` arrives for a game whose details are
/// `prev`: those of `new`, but the release date as written and its estimate
/// stay as they were where `new` brings none.
pub open spec fn merged_details(prev: GameDetails, new: GameDetails) -> GameDetails {
    GameDetails {
        release_date: if written(new.release_date) {
            new.release_date
        } else {
            prev.release_date
        },
        release_estimate: if new.release_estimate is Some {
            new.release_estimate
        } else {
            prev.release_estimate
        },
        ..new
    }
}

/// The details table after `new` arrives.
pub open spec fn details_with(rows: Seq<GameDetails>, new: GameDetails) -> Seq<GameDetails> {
    let p = position(rows, new.id);
    if p < rows.len() {
        rows.update(p, merged_details(rows[p], new))
    } else {
        rows.push(new)
    }
}

/// The details table after each of `news` arrives, in order.
pub open spec fn details_with_all(rows: Seq<GameDetails>, news: Seq<GameDetails>) -> Seq<
    GameDetails,
>
    decreases news.len(),
{
    if news.len() == 0 {
        rows
    } else {
        details_with(details_with_all(rows, news.drop_last()), news.last())
    }
}

/// Picks the release date as written of the games in `ids` that have one.
pub open spec fn pick_release_date(ids: Seq<GameId>) -> spec_fn(GameDetails) -> Option<
    (GameId, String),
> {
    |d: GameDetails|
        match d.release_date {
            Some(text) => if ids.contains(d.id) {
                Some((d.id, text))
            } else {
                None
            },
            None => None,
        }
}

/// The release dates as written of the games in `ids`, in the order of the
/// table.
pub open spec fn release_dates_of(rows: Seq<GameDetails>, ids: Seq<GameId>) -> Seq<
    (GameId, String),
> {
    rows.filter_map(pick_release_date(ids))
}

/// Whether the details say that `id` is still to come at `now`: it is not
/// out, or its release is estimated later than `now`.
pub open spec fn awaits_release(rows: Seq<GameDetails>, id: GameId, now: Timestamp) -> bool {
    let p = position(rows, id);
    p < rows.len() && (!rows[p].is_released || (rows[p].release_estimate matches Some(t)
        && t.later_than(now)))
}

/// Whether the details say that `id` is out.
pub open spec fn is_out(rows: Seq<GameDetails>, id: GameId) -> bool {
    let p = position(rows, id);
    p < rows.len() && rows[p].is_released
}

// ----------------------------------------------------------------- failures

/// The count after one failure more; it stays where it cannot grow.
pub open spec fn one_more(count: u64) -> u64 {
    if count < u64::MAX {
        (count + 1) as u64
    } else {
        count
    }
}

/// The failure table after the details of `id` could not be fetched.
pub open spec fn failures_with(rows: Seq<DetailLookupFailure>, id: GameId) -> Seq<
    DetailLookupFailure,
> {
    let p = position(rows, id);
    if p < rows.len() {
        rows.update(p, DetailLookupFailure { id, failure_count: one_more(rows[p].failure_count) })
    } else {
        rows.push(DetailLookupFailure { id, failure_count: 1 })
    }
}

/// The failure table after the details of each of `ids` could not be
/// fetched, in order.
pub open spec fn failures_with_all(rows: Seq<DetailLookupFailure>, ids: Seq<GameId>) -> Seq<
    DetailLookupFailure,
>
    decreases ids.len(),
{
    if ids.len() == 0 {
        rows
    } else {
        failures_with(failures_with_all(rows, ids.drop_last()), ids.last())
    }
}

/// Whether the details of `id` have failed so often that they are not
/// asked for again.
pub open spec fn blocked(rows: Seq<DetailLookupFailure>, id: GameId) -> bool {
    let p = position(rows, id);
    p < rows.len() && rows[p].failure_count >= FAILURE_LIMIT
}

// -------------------------------------------------------------------- notes

/// Whether a note says nothing final of its game: it has no state, or one
/// that does not count as out.
pub open spec fn open_state(state: Option<GameState>) -> bool {
    match state {
        None => true,
        Some(s) => !s.released(),
    }
}

/// Where the note `note_id` stands in `rows`; the length of `rows` where it
/// is not there.
pub open spec fn note_position(rows: Seq<NotedGame>, note_id: Seq<char>) -> int
    decreases rows.len(),
{
    if rows.len() == 0 {
        0
    } else if rows.first().note_id@ == note_id {
        0
    } else {
        1 + note_position(rows.drop_first(), note_id)
    }
}

/// Whether no two rows are of the same note.
pub open spec fn one_row_each_note(rows: Seq<NotedGame>) -> bool {
    forall|i: int, j: int|
        0 <= i < j < rows.len() ==> (#[trigger] rows[i]).note_id@ != (#[trigger] rows[j]).note_id@
}

/// The row kept when `new` arrives for a note whose row is `prev`: that of
/// `new`, under the identifier and the date first noted that it had.
pub open spec fn merged_note(prev: NotedGame, new: NotedGame) -> NotedGame {
    NotedGame { note_id: prev.note_id, first_noted: prev.first_noted, ..new }
}

/// The notes table after `new` arrives.
pub open spec fn noted_with(rows: Seq<NotedGame>, new: NotedGame) -> Seq<NotedGame> {
    let p = note_position(rows, new.note_id@);
    if p < rows.len() {
        rows.update(p, merged_note(rows[p], new))
    } else {
        rows.push(new)
    }
}

/// The notes table after each of `news` arrives, in order.
pub open spec fn noted_with_all(rows: Seq<NotedGame>, news: Seq<NotedGame>) -> Seq<NotedGame>
    decreases news.len(),
{
    if news.len() == 0 {
        rows
    } else {
        noted_with(noted_with_all(rows, news.drop_last()), news.last())
    }
}

/// Picks the game of a note that has one and says nothing final of it.
pub open spec fn pick_open_note() -> spec_fn(NotedGame) -> Option<GameId> {
    |n: NotedGame|
        match n.app_id {
            Some(id) => if open_state(n.state) {
                Some(id)
            } else {
                None
            },
            None => None,
        }
}

/// Picks the game of a note whose details say it is still to come.
pub open spec fn pick_upcoming_note(details: Seq<GameDetails>, now: Timestamp) -> spec_fn(
    NotedGame,
) -> Option<GameId> {
    |n: NotedGame|
        match n.app_id {
            Some(id) => if awaits_release(details, id, now) {
                Some(id)
            } else {
                None
            },
            None => None,
        }
}

/// The games of the notes that are still to come at `now`, one for each
/// such note, in the order of the notes.
pub open spec fn upcoming_noted(rows: Seq<NotedGame>, details: Seq<GameDetails>, now: Timestamp)
    -> Seq<GameId> {
    rows.filter_map(pick_upcoming_note(details, now))
}

/// Picks a note that says nothing final of a game that is out.
pub open spec fn pick_newly_released(details: Seq<GameDetails>) -> spec_fn(NotedGame) -> Option<
    ReleasedGame,
> {
    |n: NotedGame|
        match n.app_id {
            Some(id) => if open_state(n.state) && is_out(details, id) {
                Some(ReleasedGame { note_id: n.note_id, game_id: id })
            } else {
                None
            },
            None => None,
        }
}

/// The notes that say nothing final of a game that is out, in the order
/// of the notes.
pub open spec fn newly_released(rows: Seq<NotedGame>, details: Seq<GameDetails>) -> Seq<
    ReleasedGame,
> {
    rows.filter_map(pick_newly_released(details))
}

// ---------------------------------------------------------------- wish list

/// Picks the game of a row that is not marked as deleted.
pub open spec fn pick_live() -> spec_fn(WishlistedGame) -> Option<GameId> {
    |w: WishlistedGame|
        if w.deleted is None {
            Some(w.id)
        } else {
            None
        }
}

/// The games that are on the wish list now.
pub open spec fn live_ids(rows: Seq<WishlistedGame>) -> Seq<GameId> {
    rows.filter_map(pick_live())
}

/// The games of a snapshot.
pub open spec fn snapshot_ids(items: Seq<WishlistedGame>) -> Seq<GameId> {
    items.map_values(|w: WishlistedGame| w.id)
}

/// A row after the games in `wanted` are all that is left on the list: it
/// is marked as deleted at `now` where it was on the list and its game is
/// not wanted.
pub open spec fn marked_row(row: WishlistedGame, wanted: Seq<GameId>, now: Timestamp)
    -> WishlistedGame {
    if row.deleted is None && !wanted.contains(row.id) {
        WishlistedGame { deleted: Some(now), ..row }
    } else {
        row
    }
}

/// The wish list after every row that has left the list is marked.
pub open spec fn wishlist_marked(rows: Seq<WishlistedGame>, wanted: Seq<GameId>, now: Timestamp)
    -> Seq<WishlistedGame> {
    rows.map_values(|row: WishlistedGame| marked_row(row, wanted, now))
}

/// The wish list after `item` is put on it: a row that was there loses its
/// mark and keeps its date; a game without a row gets one.
pub open spec fn wishlist_with(rows: Seq<WishlistedGame>, item: WishlistedGame) -> Seq<
    WishlistedGame,
> {
    let p = position(rows, item.id);
    if p < rows.len() {
        rows.update(p, WishlistedGame { deleted: None, ..rows[p] })
    } else {
        rows.push(WishlistedGame { id: item.id, wishlisted: item.wishlisted, deleted: None })
    }
}

/// The wish list after each of `items` whose game is not in `live` is put
/// on it, in order.
pub open spec fn wishlist_with_new(
    rows: Seq<WishlistedGame>,
    live: Seq<GameId>,
    items: Seq<WishlistedGame>,
) -> Seq<WishlistedGame>
    decreases items.len(),
{
    if items.len() == 0 {
        rows
    } else {
        let before = wishlist_with_new(rows, live, items.drop_last());
        if live.contains(items.last().id) {
            before
        } else {
            wishlist_with(before, items.last())
        }
    }
}

/// The wish list after it is brought in line with a snapshot taken at
/// `now`: what has left the list is marked, what is new to it is put on.
pub open spec fn reconciled(rows: Seq<WishlistedGame>, items: Seq<WishlistedGame>, now: Timestamp)
    -> Seq<WishlistedGame> {
    wishlist_with_new(wishlist_marked(rows, snapshot_ids(items), now), live_ids(rows), items)
}

/// Picks the game of a row whose details say it is still to come.
pub open spec fn pick_upcoming_wish(details: Seq<GameDetails>, now: Timestamp) -> spec_fn(
    WishlistedGame,
) -> Option<GameId> {
    |w: WishlistedGame|
        if awaits_release(details, w.id, now) {
            Some(w.id)
        } else {
            None
        }
}

/// The games of the wish list, marked or not, that are still to come at
/// `now`.
pub open spec fn upcoming_wishlisted(
    rows: Seq<WishlistedGame>,
    details: Seq<GameDetails>,
    now: Timestamp,
) -> Seq<GameId> {
    rows.filter_map(pick_upcoming_wish(details, now))
}

// --------------------------------------------------------------- candidates

/// The games that the store follows: the owned ones, those of the wish
/// list, marked or not, and those of the notes that say nothing final.
pub open spec fn followed_ids(
    owned: Seq<OwnershipRecord>,
    wishlist: Seq<WishlistedGame>,
    noted: Seq<NotedGame>,
) -> Seq<GameId> {
    owned.map_values(|o: OwnershipRecord| o.id) + snapshot_ids(wishlist) + noted.filter_map(
        pick_open_note(),
    )
}

/// Whether the details of `id` are to be fetched: there are none, and they
/// have not failed too often.
pub open spec fn lacks_details(
    details: Seq<GameDetails>,
    failures: Seq<DetailLookupFailure>,
    id: GameId,
) -> bool {
    !holds(details, id) && !blocked(failures, id)
}

/// The games of `followed` whose details are to be fetched, each once, in
/// order, and no more than the limit.
pub open spec fn candidates(
    details: Seq<GameDetails>,
    failures: Seq<DetailLookupFailure>,
    followed: Seq<GameId>,
) -> Seq<GameId>
    decreases followed.len(),
{
    if followed.len() == 0 {
        Seq::empty()
    } else {
        let before = candidates(details, failures, followed.drop_last());
        let id = followed.last();
        if before.len() < BACKFILL_LIMIT && lacks_details(details, failures, id)
            && !before.contains(id) {
            before.push(id)
        } else {
            before
        }
    }
}

/// The games of `wanted` that the library provider is asked for in one
/// pass: each once, in the order of `wanted`, none whose details have
/// failed too often, and no more than the limit. What does not fit is left
/// for a later pass.
pub open spec fn asked(failures: Seq<DetailLookupFailure>, wanted: Seq<GameId>) -> Seq<GameId>
    decreases wanted.len(),
{
    if wanted.len() == 0 {
        Seq::empty()
    } else {
        let before = asked(failures, wanted.drop_last());
        let id = wanted.last();
        if before.len() < BACKFILL_LIMIT && !blocked(failures, id) && !before.contains(id) {
            before.push(id)
        } else {
            before
        }
    }
}

} // verus!

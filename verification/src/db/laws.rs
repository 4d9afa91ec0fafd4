//! What holds of the tables whatever they contain.

use crate::db::repo::{lemma_wishlist_marked_wf, lemma_wishlist_with_new_wf};
use crate::db::repo::lemma_note_position;
use crate::db::rules::{
    catalog_with, details_with, ignored_with, live_ids, marked_row, merged_details, merged_note,
    note_position, noted_with, owned_with, pick_live, played_with, playtime_reached, reconciled,
    snapshot_ids, wishlist_marked, wishlist_with, wishlist_with_new, CatalogEntry,
    OwnershipRecord,
};
use crate::db::rules::{
    candidates, lacks_details, noted_with_all, DetailLookupFailure, BACKFILL_LIMIT,
};
use crate::db::sync::all_noted_from;
use crate::db::table::{lemma_filter_map_holds, Record};
use crate::models::game::NotedGame;
use crate::models::steam::SteamAppIdPair;
use crate::db::sync::{
    game_named, game_of_note, log_entries, name_position, pick_change, pick_log_entry,
    pick_unidentified, pick_write_back, release_change, release_changes, stored_date,
    unidentified, write_backs, SyncEvent, UnidentifiedNote, WriteBack,
};
use crate::db::table::{holds, lemma_position, one_row_each, position};
use crate::models::game::{GameDetails, GameId, PlayedGame, WishlistedGame};
use crate::models::notion::GameNote;
use crate::steam::conv::release_estimate;
use crate::time::Timestamp;
use vstd::prelude::*;

verus! {

// ---------------------------------------------------------------- ownership

/// Recording a game as owned a second time changes nothing, and after the
/// first time the table holds exactly one row of the game.
pub proof fn lemma_owned_once(
    rows: Seq<OwnershipRecord>,
    id: GameId,
    first: Timestamp,
    second: Timestamp,
)
    requires
        one_row_each(rows),
    ensures
        owned_with(owned_with(rows, id, first), id, second) == owned_with(rows, id, first),
        exists|i: int|
            0 <= i < owned_with(rows, id, first).len() && #[trigger] owned_with(
                rows,
                id,
                first,
            )[i].id == id && forall|j: int|
                0 <= j < owned_with(rows, id, first).len() && j != i ==> owned_with(
                    rows,
                    id,
                    first,
                )[j].id != id,
{
    let once = owned_with(rows, id, first);
    if holds(rows, id) {
        let i = choose|i: int| 0 <= i < rows.len() && (#[trigger] rows[i]).id == id;
        assert(once[i].id == id);
        assert forall|j: int| 0 <= j < once.len() && j != i implies once[j].id != id by {
            if j < i {
                assert(rows[j].id != rows[i].id);
            } else {
                assert(rows[i].id != rows[j].id);
            }
        }
    } else {
        let i = rows.len() as int;
        assert(once[i].id == id);
        assert(holds(once, id));
        assert forall|j: int| 0 <= j < once.len() && j != i implies once[j].id != id by {
            assert(once[j] == rows[j]);
        }
    }
}

// --------------------------------------------------------------- candidates

/// Where the candidates stay under the limit, every followed game whose
/// details are missing and have not failed too often is one of them.
pub proof fn lemma_candidates_complete(
    details: Seq<GameDetails>,
    failures: Seq<DetailLookupFailure>,
    followed: Seq<GameId>,
    k: int,
)
    requires
        candidates(details, failures, followed).len() < BACKFILL_LIMIT,
        0 <= k < followed.len(),
        lacks_details(details, failures, followed[k]),
    ensures
        candidates(details, failures, followed).contains(followed[k]),
    decreases followed.len(),
{
    let rest = followed.drop_last();
    let before = candidates(details, failures, rest);
    let all = candidates(details, failures, followed);
    if k < followed.len() - 1 {
        assert(rest[k] == followed[k]);
        lemma_candidates_complete(details, failures, rest, k);
        let w = choose|w: int| 0 <= w < before.len() && before[w] == followed[k];
        assert(all[w] == before[w]);
    } else {
        if before.contains(followed[k]) {
            let w = choose|w: int| 0 <= w < before.len() && before[w] == followed[k];
            assert(all[w] == before[w]);
        } else {
            assert(all[before.len() as int] == followed[k]);
        }
    }
}

// ------------------------------------------------------------------ retries

/// Where the first row of a game stands is the one index that holds a row
/// of the game and has none before it, or the length where no row is of the
/// game.
pub proof fn lemma_position_is(rows: Seq<GameDetails>, id: GameId, p: int)
    requires
        0 <= p <= rows.len(),
        p < rows.len() ==> rows[p].id == id,
        forall|j: int| 0 <= j < p ==> (#[trigger] rows[j]).id != id,
    ensures
        position(rows, id) == p,
{
    lemma_position(rows, id);
    let q = position(rows, id);
    if q < p {
        assert(rows[q].id == id);
    } else if p < q {
        assert(rows[p].game() != id);
    }
}

/// Where the row of a note stands is the one index that holds a row of the
/// note and has none before it, or the length where no row is of the note.
pub proof fn lemma_note_position_is(rows: Seq<NotedGame>, note_id: Seq<char>, p: int)
    requires
        0 <= p <= rows.len(),
        p < rows.len() ==> rows[p].note_id@ == note_id,
        forall|j: int| 0 <= j < p ==> (#[trigger] rows[j]).note_id@ != note_id,
    ensures
        note_position(rows, note_id) == p,
{
    lemma_note_position(rows, note_id);
    let q = note_position(rows, note_id);
    if q < p {
        assert(rows[q].note_id@ == note_id);
    } else if p < q {
        assert(rows[p].note_id@ != note_id);
    }
}

/// Seeing a game of the catalogue a second time changes nothing.
pub proof fn lemma_catalog_retry(rows: Seq<CatalogEntry>, game: SteamAppIdPair)
    ensures
        catalog_with(catalog_with(rows, game), game) == catalog_with(rows, game),
{
    let once = catalog_with(rows, game);
    let id = GameId { app_id: game.appid };
    if !holds(rows, id) {
        assert(once[rows.len() as int].game() == id);
    }
}

/// Ignoring a game a second time changes nothing.
pub proof fn lemma_ignored_retry(rows: Seq<GameId>, id: GameId)
    ensures
        ignored_with(ignored_with(rows, id), id) == ignored_with(rows, id),
{
    let once = ignored_with(rows, id);
    if !holds(rows, id) {
        assert(once[rows.len() as int].game() == id);
    }
}

/// Bringing the same playtime a second time changes nothing.
pub proof fn lemma_played_retry(rows: Seq<PlayedGame>, update: PlayedGame)
    ensures
        played_with(played_with(rows, update), update) == played_with(rows, update),
{
    let once = played_with(rows, update);
    if !playtime_reached(rows, update) {
        assert(once[rows.len() as int].id == update.id);
        assert(playtime_reached(once, update));
    }
}

/// Taking in the same details a second time changes nothing.
pub proof fn lemma_details_retry(rows: Seq<GameDetails>, new: GameDetails)
    ensures
        details_with(details_with(rows, new), new) == details_with(rows, new),
{
    lemma_position(rows, new.id);
    let p = position(rows, new.id);
    let once = details_with(rows, new);
    assert forall|j: int| 0 <= j < p implies (#[trigger] once[j]).id != new.id by {
        assert(rows[j].game() != new.id);
    }
    lemma_position_is(once, new.id, p);
    let kept = once[p];
    assert(merged_details(kept, new) == kept);
    assert(once.update(p, kept) =~= once);
}

/// Taking in the same note a second time changes nothing.
pub proof fn lemma_noted_retry(rows: Seq<NotedGame>, new: NotedGame)
    ensures
        noted_with(noted_with(rows, new), new) == noted_with(rows, new),
{
    lemma_note_position(rows, new.note_id@);
    let p = note_position(rows, new.note_id@);
    let once = noted_with(rows, new);
    assert forall|j: int| 0 <= j < p implies (#[trigger] once[j]).note_id@ != new.note_id@ by {
        assert(rows[j].note_id@ != new.note_id@);
    }
    lemma_note_position_is(once, new.note_id@, p);
    let kept = once[p];
    assert(merged_note(kept, new) == kept);
    assert(once.update(p, kept) =~= once);
}

// ----------------------------------------------------------------- playtime

/// An update that brings no more playtime than a row of its game holds
/// changes nothing; one that brings more than every row of its game holds
/// is added at the end.
pub proof fn lemma_playtime_guard(rows: Seq<PlayedGame>, stored: int, update: PlayedGame)
    requires
        0 <= stored < rows.len(),
        rows[stored].id == update.id,
    ensures
        update.playtime <= rows[stored].playtime ==> played_with(rows, update) == rows,
        (forall|i: int| 0 <= i < rows.len() && rows[i].id == update.id ==> rows[i].playtime
            < update.playtime) ==> played_with(rows, update) == rows.push(update),
{
    if update.playtime <= rows[stored].playtime {
        assert(playtime_reached(rows, update));
    }
}

// ---------------------------------------------------------------- wish list

/// Whether the wish list holds a row of `id` that is not marked as
/// deleted.
pub open spec fn is_live(rows: Seq<WishlistedGame>, id: GameId) -> bool {
    exists|i: int| 0 <= i < rows.len() && (#[trigger] rows[i]).id == id && rows[i].deleted is None
}

/// Whether every row that is not marked as deleted belongs to a game in
/// `wanted`.
pub open spec fn live_within(rows: Seq<WishlistedGame>, wanted: Seq<GameId>) -> bool {
    forall|i: int|
        0 <= i < rows.len() && (#[trigger] rows[i]).deleted is None ==> wanted.contains(rows[i].id)
}

/// The games on the wish list are those that have a row which is not
/// marked as deleted.
pub proof fn lemma_live_ids(rows: Seq<WishlistedGame>, id: GameId)
    ensures
        live_ids(rows).contains(id) <==> is_live(rows, id),
    decreases rows.len(),
{
    if rows.len() == 0 {
    } else {
        let rest = rows.drop_last();
        lemma_live_ids(rest, id);
        let last = rows.last();
        let before = rest.filter_map(pick_live());
        let all = live_ids(rows);
        if is_live(rows, id) {
            let i = choose|i: int|
                0 <= i < rows.len() && (#[trigger] rows[i]).id == id && rows[i].deleted is None;
            if i < rest.len() {
                assert(rest[i] == rows[i]);
                assert(is_live(rest, id));
                let w = choose|w: int| 0 <= w < before.len() && before[w] == id;
                assert(all[w] == id);
            } else {
                assert(all == before + seq![id]);
                assert(all[before.len() as int] == id);
            }
        }
        if all.contains(id) {
            let w = choose|w: int| 0 <= w < all.len() && all[w] == id;
            if w < before.len() {
                assert(before[w] == id);
                assert(before.contains(id));
                let i = choose|i: int|
                    0 <= i < rest.len() && (#[trigger] rest[i]).id == id && rest[i].deleted is None;
                assert(rows[i] == rest[i]);
            } else {
                assert(rows[rows.len() - 1] == last);
            }
        }
    }
}

/// Putting a game on the wish list leaves every earlier row where it was,
/// with its game and its date; it marks no row as deleted; and the game put
/// on has a row that is not marked.
pub proof fn lemma_wishlist_with(rows: Seq<WishlistedGame>, item: WishlistedGame)
    ensures
        wishlist_with(rows, item).len() >= rows.len(),
        forall|i: int|
            0 <= i < rows.len() ==> (#[trigger] wishlist_with(rows, item)[i]).id == rows[i].id
                && wishlist_with(rows, item)[i].wishlisted == rows[i].wishlisted && (rows[i].id
                != item.id ==> wishlist_with(rows, item)[i] == rows[i]) && (rows[i].deleted is None
                ==> wishlist_with(rows, item)[i].deleted is None),
        forall|i: int|
            rows.len() <= i < wishlist_with(rows, item).len() ==> (#[trigger] wishlist_with(
                rows,
                item,
            )[i]).id == item.id,
        is_live(wishlist_with(rows, item), item.id),
{
    lemma_position(rows, item.id);
    let p = position(rows, item.id);
    let after = wishlist_with(rows, item);
    if p < rows.len() {
        assert(after[p].id == item.id && after[p].deleted is None);
    } else {
        assert(after[rows.len() as int].id == item.id && after[rows.len() as int].deleted is None);
    }
}

/// Putting the new games of a snapshot on the wish list leaves every
/// earlier row where it was, with its game and its date, and marks no row
/// as deleted. A row of a game that is in `live`, or not in the snapshot,
/// stays as it was.
pub proof fn lemma_wishlist_with_new(
    rows: Seq<WishlistedGame>,
    live: Seq<GameId>,
    items: Seq<WishlistedGame>,
)
    ensures
        wishlist_with_new(rows, live, items).len() >= rows.len(),
        forall|i: int|
            0 <= i < rows.len() ==> (#[trigger] wishlist_with_new(rows, live, items)[i]).id
                == rows[i].id && wishlist_with_new(rows, live, items)[i].wishlisted
                == rows[i].wishlisted && (rows[i].deleted is None ==> wishlist_with_new(
                rows,
                live,
                items,
            )[i].deleted is None) && ((live.contains(rows[i].id) || !snapshot_ids(items).contains(
                rows[i].id,
            )) ==> wishlist_with_new(rows, live, items)[i] == rows[i]),
        forall|i: int|
            rows.len() <= i < wishlist_with_new(rows, live, items).len() ==> snapshot_ids(
                items,
            ).contains((#[trigger] wishlist_with_new(rows, live, items)[i]).id),
        forall|i: int|
            0 <= i < wishlist_with_new(rows, live, items).len() && (#[trigger] wishlist_with_new(
                rows,
                live,
                items,
            )[i]).deleted is None && !(i < rows.len() && rows[i].deleted is None)
                ==> snapshot_ids(items).contains(wishlist_with_new(rows, live, items)[i].id),
    decreases items.len(),
{
    if items.len() > 0 {
        let rest = items.drop_last();
        let item = items.last();
        lemma_wishlist_with_new(rows, live, rest);
        let before = wishlist_with_new(rows, live, rest);
        let after = wishlist_with_new(rows, live, items);
        lemma_wishlist_with(before, item);
        lemma_position(before, item.id);
        assert(snapshot_ids(items)[items.len() - 1] == item.id);
        assert forall|id: GameId| snapshot_ids(rest).contains(id) implies snapshot_ids(
            items,
        ).contains(id) by {
            let w = choose|w: int| 0 <= w < snapshot_ids(rest).len() && snapshot_ids(rest)[w] == id;
            assert(snapshot_ids(items)[w] == id);
        }
        assert forall|i: int| 0 <= i < rows.len() implies (#[trigger] after[i]).id == rows[i].id
            && after[i].wishlisted == rows[i].wishlisted && (rows[i].deleted is None
            ==> after[i].deleted is None) && ((live.contains(rows[i].id) || !snapshot_ids(
            items,
        ).contains(rows[i].id)) ==> after[i] == rows[i]) by {
            assert(before[i].id == rows[i].id);
            if !live.contains(item.id) {
                assert(after[i].id == before[i].id);
            }
        }
        assert forall|i: int| rows.len() <= i < after.len() implies snapshot_ids(items).contains(
            (#[trigger] after[i]).id,
        ) by {
            if i < before.len() {
                assert(after[i].id == before[i].id);
                assert(snapshot_ids(rest).contains(before[i].id));
            }
        }
        assert forall|i: int|
            0 <= i < after.len() && (#[trigger] after[i]).deleted is None && !(i < rows.len()
                && rows[i].deleted is None) implies snapshot_ids(items).contains(after[i].id) by {
            if i < before.len() {
                assert(after[i].id == before[i].id);
                if before[i].deleted is None {
                    assert(snapshot_ids(rest).contains(before[i].id));
                } else {
                    assert(after[i] != before[i]);
                    assert(after[i].id == item.id);
                }
            }
        }
    }
}

/// A game that has a row which is not marked keeps one when the new games
/// of a snapshot are put on the wish list.
pub proof fn lemma_stays_live(
    rows: Seq<WishlistedGame>,
    live: Seq<GameId>,
    items: Seq<WishlistedGame>,
    id: GameId,
)
    requires
        is_live(rows, id),
    ensures
        is_live(wishlist_with_new(rows, live, items), id),
{
    lemma_wishlist_with_new(rows, live, items);
    let i = choose|i: int|
        0 <= i < rows.len() && (#[trigger] rows[i]).id == id && rows[i].deleted is None;
    let after = wishlist_with_new(rows, live, items);
    assert(after[i].id == id && after[i].deleted is None);
}

/// After the new games of a snapshot are put on the wish list, every game
/// of the snapshot has a row that is not marked, provided that each game
/// in `live` that the snapshot names had one before.
pub proof fn lemma_snapshot_live(
    rows: Seq<WishlistedGame>,
    live: Seq<GameId>,
    items: Seq<WishlistedGame>,
    k: int,
)
    requires
        0 <= k < items.len(),
        forall|id: GameId| live.contains(id) && snapshot_ids(items).contains(id) ==> is_live(rows, id),
    ensures
        is_live(wishlist_with_new(rows, live, items), items[k].id),
    decreases items.len(),
{
    let rest = items.drop_last();
    let item = items.last();
    let before = wishlist_with_new(rows, live, rest);
    assert forall|id: GameId| snapshot_ids(rest).contains(id) implies snapshot_ids(items).contains(
        id,
    ) by {
        let w = choose|w: int| 0 <= w < snapshot_ids(rest).len() && snapshot_ids(rest)[w] == id;
        assert(snapshot_ids(items)[w] == id);
    }
    if k < items.len() - 1 {
        lemma_snapshot_live(rows, live, rest, k);
        assert(rest[k] == items[k]);
        if !live.contains(item.id) {
            lemma_wishlist_with(before, item);
            let i = choose|i: int|
                0 <= i < before.len() && (#[trigger] before[i]).id == items[k].id
                    && before[i].deleted is None;
            let after = wishlist_with(before, item);
            assert(after[i].id == items[k].id && after[i].deleted is None);
        }
    } else {
        if live.contains(item.id) {
            assert(snapshot_ids(items)[k] == item.id);
            lemma_stays_live(rows, live, rest, item.id);
        } else {
            lemma_wishlist_with(before, item);
        }
    }
}

/// Where every game of a snapshot is in `live`, putting the new games of
/// the snapshot on the wish list changes nothing.
pub proof fn lemma_nothing_new(
    rows: Seq<WishlistedGame>,
    live: Seq<GameId>,
    items: Seq<WishlistedGame>,
)
    requires
        forall|k: int| 0 <= k < items.len() ==> live.contains((#[trigger] items[k]).id),
    ensures
        wishlist_with_new(rows, live, items) == rows,
    decreases items.len(),
{
    if items.len() > 0 {
        let rest = items.drop_last();
        assert forall|k: int| 0 <= k < rest.len() implies live.contains((#[trigger] rest[k]).id) by {
            assert(rest[k] == items[k]);
        }
        lemma_nothing_new(rows, live, rest);
        assert(live.contains(items[items.len() - 1].id));
    }
}

/// What bringing the wish list in line with a snapshot does to the rows it
/// held: a row that was on the list and whose game the snapshot lacks is
/// marked as deleted at `now`; a row that was on the list and whose game
/// the snapshot names stays as it was; every row keeps its game and the
/// date it was first wished for. And every game of the snapshot ends up
/// with a row that is not marked.
pub proof fn lemma_reconciled(rows: Seq<WishlistedGame>, items: Seq<WishlistedGame>, now: Timestamp)
    requires
        one_row_each(rows),
    ensures
        one_row_each(reconciled(rows, items, now)),
        reconciled(rows, items, now).len() >= rows.len(),
        forall|i: int|
            0 <= i < rows.len() ==> (#[trigger] reconciled(rows, items, now)[i]).id == rows[i].id
                && reconciled(rows, items, now)[i].wishlisted == rows[i].wishlisted,
        forall|i: int|
            0 <= i < rows.len() && rows[i].deleted is None && !snapshot_ids(items).contains(
                rows[i].id,
            ) ==> (#[trigger] reconciled(rows, items, now)[i]).deleted == Some(now),
        forall|i: int|
            0 <= i < rows.len() && rows[i].deleted is None && snapshot_ids(items).contains(
                rows[i].id,
            ) ==> #[trigger] reconciled(rows, items, now)[i] == rows[i],
        forall|k: int|
            0 <= k < items.len() ==> is_live(reconciled(rows, items, now), (#[trigger] items[k]).id),
        live_within(reconciled(rows, items, now), snapshot_ids(items)),
{
    let wanted = snapshot_ids(items);
    let marked = wishlist_marked(rows, wanted, now);
    let live = live_ids(rows);
    let after = reconciled(rows, items, now);
    lemma_wishlist_marked_wf(rows, wanted, now);
    lemma_wishlist_with_new_wf(marked, live, items);
    lemma_wishlist_with_new(marked, live, items);
    assert forall|i: int| 0 <= i < rows.len() implies (#[trigger] after[i]).id == rows[i].id
        && after[i].wishlisted == rows[i].wishlisted by {
        assert(marked[i] == marked_row(rows[i], wanted, now));
    }
    assert forall|i: int|
        0 <= i < rows.len() && rows[i].deleted is None && !wanted.contains(
            rows[i].id,
        ) implies (#[trigger] after[i]).deleted == Some(now) by {
        assert(marked[i] == marked_row(rows[i], wanted, now));
        assert(!wanted.contains(marked[i].id));
    }
    assert forall|i: int|
        0 <= i < rows.len() && rows[i].deleted is None && wanted.contains(
            rows[i].id,
        ) implies #[trigger] after[i] == rows[i] by {
        assert(marked[i] == marked_row(rows[i], wanted, now));
        lemma_live_ids(rows, rows[i].id);
        assert(is_live(rows, rows[i].id));
    }
    assert forall|id: GameId| live.contains(id) && wanted.contains(id) implies is_live(
        marked,
        id,
    ) by {
        lemma_live_ids(rows, id);
        let i = choose|i: int|
            0 <= i < rows.len() && (#[trigger] rows[i]).id == id && rows[i].deleted is None;
        assert(marked[i] == marked_row(rows[i], wanted, now));
    }
    assert forall|k: int| 0 <= k < items.len() implies is_live(after, (#[trigger] items[k]).id) by {
        lemma_snapshot_live(marked, live, items, k);
    }
    assert forall|i: int|
        0 <= i < after.len() && (#[trigger] after[i]).deleted is None implies wanted.contains(
        after[i].id,
    ) by {
        if i < marked.len() && marked[i].deleted is None {
            assert(marked[i] == marked_row(rows[i], wanted, now));
            assert(after[i].id == marked[i].id);
        }
    }
}

/// Bringing the wish list in line with the same snapshot a second time
/// changes nothing, whenever the second time is.
pub proof fn lemma_reconciled_twice(
    rows: Seq<WishlistedGame>,
    items: Seq<WishlistedGame>,
    first: Timestamp,
    second: Timestamp,
)
    requires
        one_row_each(rows),
    ensures
        reconciled(reconciled(rows, items, first), items, second) == reconciled(rows, items, first),
{
    let once = reconciled(rows, items, first);
    let wanted = snapshot_ids(items);
    lemma_reconciled(rows, items, first);
    let marked = wishlist_marked(once, wanted, second);
    assert(marked =~= once) by {
        assert forall|i: int| 0 <= i < once.len() implies marked[i] == once[i] by {
            assert(marked[i] == marked_row(once[i], wanted, second));
        }
    }
    let live = live_ids(once);
    assert forall|k: int| 0 <= k < items.len() implies live.contains((#[trigger] items[k]).id) by {
        lemma_live_ids(once, items[k].id);
    }
    lemma_nothing_new(once, live, items);
}

/// A game that comes back to the wish list keeps the date it was first
/// wished for, and its row is not marked as deleted any more.
pub proof fn lemma_wished_again(
    rows: Seq<WishlistedGame>,
    items: Seq<WishlistedGame>,
    now: Timestamp,
    stored: int,
    k: int,
)
    requires
        one_row_each(rows),
        0 <= stored < rows.len(),
        0 <= k < items.len(),
        items[k].id == rows[stored].id,
    ensures
        stored < reconciled(rows, items, now).len(),
        reconciled(rows, items, now)[stored].id == rows[stored].id,
        reconciled(rows, items, now)[stored].wishlisted == rows[stored].wishlisted,
        reconciled(rows, items, now)[stored].deleted is None,
{
    lemma_reconciled(rows, items, now);
    let after = reconciled(rows, items, now);
    let id = rows[stored].id;
    assert(is_live(after, items[k].id));
    let i = choose|i: int|
        0 <= i < after.len() && (#[trigger] after[i]).id == id && after[i].deleted is None;
    assert(after[stored].id == id);
    if i < stored {
        assert(after[i].id != after[stored].id);
    } else if stored < i {
        assert(after[stored].id != after[i].id);
    }
}

// ------------------------------------------------------- release date changes

/// New details of one game give exactly one event, with both release dates
/// as they are written, and one row of the audit trail, where the store
/// holds a release date of the game that is written differently; they give
/// none where the release date is written as before.
pub proof fn lemma_one_change(
    details: Seq<GameDetails>,
    new: GameDetails,
    prev: String,
    curr: String,
    now: Timestamp,
)
    requires
        stored_date(details, new.id) == Some(prev),
        new.release_date == Some(curr),
    ensures
        prev@ == curr@ ==> release_changes(details, seq![new]).len() == 0,
        prev@ != curr@ ==> release_changes(details, seq![new]) == seq![
            SyncEvent::ReleaseDateUpdated {
                game: new.id,
                prev_text: prev,
                prev_date: release_estimate(prev@),
                new_text: curr,
                new_date: release_estimate(curr@),
            },
        ] && log_entries(release_changes(details, seq![new]), now).len() == 1,
{
    let news = seq![new];
    assert(news.drop_last() =~= Seq::<GameDetails>::empty());
    assert(news.drop_last().filter_map(pick_change(details)) =~= Seq::<SyncEvent>::empty());
    assert(news.last() == new);
    if prev@ != curr@ {
        let event = release_change(details, new)->0;
        let events = seq![event];
        assert(release_changes(details, news) =~= events);
        assert(events.drop_last() =~= Seq::<SyncEvent>::empty());
        assert(events.drop_last().filter_map(pick_log_entry(now)).len() == 0);
        assert(events.last() == event);
    }
}

// -------------------------------------------------------------------- notes

/// A note without an identifier whose name is exactly that of an entry of
/// the catalogue gets the game of the first such entry, and gives exactly
/// one identifier to write back, with that game.
pub proof fn lemma_note_resolved(note: GameNote, name: String, found: Seq<CatalogEntry>, at: int)
    requires
        note.app_id is None,
        note.name == Some(name),
        0 <= at < found.len(),
        found[at].name@ == name@,
    ensures
        game_named(found, name@) is Some,
        game_of_note(note, found) == game_named(found, name@),
        write_backs(unidentified(seq![note]), found) == seq![
            WriteBack { note_id: note.id, app_id: game_named(found, name@)->0, name },
        ],
{
    lemma_name_position(found, name@);
    let p = name_position(found, name@);
    if p >= found.len() {
        assert(found[at].name@ != name@);
    }
    let notes = seq![note];
    assert(notes.drop_last() =~= Seq::<GameNote>::empty());
    assert(notes.drop_last().filter_map(pick_unidentified()) =~= Seq::<UnidentifiedNote>::empty());
    assert(notes.last() == note);
    let one = UnidentifiedNote { note_id: note.id, name };
    assert(unidentified(notes) =~= seq![one]);
    let missing = seq![one];
    assert(missing.drop_last() =~= Seq::<UnidentifiedNote>::empty());
    assert(missing.drop_last().filter_map(pick_write_back(found)) =~= Seq::<WriteBack>::empty());
    assert(missing.last() == one);
    assert(write_backs(missing, found) =~= seq![
        WriteBack { note_id: note.id, app_id: game_named(found, name@)->0, name },
    ]);
}

/// After rows are taken in, the notes table holds, for a row that no later
/// row of the same note followed, what that row brought: its game, state,
/// tags, rating and text.
pub proof fn lemma_noted_last_wins(stored: Seq<NotedGame>, rows: Seq<NotedGame>, i: int)
    requires
        0 <= i < rows.len(),
        forall|j: int| i < j < rows.len() ==> (#[trigger] rows[j]).note_id@ != rows[i].note_id@,
    ensures
        ({
            let after = noted_with_all(stored, rows);
            let p = note_position(after, rows[i].note_id@);
            &&& p < after.len()
            &&& after[p].app_id == rows[i].app_id
            &&& after[p].state == rows[i].state
            &&& after[p].tags == rows[i].tags
            &&& after[p].my_rating == rows[i].my_rating
            &&& after[p].notes == rows[i].notes
        }),
    decreases rows.len(),
{
    let rest = rows.drop_last();
    let last = rows.last();
    let before = noted_with_all(stored, rest);
    let after = noted_with_all(stored, rows);
    let id = rows[i].note_id@;
    lemma_note_position(before, last.note_id@);
    let q = note_position(before, last.note_id@);
    if i == rows.len() - 1 {
        assert forall|j: int| 0 <= j < q implies (#[trigger] after[j]).note_id@ != id by {
            assert(before[j].note_id@ != id);
        }
        lemma_note_position_is(after, id, q);
    } else {
        assert(rest[i] == rows[i]);
        assert forall|j: int| i < j < rest.len() implies (#[trigger] rest[j]).note_id@
            != rest[i].note_id@ by {
            assert(rest[j] == rows[j]);
        }
        lemma_noted_last_wins(stored, rest, i);
        lemma_note_position(before, id);
        let p = note_position(before, id);
        assert(last.note_id@ != id);
        assert forall|j: int| 0 <= j < p implies (#[trigger] after[j]).note_id@ != id by {
            assert(before[j].note_id@ != id);
        }
        assert(after[p] == before[p]);
        lemma_note_position_is(after, id, p);
    }
}

/// A note without an identifier whose name is exactly that of an entry of
/// the catalogue is stored with the game of the first such entry, provided
/// that no later note of the same pass has its identifier; and the
/// identifier to write back to it, with that game, is among those that the
/// pass gives.
pub proof fn lemma_note_taken_in(
    stored: Seq<NotedGame>,
    notes: Seq<GameNote>,
    found: Seq<CatalogEntry>,
    rows: Seq<NotedGame>,
    i: int,
    name: String,
    at: int,
)
    requires
        all_noted_from(notes, found, rows),
        0 <= i < notes.len(),
        notes[i].app_id is None,
        notes[i].name == Some(name),
        0 <= at < found.len(),
        found[at].name@ == name@,
        forall|j: int| i < j < notes.len() ==> (#[trigger] notes[j]).id@ != notes[i].id@,
    ensures
        game_named(found, name@) is Some,
        ({
            let after = noted_with_all(stored, rows);
            let p = note_position(after, notes[i].id@);
            p < after.len() && after[p].app_id == game_named(found, name@)
        }),
        write_backs(unidentified(notes), found).contains(
            WriteBack { note_id: notes[i].id, app_id: game_named(found, name@)->0, name },
        ),
{
    lemma_note_resolved(notes[i], name, found, at);
    assert(rows[i].note_id == notes[i].id);
    assert forall|j: int| i < j < rows.len() implies (#[trigger] rows[j]).note_id@
        != rows[i].note_id@ by {
        assert(rows[j].note_id == notes[j].id);
    }
    lemma_noted_last_wins(stored, rows, i);
    let one = UnidentifiedNote { note_id: notes[i].id, name };
    lemma_filter_map_holds(notes, pick_unidentified(), i);
    let missing = unidentified(notes);
    let w = choose|w: int| 0 <= w < missing.len() && missing[w] == one;
    lemma_filter_map_holds(missing, pick_write_back(found), w);
}

/// `name_position` is the index of the first entry of that name, and past
/// the end exactly when no entry has the name.
pub proof fn lemma_name_position(found: Seq<CatalogEntry>, name: Seq<char>)
    ensures
        0 <= name_position(found, name) <= found.len(),
        name_position(found, name) < found.len() ==> found[name_position(found, name)].name@
            == name,
        forall|j: int| 0 <= j < name_position(found, name) ==> (#[trigger] found[j]).name@ != name,
    decreases found.len(),
{
    if found.len() == 0 {
    } else if found.first().name@ == name {
    } else {
        let rest = found.drop_first();
        lemma_name_position(rest, name);
        let p = name_position(rest, name);
        if p < rest.len() {
            assert(found[p + 1] == rest[p]);
        }
        assert forall|j: int| 0 <= j < p + 1 implies (#[trigger] found[j]).name@ != name by {
            if j > 0 {
                assert(rest[j - 1] == found[j]);
            }
        }
    }
}

} // verus!

//! Rows that are found by a game's identifier.

use crate::models::game::{GameDetails, GameId, WishlistedGame};
use vstd::prelude::*;

verus! {

/// A row that belongs to one game.
pub trait Record: Sized {
    /// The game that the row belongs to.
    spec fn game(&self) -> GameId;

    /// The game that the row belongs to.
    fn id(&self) -> (id: GameId)
        ensures
            id == self.game(),
    ;
}

/// Whether some row of `rows` belongs to `id`.
pub open spec fn holds<R: Record>(rows: Seq<R>, id: GameId) -> bool {
    exists|i: int| 0 <= i < rows.len() && (#[trigger] rows[i]).game() == id
}

/// Whether no two rows of `rows` belong to the same game.
pub open spec fn one_row_each<R: Record>(rows: Seq<R>) -> bool {
    forall|i: int, j: int|
        0 <= i < j < rows.len() ==> (#[trigger] rows[i]).game() != (#[trigger] rows[j]).game()
}

/// Where the first row of `id` stands in `rows`; the length of `rows` where
/// there is none.
pub open spec fn position<R: Record>(rows: Seq<R>, id: GameId) -> int
    decreases rows.len(),
{
    if rows.len() == 0 {
        0
    } else if rows.first().game() == id {
        0
    } else {
        1 + position(rows.drop_first(), id)
    }
}

/// `position` is the index of the first row of `id`, and past the end
/// exactly when no row belongs to `id`.
pub proof fn lemma_position<R: Record>(rows: Seq<R>, id: GameId)
    ensures
        0 <= position(rows, id) <= rows.len(),
        position(rows, id) < rows.len() <==> holds(rows, id),
        position(rows, id) < rows.len() ==> rows[position(rows, id)].game() == id,
        forall|j: int| 0 <= j < position(rows, id) ==> (#[trigger] rows[j]).game() != id,
    decreases rows.len(),
{
    if rows.len() == 0 {
    } else if rows.first().game() == id {
        assert(rows[0].game() == id);
    } else {
        let rest = rows.drop_first();
        lemma_position(rest, id);
        let p = position(rest, id);
        if p < rest.len() {
            assert(rows[p + 1] == rest[p]);
            assert(rows[p + 1].game() == id);
        }
        if holds(rows, id) {
            let i = choose|i: int| 0 <= i < rows.len() && (#[trigger] rows[i]).game() == id;
            assert(rest[i - 1] == rows[i]);
            assert(holds(rest, id));
        }
        assert forall|j: int| 0 <= j < p + 1 implies (#[trigger] rows[j]).game() != id by {
            if j > 0 {
                assert(rest[j - 1] == rows[j]);
            }
        }
    }
}

/// Looks for the first row of `id`.
pub fn find<R: Record>(rows: &Vec<R>, id: GameId) -> (r: Option<usize>)
    ensures
        r is Some <==> holds(rows@, id),
        r matches Some(i) ==> i == position(rows@, id) && i < rows.len() && rows@[i as int].game()
            == id,
{
    let mut i: usize = 0;
    while i < rows.len()
        invariant
            i <= rows.len(),
            forall|j: int| 0 <= j < i ==> (#[trigger] rows@[j]).game() != id,
        decreases rows.len() - i,
    {
        if rows[i].id().app_id == id.app_id {
            proof {
                lemma_position(rows@, id);
                assert(rows@[i as int].game() == id);
                let p = position(rows@, id);
                assert(rows@[p].game() == id);
            }
            return Some(i);
        }
        i += 1;
    }
    None
}

/// Whether no two rows of `rows` belong to the same game.
pub fn has_one_row_each<R: Record>(rows: &Vec<R>) -> (b: bool)
    ensures
        b == one_row_each(rows@),
{
    let mut j: usize = 0;
    while j < rows.len()
        invariant
            j <= rows.len(),
            forall|a: int, c: int|
                0 <= a < c < j ==> (#[trigger] rows@[a]).game() != (#[trigger] rows@[c]).game(),
        decreases rows.len() - j,
    {
        match find(rows, rows[j].id()) {
            Some(p) => {
                if p != j {
                    proof {
                        lemma_position(rows@, rows@[j as int].game());
                        assert(p < j);
                        assert(rows@[p as int].game() == rows@[j as int].game());
                    }
                    return false;
                }
                proof {
                    lemma_position(rows@, rows@[j as int].game());
                }
            },
            None => {
                assert(rows@[j as int].game() == rows@[j as int].game());
                assert(holds(rows@, rows@[j as int].game()));
            },
        }
        j += 1;
    }
    true
}

/// Whether `id` is one of `ids`.
pub fn listed(ids: &Vec<GameId>, id: GameId) -> (r: bool)
    ensures
        r == ids@.contains(id),
{
    let mut i: usize = 0;
    while i < ids.len()
        invariant
            i <= ids.len(),
            forall|j: int| 0 <= j < i ==> ids@[j] != id,
        decreases ids.len() - i,
    {
        if ids[i].app_id == id.app_id {
            assert(ids@[i as int] == id);
            return true;
        }
        i += 1;
    }
    false
}

impl Record for GameId {
    open spec fn game(&self) -> GameId {
        *self
    }

    fn id(&self) -> (id: GameId) {
        *self
    }
}

impl Record for GameDetails {
    open spec fn game(&self) -> GameId {
        self.id
    }

    fn id(&self) -> (id: GameId) {
        self.id
    }
}

impl Record for WishlistedGame {
    open spec fn game(&self) -> GameId {
        self.id
    }

    fn id(&self) -> (id: GameId) {
        self.id
    }
}

/// What `filter_map` makes of one row more: the row's value, where it has
/// one, after what it made of the rows before.
pub proof fn lemma_filter_map_step<A, B>(rows: Seq<A>, i: int, f: spec_fn(A) -> Option<B>)
    requires
        0 <= i < rows.len(),
    ensures
        rows.take(i + 1).filter_map(f) == match f(rows[i]) {
            Some(b) => rows.take(i).filter_map(f).push(b),
            None => rows.take(i).filter_map(f),
        },
{
    assert(rows.take(i + 1).drop_last() =~= rows.take(i));
    assert(rows.take(i + 1).last() == rows[i]);
    match f(rows[i]) {
        Some(b) => {
            assert(rows.take(i).filter_map(f) + seq![b] =~= rows.take(i).filter_map(f).push(b));
        },
        None => {},
    }
}

/// What `filter_map` makes of a sequence holds the value of every row that
/// has one.
pub proof fn lemma_filter_map_holds<A, B>(rows: Seq<A>, f: spec_fn(A) -> Option<B>, i: int)
    requires
        0 <= i < rows.len(),
        f(rows[i]) is Some,
    ensures
        rows.filter_map(f).contains(f(rows[i])->0),
    decreases rows.len(),
{
    let rest = rows.drop_last();
    let before = rest.filter_map(f);
    let all = rows.filter_map(f);
    if i < rows.len() - 1 {
        lemma_filter_map_holds(rest, f, i);
        assert(rest[i] == rows[i]);
        let w = choose|w: int| 0 <= w < before.len() && before[w] == f(rows[i])->0;
        assert(all[w] == before[w]);
    } else {
        assert(all == before + seq![f(rows[i])->0]);
        assert(all[before.len() as int] == f(rows[i])->0);
    }
}

/// A row put in the place of another of the same game leaves one row for
/// each game.
pub proof fn lemma_update_keeps_one_row_each<R: Record>(rows: Seq<R>, p: int, row: R)
    requires
        one_row_each(rows),
        0 <= p < rows.len(),
        row.game() == rows[p].game(),
    ensures
        one_row_each(rows.update(p, row)),
{
    let after = rows.update(p, row);
    assert forall|i: int, j: int| 0 <= i < j < after.len() implies (#[trigger] after[i]).game() != (
    #[trigger] after[j]).game() by {
        assert(after[i].game() == rows[i].game());
        assert(after[j].game() == rows[j].game());
    }
}

/// A row added for a game that has none leaves one row for each game.
pub proof fn lemma_push_keeps_one_row_each<R: Record>(rows: Seq<R>, row: R)
    requires
        one_row_each(rows),
        !holds(rows, row.game()),
    ensures
        one_row_each(rows.push(row)),
{
    let after = rows.push(row);
    assert forall|i: int, j: int| 0 <= i < j < after.len() implies (#[trigger] after[i]).game() != (
    #[trigger] after[j]).game() by {
        if j == rows.len() {
            assert(rows[i].game() != row.game());
        } else {
            assert(after[i] == rows[i] && after[j] == rows[j]);
        }
    }
}

} // verus!

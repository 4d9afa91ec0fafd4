//! One pass over the library provider and one over the notes provider.

use crate::db::repo::{
    is_blocked, GameDetailsHandling, NotedGamesHandling, OwnedGamesHandling,
    PlayedGamesHandling, Repo, RepoError, SteamGamesHandling, WishlistHandling,
};
use crate::db::rules::{
    asked, blocked, candidates, catalog_with_all, details_with_all, entries_named,
    failures_with_all, followed_ids, newly_released, noted_with_all, owned_with_all,
    played_with_all, reconciled, upcoming_noted, upcoming_wishlisted, CatalogEntry,
    DetailLookupFailure, OwnershipRecord, ReleaseUpdateLogEntry, BACKFILL_LIMIT,
};
use crate::db::table::{find, lemma_filter_map_step, lemma_position, listed, position};
use crate::models::game::{
    clone_state, GameDetails, GameId, GameState, NotedGame, PlayedGame, ReleasedGame,
    SteamPlaytime, WishlistedGame,
};
use crate::models::notion::{tag_names, GameNote};
use crate::models::steam::SteamAppIdPair;
use crate::notion::{NotionError, NotionHandling};
use crate::steam::conv::{parse_release_date, release_estimate};
use crate::steam::{
    SteamAppDetailsHandling, SteamAppsServiceHandling, SteamError, SteamHandling,
    SteamPlayerServiceHandling, SteamWishlistHandling,
};
use crate::text::{clone_optional, parse_u32, u32_reading};
use crate::time::Timestamp;
use vstd::prelude::*;

verus! {

/// Why a pass stopped.
#[derive(Debug, PartialEq)]
pub enum SyncError {
    /// The notes provider failed.
    Notion(NotionError),
    /// The store failed.
    Repo(RepoError),
    /// The library provider failed.
    Steam(SteamError),
}

/// Something that a pass found and that is worth telling.
#[derive(Debug, PartialEq)]
pub enum SyncEvent {
    /// The release date of a game is written differently than before.
    ReleaseDateUpdated {
        game: GameId,
        prev_text: String,
        prev_date: Option<Timestamp>,
        new_text: String,
        new_date: Option<Timestamp>,
    },
    /// A game that the notes wait for is out.
    Released { game: GameId },
}

/// The providers and the store that the passes bring together.
pub struct Sync<S: SteamHandling, N: NotionHandling> {
    pub steam_account_id: String,
    pub repo: Repo,
    pub steam: S,
    pub notion: N,
}

// ------------------------------------------------------- release date changes

/// The release date as written that the store holds of `id`.
pub open spec fn stored_date(details: Seq<GameDetails>, id: GameId) -> Option<String> {
    let p = position(details, id);
    if p < details.len() {
        details[p].release_date
    } else {
        None
    }
}

/// The event for new details of a game: one where the store holds a
/// release date of the game, the new details bring one, and the two are not
/// the same text; none otherwise.
pub open spec fn release_change(details: Seq<GameDetails>, new: GameDetails) -> Option<SyncEvent> {
    match (stored_date(details, new.id), new.release_date) {
        (Some(prev), Some(curr)) => if prev@ != curr@ {
            Some(
                SyncEvent::ReleaseDateUpdated {
                    game: new.id,
                    prev_text: prev,
                    prev_date: release_estimate(prev@),
                    new_text: curr,
                    new_date: release_estimate(curr@),
                },
            )
        } else {
            None
        },
        _ => None,
    }
}

/// Picks the event for new details of a game.
pub open spec fn pick_change(details: Seq<GameDetails>) -> spec_fn(GameDetails) -> Option<
    SyncEvent,
> {
    |new: GameDetails| release_change(details, new)
}

/// The events for new details, in their order.
pub open spec fn release_changes(details: Seq<GameDetails>, news: Seq<GameDetails>) -> Seq<
    SyncEvent,
> {
    news.filter_map(pick_change(details))
}

/// The row of the audit trail for an event found at `now`: one for a
/// changed release date, none for any other event.
pub open spec fn log_entry(event: SyncEvent, now: Timestamp) -> Option<ReleaseUpdateLogEntry> {
    match event {
        SyncEvent::ReleaseDateUpdated { game, prev_text, prev_date, new_text, new_date } => Some(
            ReleaseUpdateLogEntry {
                id: game,
                prev_text,
                new_text,
                prev_estimate: prev_date,
                new_estimate: new_date,
                recorded: now,
            },
        ),
        SyncEvent::Released { game } => None,
    }
}

/// Picks the row of the audit trail for an event found at `now`.
pub open spec fn pick_log_entry(now: Timestamp) -> spec_fn(SyncEvent) -> Option<
    ReleaseUpdateLogEntry,
> {
    |e: SyncEvent| log_entry(e, now)
}

/// The rows of the audit trail for the events found at `now`.
pub open spec fn log_entries(events: Seq<SyncEvent>, now: Timestamp) -> Seq<ReleaseUpdateLogEntry> {
    events.filter_map(pick_log_entry(now))
}

/// Picks the details of the games in one of two lists.
pub open spec fn pick_watched(noted: Seq<GameId>, wished: Seq<GameId>) -> spec_fn(
    GameDetails,
) -> Option<GameDetails> {
    |d: GameDetails|
        if noted.contains(d.id) || wished.contains(d.id) {
            Some(d)
        } else {
            None
        }
}

/// The details of the games in one of two lists, in their order.
pub open spec fn watched(details: Seq<GameDetails>, noted: Seq<GameId>, wished: Seq<GameId>) -> Seq<
    GameDetails,
> {
    details.filter_map(pick_watched(noted, wished))
}

/// Looks for changed release dates among new details. Each change is
/// written to the audit trail and comes back as an event.
pub fn check_updated_release_dates(repo: &mut Repo, games: &Vec<GameDetails>, now: Timestamp) -> (events:
    Vec<SyncEvent>)
    requires
        old(repo).wf(),
    ensures
        final(repo).wf(),
        events@ == release_changes(old(repo).game_details@, games@),
        final(repo).release_updates@ == old(repo).release_updates@ + log_entries(events@, now),
        *final(repo) == (Repo { release_updates: final(repo).release_updates, ..*old(repo) }),
{
    let mut events: Vec<SyncEvent> = Vec::new();
    let mut i: usize = 0;
    assert(repo.release_updates@ =~= old(repo).release_updates@ + log_entries(events@, now));
    while i < games.len()
        invariant
            i <= games.len(),
            repo.wf(),
            events@ == release_changes(old(repo).game_details@, games@.take(i as int)),
            repo.release_updates@ == old(repo).release_updates@ + log_entries(events@, now),
            *repo == (Repo { release_updates: repo.release_updates, ..*old(repo) }),
        decreases games.len() - i,
    {
        proof {
            lemma_filter_map_step(games@, i as int, pick_change(old(repo).game_details@));
            lemma_position(repo.game_details@, games@[i as int].id);
        }
        let g = &games[i];
        let ghost before = events@;
        match find(&repo.game_details, g.id) {
            Some(p) => {
                match (&repo.game_details[p].release_date, &g.release_date) {
                    (Some(prev), Some(curr)) => {
                        if *prev.as_str() != *curr.as_str() {
                            let prev_date = parse_release_date(prev.as_str());
                            let new_date = parse_release_date(curr.as_str());
                            let prev_text = prev.clone();
                            let new_text = curr.clone();
                            repo.log_release_update(
                                ReleaseUpdateLogEntry {
                                    id: g.id,
                                    prev_text: prev_text.clone(),
                                    new_text: new_text.clone(),
                                    prev_estimate: prev_date,
                                    new_estimate: new_date,
                                    recorded: now,
                                },
                            );
                            events.push(
                                SyncEvent::ReleaseDateUpdated {
                                    game: g.id,
                                    prev_text,
                                    prev_date,
                                    new_text,
                                    new_date,
                                },
                            );
                            proof {
                                assert(events@.drop_last() =~= before);
                                assert(log_entries(events@, now) =~= log_entries(before, now).push(
                                    log_entry(events@.last(), now)->0,
                                ));
                            }
                        }
                    },
                    _ => {},
                }
            },
            None => {},
        }
        i += 1;
    }
    assert(games@.take(i as int) =~= games@);
    events
}

/// The details of the games in one of two lists.
pub fn watched_details(details: &Vec<GameDetails>, noted: &Vec<GameId>, wished: &Vec<GameId>) -> (r:
    Vec<GameDetails>)
    ensures
        r@ == watched(details@, noted@, wished@),
{
    let mut out: Vec<GameDetails> = Vec::new();
    let mut i: usize = 0;
    while i < details.len()
        invariant
            i <= details.len(),
            out@ == details@.take(i as int).filter_map(pick_watched(noted@, wished@)),
        decreases details.len() - i,
    {
        proof {
            lemma_filter_map_step(details@, i as int, pick_watched(noted@, wished@));
        }
        if listed(noted, details[i].id) || listed(wished, details[i].id) {
            out.push(details[i].clone());
        }
        i += 1;
    }
    assert(details@.take(i as int) =~= details@);
    out
}

// ------------------------------------------------------------ details pass

/// The games whose details are wanted at `now`, the most wanted first: those
/// whose details are missing, then the noted and the wished-for games that
/// are still to come, whose details may have changed.
pub open spec fn wanted_ids(repo: Repo, now: Timestamp) -> Seq<GameId> {
    candidates(
        repo.game_details@,
        repo.blacklist@,
        followed_ids(repo.owned_games@, repo.wishlist@, repo.noted_games@),
    ) + upcoming_noted(repo.noted_games@, repo.game_details@, now)
        + upcoming_wishlisted(repo.wishlist@, repo.game_details@, now)
}

/// The games whose details one pass asks for at `now`: of the wanted ones,
/// in their order, each once, those whose details have not failed too
/// often, and no more than the limit of one pass.
pub open spec fn refresh_ids(repo: Repo, now: Timestamp) -> Seq<GameId> {
    asked(repo.blacklist@, wanted_ids(repo, now))
}

/// What is asked for in one pass is no more than the limit, is wanted, has
/// not failed too often, and holds no game twice.
pub proof fn lemma_asked(failures: Seq<DetailLookupFailure>, wanted: Seq<GameId>)
    ensures
        asked(failures, wanted).len() <= BACKFILL_LIMIT,
        forall|k: int|
            0 <= k < asked(failures, wanted).len() ==> !blocked(
                failures,
                #[trigger] asked(failures, wanted)[k],
            ) && wanted.contains(asked(failures, wanted)[k]),
        forall|k: int, l: int|
            0 <= k < l < asked(failures, wanted).len() ==> asked(failures, wanted)[k] != asked(
                failures,
                wanted,
            )[l],
    decreases wanted.len(),
{
    if wanted.len() > 0 {
        let rest = wanted.drop_last();
        lemma_asked(failures, rest);
        let before = asked(failures, rest);
        let all = asked(failures, wanted);
        assert forall|k: int| 0 <= k < all.len() implies !blocked(failures, #[trigger] all[k])
            && wanted.contains(all[k]) by {
            if k < before.len() {
                assert(all[k] == before[k]);
                let w = choose|w: int| 0 <= w < rest.len() && rest[w] == before[k];
                assert(wanted[w] == before[k]);
            } else {
                assert(wanted[wanted.len() - 1] == all[k]);
            }
        }
        assert forall|k: int, l: int| 0 <= k < l < all.len() implies all[k] != all[l] by {
            if l < before.len() {
                assert(all[k] == before[k] && all[l] == before[l]);
            } else {
                assert(all[k] == before[k]);
                assert(before.contains(before[k]));
            }
        }
    }
}

/// Whether `after` and `events` are what taking in fetched details at `now`
/// makes of `before`: the changed release dates of the games that were
/// still to come are found against the details held before, written to the
/// audit trail and told; then the details are taken in and the failures
/// counted. Nothing else changes.
pub open spec fn details_taken_in(
    before: Repo,
    after: Repo,
    details: Seq<GameDetails>,
    failures: Seq<GameId>,
    now: Timestamp,
    events: Seq<SyncEvent>,
) -> bool {
    &&& events == release_changes(
        before.game_details@,
        watched(
            details,
            upcoming_noted(before.noted_games@, before.game_details@, now),
            upcoming_wishlisted(before.wishlist@, before.game_details@, now),
        ),
    )
    &&& after.release_updates@ == before.release_updates@ + log_entries(events, now)
    &&& after.game_details@ == details_with_all(before.game_details@, details)
    &&& after.blacklist@ == failures_with_all(before.blacklist@, failures)
    &&& after == (Repo {
        release_updates: after.release_updates,
        game_details: after.game_details,
        blacklist: after.blacklist,
        ..before
    })
}

/// Whether `after` and `events` are what taking in details at `now` makes
/// of `before`, for some details and failures.
pub open spec fn details_pass(before: Repo, after: Repo, now: Timestamp, events: Seq<SyncEvent>)
    -> bool {
    exists|details: Seq<GameDetails>, failures: Seq<GameId>| #[trigger]
        details_taken_in(before, after, details, failures, now, events)
}

/// The games whose details are wanted at `now`, the most wanted first.
pub fn wanted_games(repo: &Repo, now: Timestamp) -> (ids: Vec<GameId>)
    requires
        repo.wf(),
    ensures
        ids@ == wanted_ids(*repo, now),
{
    let mut ids = repo.get_games_missing_details();
    let noted = repo.get_upcoming_noted_game_ids(now);
    let wished = repo.get_upcoming_wishlisted_game_ids(now);
    let ghost first = ids@;
    let mut i: usize = 0;
    while i < noted.len()
        invariant
            i <= noted.len(),
            ids@ == first + noted@.take(i as int),
        decreases noted.len() - i,
    {
        ids.push(noted[i]);
        i += 1;
        assert(ids@ =~= first + noted@.take(i as int));
    }
    assert(noted@.take(i as int) =~= noted@);
    let ghost second = ids@;
    let mut j: usize = 0;
    while j < wished.len()
        invariant
            j <= wished.len(),
            ids@ == second + wished@.take(j as int),
        decreases wished.len() - j,
    {
        ids.push(wished[j]);
        j += 1;
        assert(ids@ =~= second + wished@.take(j as int));
    }
    assert(wished@.take(j as int) =~= wished@);
    ids
}

/// The games whose details one pass asks for at `now`: never more than the
/// limit, and none whose details have failed too often.
pub fn games_to_refresh(repo: &Repo, now: Timestamp) -> (ids: Vec<GameId>)
    requires
        repo.wf(),
    ensures
        ids@ == refresh_ids(*repo, now),
        ids@.len() <= BACKFILL_LIMIT,
        forall|k: int| 0 <= k < ids@.len() ==> !blocked(repo.blacklist@, #[trigger] ids@[k]),
{
    let wanted = wanted_games(repo, now);
    let mut out: Vec<GameId> = Vec::new();
    let mut i: usize = 0;
    while i < wanted.len()
        invariant
            i <= wanted.len(),
            out@ == asked(repo.blacklist@, wanted@.take(i as int)),
        decreases wanted.len() - i,
    {
        proof {
            assert(wanted@.take(i + 1).drop_last() =~= wanted@.take(i as int));
        }
        let id = wanted[i];
        if out.len() < BACKFILL_LIMIT && !is_blocked(&repo.blacklist, id) && !listed(&out, id) {
            out.push(id);
        }
        i += 1;
    }
    proof {
        assert(wanted@.take(i as int) =~= wanted@);
        lemma_asked(repo.blacklist@, wanted@);
    }
    out
}

/// Takes in what the library provider gave when asked for details: tells
/// the changed release dates of the games that were still to come, then
/// stores the details and counts the failures.
pub fn take_in_details(
    repo: &mut Repo,
    details: &Vec<GameDetails>,
    failures: &Vec<GameId>,
    now: Timestamp,
) -> (events: Vec<SyncEvent>)
    requires
        old(repo).wf(),
    ensures
        final(repo).wf(),
        details_taken_in(*old(repo), *final(repo), details@, failures@, now, events@),
{
    let noted = repo.get_upcoming_noted_game_ids(now);
    let wished = repo.get_upcoming_wishlisted_game_ids(now);
    let followed = watched_details(details, &noted, &wished);
    let events = check_updated_release_dates(repo, &followed, now);
    repo.insert_game_details(details);
    repo.mark_game_detail_failures(failures);
    events
}

// ----------------------------------------------------------- playtime pass

/// The row of the history for a playtime that was read at `now`.
pub open spec fn played_row(playtime: SteamPlaytime, now: Timestamp) -> PlayedGame {
    PlayedGame {
        id: playtime.id,
        playtime: playtime.playtime,
        last_played: playtime.last_played,
        recorded: now,
    }
}

/// The rows of the history for the playtimes that were read at `now`.
pub open spec fn played_rows_of(playtimes: Seq<SteamPlaytime>, now: Timestamp) -> Seq<PlayedGame> {
    playtimes.map_values(|p: SteamPlaytime| played_row(p, now))
}

/// The rows of the history for the playtimes that were read at `now`.
pub fn played_rows(playtimes: &Vec<SteamPlaytime>, now: Timestamp) -> (rows: Vec<PlayedGame>)
    ensures
        rows@ == played_rows_of(playtimes@, now),
{
    let mut out: Vec<PlayedGame> = Vec::new();
    let mut i: usize = 0;
    while i < playtimes.len()
        invariant
            i <= playtimes.len(),
            out@ == playtimes@.take(i as int).map_values(|p: SteamPlaytime| played_row(p, now)),
        decreases playtimes.len() - i,
    {
        let p = playtimes[i];
        out.push(
            PlayedGame {
                id: p.id,
                playtime: p.playtime,
                last_played: p.last_played,
                recorded: now,
            },
        );
        i += 1;
        assert(out@ =~= playtimes@.take(i as int).map_values(
            |p: SteamPlaytime| played_row(p, now),
        ));
    }
    assert(playtimes@.take(i as int) =~= playtimes@);
    out
}

// -------------------------------------------------------------- notes pass

/// A note without an identifier, by the identifier of the note and the
/// name of the game.
#[derive(Debug, PartialEq)]
pub struct UnidentifiedNote {
    pub note_id: String,
    pub name: String,
}

/// An identifier to write to a note: under which name the game was found,
/// and as which game.
#[derive(Debug, PartialEq)]
pub struct WriteBack {
    pub note_id: String,
    pub app_id: GameId,
    pub name: String,
}

/// Picks the notes that have a name and no identifier.
pub open spec fn pick_unidentified() -> spec_fn(GameNote) -> Option<UnidentifiedNote> {
    |n: GameNote|
        match (n.app_id, n.name) {
            (None, Some(name)) => Some(UnidentifiedNote { note_id: n.id, name }),
            _ => None,
        }
}

/// The notes that have a name and no identifier, in order.
pub open spec fn unidentified(notes: Seq<GameNote>) -> Seq<UnidentifiedNote> {
    notes.filter_map(pick_unidentified())
}

/// The names of the notes that have a name and no identifier.
pub open spec fn unidentified_names(missing: Seq<UnidentifiedNote>) -> Seq<String> {
    missing.map_values(|n: UnidentifiedNote| n.name)
}

/// The entries of the catalogue under the name of a note that has a name
/// and no identifier.
pub open spec fn found_for(catalog: Seq<CatalogEntry>, notes: Seq<GameNote>) -> Seq<CatalogEntry> {
    entries_named(catalog, unidentified_names(unidentified(notes)))
}

/// Where the first entry named `name` stands in `found`; the length of
/// `found` where there is none.
pub open spec fn name_position(found: Seq<CatalogEntry>, name: Seq<char>) -> int
    decreases found.len(),
{
    if found.len() == 0 {
        0
    } else if found.first().name@ == name {
        0
    } else {
        1 + name_position(found.drop_first(), name)
    }
}

/// The game that `found` lists under exactly the name `name`: the first
/// such, where there are several.
pub open spec fn game_named(found: Seq<CatalogEntry>, name: Seq<char>) -> Option<GameId> {
    let p = name_position(found, name);
    if p < found.len() {
        Some(found[p].id)
    } else {
        None
    }
}

/// The game of a note: the one that its identifier writes, where it has
/// an identifier that can be read; else the one found under its name.
pub open spec fn game_of_note(note: GameNote, found: Seq<CatalogEntry>) -> Option<GameId> {
    let by_name = match note.name {
        Some(name) => game_named(found, name@),
        None => None,
    };
    match note.app_id {
        Some(text) => match u32_reading(text@) {
            Some(n) => Some(GameId { app_id: n }),
            None => by_name,
        },
        None => by_name,
    }
}

/// Whether `row` is what the store keeps of `note`, with `found` to look
/// names up in.
pub open spec fn noted_from(note: GameNote, found: Seq<CatalogEntry>, row: NotedGame) -> bool {
    &&& row.note_id == note.id
    &&& row.app_id == game_of_note(note, found)
    &&& row.state == note.state
    &&& row.tags@ == tag_names(note.tags@)
    &&& row.my_rating == note.rating
    &&& row.notes == note.notes
    &&& row.first_noted == note.created_time
}

/// Whether `rows` are what the store keeps of `notes`, one for one.
pub open spec fn all_noted_from(notes: Seq<GameNote>, found: Seq<CatalogEntry>, rows: Seq<NotedGame>)
    -> bool {
    rows.len() == notes.len() && forall|i: int|
        0 <= i < notes.len() ==> noted_from(notes[i], found, #[trigger] rows[i])
}

/// Picks what to write back for a note whose game was found.
pub open spec fn pick_write_back(found: Seq<CatalogEntry>) -> spec_fn(UnidentifiedNote) -> Option<
    WriteBack,
> {
    |n: UnidentifiedNote|
        match game_named(found, n.name@) {
            Some(id) => Some(WriteBack { note_id: n.note_id, app_id: id, name: n.name }),
            None => None,
        }
}

/// What to write back: one identifier for each note whose game was found,
/// in the order of the notes.
pub open spec fn write_backs(missing: Seq<UnidentifiedNote>, found: Seq<CatalogEntry>) -> Seq<
    WriteBack,
> {
    missing.filter_map(pick_write_back(found))
}

/// How many attempts to write to the notes failed, given how each attempt
/// ended.
pub open spec fn failures_in(outcomes: Seq<Result<(), NotionError>>) -> nat
    decreases outcomes.len(),
{
    if outcomes.len() == 0 {
        0
    } else if outcomes.last() is Err {
        failures_in(outcomes.drop_last()) + 1
    } else {
        failures_in(outcomes.drop_last())
    }
}

/// No more attempts fail than are made.
pub proof fn lemma_failures_in(outcomes: Seq<Result<(), NotionError>>)
    ensures
        failures_in(outcomes) <= outcomes.len(),
    decreases outcomes.len(),
{
    if outcomes.len() > 0 {
        lemma_failures_in(outcomes.drop_last());
    }
}

/// The events for games that are out.
pub open spec fn released_events(games: Seq<ReleasedGame>) -> Seq<SyncEvent> {
    games.map_values(|g: ReleasedGame| SyncEvent::Released { game: g.game_id })
}

/// Looks for the game that `found` lists under exactly the name `name`.
pub fn find_by_name(found: &Vec<CatalogEntry>, name: &str) -> (r: Option<GameId>)
    ensures
        r == game_named(found@, name@),
{
    let mut i: usize = 0;
    assert(found@.skip(0) =~= found@);
    while i < found.len()
        invariant
            i <= found.len(),
            name_position(found@, name@) == i + name_position(found@.skip(i as int), name@),
        decreases found.len() - i,
    {
        proof {
            assert(found@.skip(i as int).drop_first() =~= found@.skip(i + 1));
        }
        if *found[i].name.as_str() == *name {
            return Some(found[i].id);
        }
        i += 1;
    }
    None
}

/// The notes that have a name and no identifier.
pub fn missing_app_ids(notes: &Vec<GameNote>) -> (r: Vec<UnidentifiedNote>)
    ensures
        r@ == unidentified(notes@),
{
    let mut out: Vec<UnidentifiedNote> = Vec::new();
    let mut i: usize = 0;
    while i < notes.len()
        invariant
            i <= notes.len(),
            out@ == notes@.take(i as int).filter_map(pick_unidentified()),
        decreases notes.len() - i,
    {
        proof {
            lemma_filter_map_step(notes@, i as int, pick_unidentified());
        }
        let n = &notes[i];
        match (&n.app_id, &n.name) {
            (None, Some(name)) => {
                out.push(UnidentifiedNote { note_id: n.id.clone(), name: name.clone() });
            },
            _ => {},
        }
        i += 1;
    }
    assert(notes@.take(i as int) =~= notes@);
    out
}

/// The names of the notes that have a name and no identifier.
pub fn missing_names(missing: &Vec<UnidentifiedNote>) -> (r: Vec<String>)
    ensures
        r@ == unidentified_names(missing@),
{
    let mut out: Vec<String> = Vec::new();
    let mut i: usize = 0;
    while i < missing.len()
        invariant
            i <= missing.len(),
            out@ == unidentified_names(missing@.take(i as int)),
        decreases missing.len() - i,
    {
        out.push(missing[i].name.clone());
        i += 1;
        assert(out@ =~= unidentified_names(missing@.take(i as int)));
    }
    assert(missing@.take(i as int) =~= missing@);
    out
}

/// What the store keeps of one note.
pub fn derive_noted_game(note: &GameNote, found: &Vec<CatalogEntry>) -> (row: NotedGame)
    ensures
        noted_from(*note, found@, row),
{
    let by_name = match &note.name {
        Some(name) => find_by_name(found, name.as_str()),
        None => None,
    };
    let app_id = match &note.app_id {
        Some(text) => match parse_u32(text.as_str()) {
            Some(n) => Some(GameId { app_id: n }),
            None => by_name,
        },
        None => by_name,
    };
    let mut tags: Vec<String> = Vec::new();
    let mut i: usize = 0;
    while i < note.tags.len()
        invariant
            i <= note.tags.len(),
            tags@ == tag_names(note.tags@.take(i as int)),
        decreases note.tags.len() - i,
    {
        tags.push(note.tags[i].0.clone());
        i += 1;
        assert(tags@ =~= tag_names(note.tags@.take(i as int)));
    }
    assert(note.tags@.take(i as int) =~= note.tags@);
    NotedGame {
        note_id: note.id.clone(),
        app_id,
        state: clone_state(&note.state),
        tags,
        my_rating: note.rating,
        notes: clone_optional(&note.notes),
        first_noted: note.created_time,
    }
}

/// What the store keeps of the notes: a row for each, with the game of the
/// note read off its identifier or looked up in `found` under its name.
pub fn derive_noted_games(notes: &Vec<GameNote>, found: &Vec<CatalogEntry>) -> (rows: Vec<
    NotedGame,
>)
    ensures
        all_noted_from(notes@, found@, rows@),
{
    let mut out: Vec<NotedGame> = Vec::new();
    let mut i: usize = 0;
    while i < notes.len()
        invariant
            i <= notes.len(),
            all_noted_from(notes@.take(i as int), found@, out@),
        decreases notes.len() - i,
    {
        let row = derive_noted_game(&notes[i], found);
        let ghost before = out@;
        out.push(row);
        i += 1;
        proof {
            assert forall|k: int| 0 <= k < i implies noted_from(
                notes@.take(i as int)[k],
                found@,
                #[trigger] out@[k],
            ) by {
                if k < i - 1 {
                    assert(out@[k] == before[k]);
                    assert(notes@.take(i - 1)[k] == notes@.take(i as int)[k]);
                }
            }
        }
    }
    assert(notes@.take(i as int) =~= notes@);
    out
}

/// The identifiers to write back to the notes whose game was found by
/// name.
pub fn app_ids_to_write(missing: &Vec<UnidentifiedNote>, found: &Vec<CatalogEntry>) -> (r: Vec<
    WriteBack,
>)
    ensures
        r@ == write_backs(missing@, found@),
{
    let mut out: Vec<WriteBack> = Vec::new();
    let mut i: usize = 0;
    while i < missing.len()
        invariant
            i <= missing.len(),
            out@ == missing@.take(i as int).filter_map(pick_write_back(found@)),
        decreases missing.len() - i,
    {
        proof {
            lemma_filter_map_step(missing@, i as int, pick_write_back(found@));
        }
        match find_by_name(found, missing[i].name.as_str()) {
            Some(id) => {
                out.push(
                    WriteBack {
                        note_id: missing[i].note_id.clone(),
                        app_id: id,
                        name: missing[i].name.clone(),
                    },
                );
            },
            None => {},
        }
        i += 1;
    }
    assert(missing@.take(i as int) =~= missing@);
    out
}

/// Takes in the notes that the notes provider gave: the game of a note
/// that lacks an identifier is looked up in the catalogue under the name of
/// the note, and every note is stored. What comes back are the identifiers
/// to write to the notes whose game was found in this way.
pub fn take_in_notes(repo: &mut Repo, notes: &Vec<GameNote>) -> (writes: Vec<WriteBack>)
    requires
        old(repo).wf(),
    ensures
        final(repo).wf(),
        writes@ == write_backs(unidentified(notes@), found_for(old(repo).steam_games@, notes@)),
        notes_merged(*old(repo), *final(repo), notes@),
{
    let missing = missing_app_ids(notes);
    let names = missing_names(&missing);
    let found = repo.get_appids_by_name(&names);
    let rows = derive_noted_games(notes, &found);
    let ghost taken = rows@;
    repo.insert_noted_games(rows);
    assert(notes_taken_in(*old(repo), *repo, notes@, taken));
    app_ids_to_write(&missing, &found)
}

/// How many attempts to write to the notes failed, given how each attempt
/// ended.
pub fn count_failures(outcomes: &Vec<Result<(), NotionError>>) -> (failed: usize)
    ensures
        failed == failures_in(outcomes@),
{
    let mut failed: usize = 0;
    let mut i: usize = 0;
    while i < outcomes.len()
        invariant
            i <= outcomes.len(),
            failed <= i,
            failed == failures_in(outcomes@.take(i as int)),
        decreases outcomes.len() - i,
    {
        proof {
            assert(outcomes@.take(i + 1).drop_last() =~= outcomes@.take(i as int));
            assert(outcomes@.take(i + 1).last() == outcomes@[i as int]);
        }
        match &outcomes[i] {
            Ok(_) => {},
            Err(_) => {
                failed += 1;
            },
        }
        i += 1;
    }
    assert(outcomes@.take(i as int) =~= outcomes@);
    failed
}

/// The events for games that are out.
pub fn events_for_released(games: &Vec<ReleasedGame>) -> (events: Vec<SyncEvent>)
    ensures
        events@ == released_events(games@),
{
    let mut out: Vec<SyncEvent> = Vec::new();
    let mut i: usize = 0;
    while i < games.len()
        invariant
            i <= games.len(),
            out@ == released_events(games@.take(i as int)),
        decreases games.len() - i,
    {
        out.push(SyncEvent::Released { game: games[i].game_id });
        i += 1;
        assert(out@ =~= released_events(games@.take(i as int)));
    }
    assert(games@.take(i as int) =~= games@);
    out
}

// ------------------------------------------------------------------ passes

/// What the library provider answered in one pass.
pub struct SteamAnswers {
    pub games: Seq<SteamAppIdPair>,
    pub owned: Seq<GameId>,
    pub details: Seq<GameDetails>,
    pub failures: Seq<GameId>,
    pub playtimes: Seq<SteamPlaytime>,
    pub wishes: Seq<WishlistedGame>,
}

/// What the notes provider answered in one pass, and the rows made of it.
pub struct NotesAnswers {
    pub notes: Seq<GameNote>,
    pub rows: Seq<NotedGame>,
}

/// Whether `rows` starts with the rows of `before`, in their order.
pub open spec fn extends<T>(before: Seq<T>, rows: Seq<T>) -> bool {
    before.len() <= rows.len() && rows.take(before.len() as int) == before
}

/// What holds of the store after a pass over the library provider,
/// however far the pass got: the catalogue, the ownership table, the
/// playtime history and the audit trail have lost no row and changed none;
/// the notes and the ignored games are as they were.
pub open spec fn steam_pass_kept(before: Repo, after: Repo) -> bool {
    &&& extends(before.steam_games@, after.steam_games@)
    &&& extends(before.owned_games@, after.owned_games@)
    &&& extends(before.played_games@, after.played_games@)
    &&& extends(before.release_updates@, after.release_updates@)
    &&& after.noted_games == before.noted_games
    &&& after.ignored_games == before.ignored_games
}

/// The events of a pass over the library provider at `now`: the changed
/// release dates among the details that came back for games that were
/// still to come, held against the details stored before.
pub open spec fn steam_events(before: Repo, answers: SteamAnswers, now: Timestamp) -> Seq<
    SyncEvent,
> {
    release_changes(
        before.game_details@,
        watched(
            answers.details,
            upcoming_noted(before.noted_games@, before.game_details@, now),
            upcoming_wishlisted(before.wishlist@, before.game_details@, now),
        ),
    )
}

/// Whether `after` is what the first `done` steps of a pass over the
/// library provider at `now` make of `before`, given what the provider
/// answered. The steps are, in order: the catalogue; the games owned; the
/// details, with the audit trail and the count of failures; the playtime;
/// the wish list. What a step that was not taken would have changed is as
/// it was, and so are the notes and the ignored games.
pub open spec fn steam_steps(
    before: Repo,
    after: Repo,
    answers: SteamAnswers,
    now: Timestamp,
    done: nat,
) -> bool {
    &&& if done >= 1 {
        after.steam_games@ == catalog_with_all(before.steam_games@, answers.games)
    } else {
        after.steam_games == before.steam_games
    }
    &&& if done >= 2 {
        after.owned_games@ == owned_with_all(before.owned_games@, answers.owned, now)
    } else {
        after.owned_games == before.owned_games
    }
    &&& if done >= 3 {
        &&& after.release_updates@ == before.release_updates@ + log_entries(
            steam_events(before, answers, now),
            now,
        )
        &&& after.game_details@ == details_with_all(before.game_details@, answers.details)
        &&& after.blacklist@ == failures_with_all(before.blacklist@, answers.failures)
    } else {
        &&& after.release_updates == before.release_updates
        &&& after.game_details == before.game_details
        &&& after.blacklist == before.blacklist
    }
    &&& if done >= 4 {
        after.played_games@ == played_with_all(
            before.played_games@,
            played_rows_of(answers.playtimes, now),
        )
    } else {
        after.played_games == before.played_games
    }
    &&& if done >= 5 {
        after.wishlist@ == reconciled(before.wishlist@, answers.wishes, now)
    } else {
        after.wishlist == before.wishlist
    }
    &&& after.noted_games == before.noted_games
    &&& after.ignored_games == before.ignored_games
}

/// Whether `after` and `events` are what a whole pass over the library
/// provider at `now` makes of `before`, given what the provider answered.
pub open spec fn steam_pass(
    before: Repo,
    after: Repo,
    answers: SteamAnswers,
    now: Timestamp,
    events: Seq<SyncEvent>,
) -> bool {
    steam_steps(before, after, answers, now, 5) && events == steam_events(before, answers, now)
}

/// Whether `after` is what a pass over the library provider at `now` makes
/// of `before` when it stops before its last step is done: the steps that
/// were done have left their mark, the others none.
pub open spec fn steam_stopped(before: Repo, after: Repo, now: Timestamp) -> bool {
    exists|answers: SteamAnswers, done: nat|
        done < 5 && #[trigger] steam_steps(before, after, answers, now, done)
}

/// Whether `after` is what taking in `notes` makes of `before`, with `rows`
/// the rows made of the notes: each row is that of its note, with the game
/// of a note that lacks an identifier looked up by name in the catalogue;
/// the rows are taken in, in order. Nothing else changes.
pub open spec fn notes_taken_in(
    before: Repo,
    after: Repo,
    notes: Seq<GameNote>,
    rows: Seq<NotedGame>,
) -> bool {
    &&& all_noted_from(notes, found_for(before.steam_games@, notes), rows)
    &&& after.noted_games@ == noted_with_all(before.noted_games@, rows)
    &&& after == (Repo { noted_games: after.noted_games, ..before })
}

/// Whether `after` is what taking in `notes` makes of `before`.
pub open spec fn notes_merged(before: Repo, after: Repo, notes: Seq<GameNote>) -> bool {
    exists|rows: Seq<NotedGame>| #[trigger] notes_taken_in(before, after, notes, rows)
}

/// Whether `after` and `events` are what a pass over the notes provider
/// makes of `before`, given the notes that the provider answered with: the
/// notes are taken in; then every note that says nothing final of a game
/// that is out gives an event.
pub open spec fn notion_pass(
    before: Repo,
    after: Repo,
    answers: NotesAnswers,
    events: Seq<SyncEvent>,
) -> bool {
    &&& notes_taken_in(before, after, answers.notes, answers.rows)
    &&& events == released_events(newly_released(after.noted_games@, after.game_details@))
}

/// Whether `after` and `events` are what a whole pass over the library
/// provider at `now` makes of `before`, for some answers of the provider.
pub open spec fn steam_passed(before: Repo, after: Repo, now: Timestamp, events: Seq<SyncEvent>)
    -> bool {
    exists|answers: SteamAnswers| #[trigger] steam_pass(before, after, answers, now, events)
}

/// Whether `after` and `events` are what a pass over the notes provider
/// makes of `before`, for some answer of the provider.
pub open spec fn notion_passed(before: Repo, after: Repo, events: Seq<SyncEvent>) -> bool {
    exists|answers: NotesAnswers| #[trigger] notion_pass(before, after, answers, events)
}

/// Whether `after` and `events` are what a pass over the library provider
/// at `now` and then one over the notes provider make of `before`: the
/// events of the first, then those of the second.
pub open spec fn both_passed(before: Repo, after: Repo, now: Timestamp, events: Seq<SyncEvent>)
    -> bool {
    exists|between: Repo, first: Seq<SyncEvent>, second: Seq<SyncEvent>|
        #![trigger steam_passed(before, between, now, first), notion_passed(between, after, second)]
        steam_passed(before, between, now, first) && notion_passed(between, after, second)
            && events == first + second
}

/// Whether `after` is what a whole pass over the library provider at `now`
/// makes of `before`, whatever its events.
pub open spec fn steam_done(before: Repo, after: Repo, now: Timestamp) -> bool {
    exists|first: Seq<SyncEvent>| #[trigger] steam_passed(before, after, now, first)
}

/// Appending rows extends a table.
pub proof fn lemma_extends_add<T>(before: Seq<T>, more: Seq<T>)
    ensures
        extends(before, before + more),
{
    assert((before + more).take(before.len() as int) =~= before);
}

/// The catalogue loses no entry and changes none.
pub proof fn lemma_catalog_extends(rows: Seq<CatalogEntry>, games: Seq<SteamAppIdPair>)
    ensures
        extends(rows, catalog_with_all(rows, games)),
    decreases games.len(),
{
    if games.len() == 0 {
        assert(rows.take(rows.len() as int) =~= rows);
    } else {
        lemma_catalog_extends(rows, games.drop_last());
        let before = catalog_with_all(rows, games.drop_last());
        let after = catalog_with_all(rows, games);
        assert(after.take(rows.len() as int) =~= before.take(rows.len() as int));
    }
}

/// The ownership table loses no row and changes none.
pub proof fn lemma_owned_extends(
    rows: Seq<OwnershipRecord>,
    ids: Seq<GameId>,
    now: Timestamp,
)
    ensures
        extends(rows, owned_with_all(rows, ids, now)),
    decreases ids.len(),
{
    if ids.len() == 0 {
        assert(rows.take(rows.len() as int) =~= rows);
    } else {
        lemma_owned_extends(rows, ids.drop_last(), now);
        let before = owned_with_all(rows, ids.drop_last(), now);
        let after = owned_with_all(rows, ids, now);
        assert(after.take(rows.len() as int) =~= before.take(rows.len() as int));
    }
}

/// The playtime history loses no row and changes none.
pub proof fn lemma_played_extends(rows: Seq<PlayedGame>, updates: Seq<PlayedGame>)
    ensures
        extends(rows, played_with_all(rows, updates)),
    decreases updates.len(),
{
    if updates.len() == 0 {
        assert(rows.take(rows.len() as int) =~= rows);
    } else {
        lemma_played_extends(rows, updates.drop_last());
        let before = played_with_all(rows, updates.drop_last());
        let after = played_with_all(rows, updates);
        assert(after.take(rows.len() as int) =~= before.take(rows.len() as int));
    }
}

impl<S: SteamHandling, N: NotionHandling> Sync<S, N> {
    /// The passes for one account of the library provider, over the given
    /// store and providers.
    pub fn new(steam_account_id: &str, repo: Repo, steam: S, notion: N) -> (sync: Sync<S, N>)
        ensures
            sync.steam_account_id@ == steam_account_id@,
            sync.repo == repo,
            sync.steam == steam,
            sync.notion == notion,
    {
        Sync { steam_account_id: steam_account_id.to_owned(), repo, steam, notion }
    }

    /// Asks for the catalogue and adds the games that are new to it.
    pub fn sync_steam_games(&mut self) -> (r: Result<(), SyncError>)
        requires
            old(self).repo.wf(),
        ensures
            final(self).repo.wf(),
            match r {
                Ok(_) => exists|games: Seq<SteamAppIdPair>|
                    final(self).repo.steam_games@ == #[trigger] catalog_with_all(
                        old(self).repo.steam_games@,
                        games,
                    ),
                Err(e) => e is Steam && final(self).repo.steam_games == old(self).repo.steam_games,
            },
            final(self).repo == (Repo {
                steam_games: final(self).repo.steam_games,
                ..old(self).repo
            }),
    {
        match self.steam.get_all_games() {
            Ok(games) => {
                self.repo.insert_steam_games(&games);
                Ok(())
            },
            Err(e) => Err(SyncError::Steam(e)),
        }
    }

    /// Asks for the games of the account and records the ones that are new
    /// to the store as owned since `now`.
    pub fn sync_owned_games(&mut self, now: Timestamp) -> (r: Result<(), SyncError>)
        requires
            old(self).repo.wf(),
        ensures
            final(self).repo.wf(),
            match r {
                Ok(_) => exists|owned: Seq<GameId>|
                    final(self).repo.owned_games@ == #[trigger] owned_with_all(
                        old(self).repo.owned_games@,
                        owned,
                        now,
                    ),
                Err(e) => e is Steam && final(self).repo.owned_games == old(self).repo.owned_games,
            },
            final(self).repo == (Repo {
                owned_games: final(self).repo.owned_games,
                ..old(self).repo
            }),
    {
        match self.steam.get_owned_games(self.steam_account_id.as_str()) {
            Ok(owned) => {
                self.repo.insert_owned_games(&owned, now);
                Ok(())
            },
            Err(e) => Err(SyncError::Steam(e)),
        }
    }

    /// Asks for the playtime of the games of the account and adds to the
    /// history, recorded at `now`, what has advanced.
    pub fn sync_played_games(&mut self, now: Timestamp) -> (r: Result<(), SyncError>)
        requires
            old(self).repo.wf(),
        ensures
            final(self).repo.wf(),
            match r {
                Ok(_) => exists|playtimes: Seq<SteamPlaytime>|
                    final(self).repo.played_games@ == played_with_all(
                        old(self).repo.played_games@,
                        #[trigger] played_rows_of(playtimes, now),
                    ),
                Err(e) => e is Steam && final(self).repo.played_games == old(
                    self,
                ).repo.played_games,
            },
            final(self).repo == (Repo {
                played_games: final(self).repo.played_games,
                ..old(self).repo
            }),
    {
        match self.steam.get_played_games(self.steam_account_id.as_str()) {
            Ok(playtimes) => {
                let rows = played_rows(&playtimes, now);
                self.repo.insert_played_game_updates(&rows);
                Ok(())
            },
            Err(e) => Err(SyncError::Steam(e)),
        }
    }

    /// Asks for the wish list of the account and brings the stored list in
    /// line with it.
    pub fn sync_wishlist(&mut self, now: Timestamp) -> (r: Result<(), SyncError>)
        requires
            old(self).repo.wf(),
        ensures
            final(self).repo.wf(),
            match r {
                Ok(_) => exists|wishes: Seq<WishlistedGame>|
                    final(self).repo.wishlist@ == #[trigger] reconciled(
                        old(self).repo.wishlist@,
                        wishes,
                        now,
                    ),
                Err(e) => e is Steam && final(self).repo.wishlist == old(self).repo.wishlist,
            },
            final(self).repo == (Repo { wishlist: final(self).repo.wishlist, ..old(self).repo }),
    {
        match self.steam.get_wishlist(self.steam_account_id.as_str()) {
            Ok(wishes) => {
                self.repo.update_wishlist(&wishes, now);
                Ok(())
            },
            Err(e) => Err(SyncError::Steam(e)),
        }
    }

    /// Asks for the details of the games that lack them, and again for
    /// those of the games that are still to come; tells the release dates
    /// that have changed and stores what came back.
    pub fn sync_game_details(&mut self, now: Timestamp) -> (r: Result<Vec<SyncEvent>, SyncError>)
        requires
            old(self).repo.wf(),
        ensures
            final(self).repo.wf(),
            match r {
                Ok(events) => details_pass(old(self).repo, final(self).repo, now, events@),
                Err(e) => e is Steam && final(self).repo == old(self).repo,
            },
    {
        let ids = games_to_refresh(&self.repo, now);
        match self.steam.get_game_details(&ids) {
            Ok(answer) => {
                let (details, failures) = answer;
                let events = take_in_details(&mut self.repo, &details, &failures, now);
                assert(details_taken_in(
                    old(self).repo,
                    self.repo,
                    details@,
                    failures@,
                    now,
                    events@,
                ));
                Ok(events)
            },
            Err(e) => Err(SyncError::Steam(e)),
        }
    }
    /// One pass over the library provider at `now`: the catalogue, the
    /// games owned, the details with the release dates that changed, the
    /// playtime and the wish list, in this order. The pass stops at the
    /// first question that the provider fails to answer; what the steps
    /// before it stored stays stored.
    pub fn sync_steam(&mut self, now: Timestamp) -> (r: Result<Vec<SyncEvent>, SyncError>)
        requires
            old(self).repo.wf(),
        ensures
            final(self).repo.wf(),
            steam_pass_kept(old(self).repo, final(self).repo),
            r matches Ok(events) ==> steam_passed(old(self).repo, final(self).repo, now, events@),
            r matches Err(e) ==> e is Steam && steam_stopped(
                old(self).repo,
                final(self).repo,
                now,
            ),
    {
        let ghost r0 = self.repo;
        let ghost mut answers = SteamAnswers {
            games: Seq::empty(),
            owned: Seq::empty(),
            details: Seq::empty(),
            failures: Seq::empty(),
            playtimes: Seq::empty(),
            wishes: Seq::empty(),
        };
        proof {
            lemma_extends_add(r0.steam_games@, Seq::empty());
            lemma_extends_add(r0.owned_games@, Seq::empty());
            lemma_extends_add(r0.played_games@, Seq::empty());
            lemma_extends_add(r0.release_updates@, Seq::empty());
            assert(r0.steam_games@ + Seq::empty() =~= r0.steam_games@);
            assert(r0.owned_games@ + Seq::empty() =~= r0.owned_games@);
            assert(r0.played_games@ + Seq::empty() =~= r0.played_games@);
            assert(r0.release_updates@ + Seq::empty() =~= r0.release_updates@);
        }
        match self.sync_steam_games() {
            Ok(_) => {},
            Err(e) => {
                assert(steam_steps(r0, self.repo, answers, now, 0));
                return Err(e);
            },
        }
        proof {
            let games = choose|games: Seq<SteamAppIdPair>|
                self.repo.steam_games@ == #[trigger] catalog_with_all(r0.steam_games@, games);
            answers = SteamAnswers { games, ..answers };
            lemma_catalog_extends(r0.steam_games@, games);
        }
        match self.sync_owned_games(now) {
            Ok(_) => {},
            Err(e) => {
                assert(steam_steps(r0, self.repo, answers, now, 1));
                return Err(e);
            },
        }
        proof {
            let owned = choose|owned: Seq<GameId>|
                self.repo.owned_games@ == #[trigger] owned_with_all(r0.owned_games@, owned, now);
            answers = SteamAnswers { owned, ..answers };
            lemma_owned_extends(r0.owned_games@, owned, now);
        }
        let ghost r2 = self.repo;
        let events = match self.sync_game_details(now) {
            Ok(events) => events,
            Err(e) => {
                assert(steam_steps(r0, self.repo, answers, now, 2));
                return Err(e);
            },
        };
        proof {
            let (details, failures) = choose|details: Seq<GameDetails>, failures: Seq<GameId>| #[trigger]
                details_taken_in(r2, self.repo, details, failures, now, events@);
            answers = SteamAnswers { details, failures, ..answers };
            lemma_extends_add(r0.release_updates@, log_entries(events@, now));
        }
        match self.sync_played_games(now) {
            Ok(_) => {},
            Err(e) => {
                assert(steam_steps(r0, self.repo, answers, now, 3));
                return Err(e);
            },
        }
        proof {
            let playtimes = choose|playtimes: Seq<SteamPlaytime>|
                self.repo.played_games@ == played_with_all(
                    r0.played_games@,
                    #[trigger] played_rows_of(playtimes, now),
                );
            answers = SteamAnswers { playtimes, ..answers };
            lemma_played_extends(r0.played_games@, played_rows_of(playtimes, now));
        }
        match self.sync_wishlist(now) {
            Ok(_) => {},
            Err(e) => {
                assert(steam_steps(r0, self.repo, answers, now, 4));
                return Err(e);
            },
        }
        proof {
            let wishes = choose|wishes: Seq<WishlistedGame>|
                self.repo.wishlist@ == #[trigger] reconciled(r0.wishlist@, wishes, now);
            answers = SteamAnswers { wishes, ..answers };
            assert(steam_pass(r0, self.repo, answers, now, events@));
        }
        Ok(events)
    }

    /// Writes the identifiers that were found to the notes: one attempt for
    /// each, in order, with the identifier and the name of the note, the game
    /// in decimal and the name of the game. A note that cannot be written to
    /// is passed over; the number of attempts that failed comes back.
    pub fn write_app_ids_to_notion(&self, writes: &Vec<WriteBack>) -> (failed: usize)
        ensures
            failed <= writes@.len(),
    {
        let mut outcomes: Vec<Result<(), NotionError>> = Vec::new();
        let mut i: usize = 0;
        while i < writes.len()
            invariant
                i <= writes.len(),
                outcomes@.len() == i,
            decreases writes.len() - i,
        {
            let w = &writes[i];
            let app_id = w.app_id.to_text();
            let outcome = self.notion.set_game_details(
                w.note_id.as_str(),
                app_id.as_str(),
                w.name.as_str(),
            );
            outcomes.push(outcome);
            i += 1;
        }
        proof {
            lemma_failures_in(outcomes@);
        }
        count_failures(&outcomes)
    }

    /// Tells which noted games are out though their note does not say so,
    /// and writes the new state to each such note. A note that cannot be
    /// written to is passed over; its event is told all the same.
    pub fn update_release_states(&self) -> (events: Vec<SyncEvent>)
        requires
            self.repo.wf(),
        ensures
            events@ == released_events(
                newly_released(self.repo.noted_games@, self.repo.game_details@),
            ),
    {
        let released = self.repo.get_newly_released_games();
        let events = events_for_released(&released);
        let mut i: usize = 0;
        while i < released.len()
            invariant
                i <= released.len(),
            decreases released.len() - i,
        {
            let _ = self.notion.set_state(released[i].note_id.as_str(), &GameState::Released);
            i += 1;
        }
        events
    }

    /// One pass over the notes provider: the notes are asked for and taken
    /// in, the games of the notes without an identifier are looked up by
    /// name and written back, and the noted games that have come out are
    /// told. Nothing is stored where the provider gives no notes.
    pub fn sync_notion(&mut self) -> (r: Result<Vec<SyncEvent>, SyncError>)
        requires
            old(self).repo.wf(),
        ensures
            final(self).repo.wf(),
            match r {
                Ok(events) => notion_passed(old(self).repo, final(self).repo, events@),
                Err(e) => e is Notion && final(self).repo == old(self).repo,
            },
    {
        let notes = match self.notion.get_notes() {
            Ok(notes) => notes,
            Err(e) => {
                return Err(SyncError::Notion(e));
            },
        };
        let writes = take_in_notes(&mut self.repo, &notes);
        let ghost rows = choose|rows: Seq<NotedGame>| #[trigger]
            notes_taken_in(old(self).repo, self.repo, notes@, rows);
        let _ = self.write_app_ids_to_notion(&writes);
        let events = self.update_release_states();
        proof {
            let answers = NotesAnswers { notes: notes@, rows };
            assert(notion_pass(old(self).repo, self.repo, answers, events@));
        }
        Ok(events)
    }

    /// Both passes at `now`: the library provider first, then the notes
    /// provider. The events of the two come back as one list, in the order
    /// in which they were found. Where the library provider fails, the notes
    /// are not asked for; where the notes provider fails, what the first
    /// pass stored stays stored.
    pub fn sync_all(&mut self, now: Timestamp) -> (r: Result<Vec<SyncEvent>, SyncError>)
        requires
            old(self).repo.wf(),
        ensures
            final(self).repo.wf(),
            match r {
                Ok(events) => both_passed(old(self).repo, final(self).repo, now, events@),
                Err(e) => if e is Steam {
                    steam_stopped(old(self).repo, final(self).repo, now)
                } else {
                    e is Notion && steam_done(old(self).repo, final(self).repo, now)
                },
            },
    {
        let mut events = match self.sync_steam(now) {
            Ok(events) => events,
            Err(e) => {
                return Err(e);
            },
        };
        let ghost between = self.repo;
        let ghost first = events@;
        let mut more = match self.sync_notion() {
            Ok(more) => more,
            Err(e) => {
                assert(steam_passed(old(self).repo, self.repo, now, first));
                return Err(e);
            },
        };
        let ghost second = more@;
        events.append(&mut more);
        proof {
            assert(steam_passed(old(self).repo, between, now, first));
            assert(notion_passed(between, self.repo, second));
            assert(events@ == first + second);
        }
        Ok(events)
    }
}

} // verus!

use rusteam::db::repo::{
    GameDetailsHandling, NotedGamesHandling, OwnedGamesHandling, PlayedGamesHandling,
    ReleaseUpdateHandling, Repo, SteamGamesHandling, WishlistHandling,
};
use rusteam::db::rules::{
    CatalogEntry, DetailLookupFailure, OwnershipRecord, ReleaseUpdateLogEntry, BACKFILL_LIMIT,
    FAILURE_LIMIT,
};
use rusteam::models::game::{GameDetails, GameId, GameState, NotedGame, PlayedGame, ReleasedGame, WishlistedGame};
use rusteam::models::steam::SteamAppIdPair;
use rusteam::time::Timestamp;

fn id(n: u32) -> GameId {
    GameId { app_id: n }
}

fn at(secs: i64) -> Timestamp {
    Timestamp { secs, nanos: 0 }
}

fn details(n: u32, released: bool, date: Option<&str>, estimate: Option<i64>, recorded: i64) -> GameDetails {
    GameDetails {
        id: id(n),
        description: Some(format!("game {}", n)),
        controller_support: None,
        coop: false,
        local_coop: false,
        metacritic_percent: None,
        is_released: released,
        release_date: date.map(|d| d.to_string()),
        release_estimate: estimate.map(at),
        recorded: at(recorded),
    }
}

fn note(note_id: &str, app: Option<u32>, state: Option<GameState>, first: i64) -> NotedGame {
    NotedGame {
        note_id: note_id.to_string(),
        app_id: app.map(id),
        state,
        tags: vec!["tag".to_string()],
        my_rating: Some(3),
        notes: None,
        first_noted: at(first),
    }
}

#[test]
fn new_store_is_empty() {
    let repo = Repo::new();
    assert!(repo.steam_games.is_empty());
    assert!(repo.owned_games.is_empty());
    assert!(repo.played_games.is_empty());
    assert!(repo.game_details.is_empty());
    assert!(repo.blacklist.is_empty());
    assert!(repo.noted_games.is_empty());
    assert!(repo.wishlist.is_empty());
    assert!(repo.release_updates.is_empty());
    assert!(repo.ignored_games.is_empty());
}

#[test]
fn owned_game_is_stored_once() {
    let mut repo = Repo::new();
    repo.insert_owned_games(&vec![id(5)], at(10));
    repo.insert_owned_games(&vec![id(5)], at(20));
    repo.insert_owned_games(&vec![id(6), id(5), id(6)], at(30));
    assert_eq!(
        repo.owned_games,
        vec![
            OwnershipRecord { id: id(5), first_recorded: at(10) },
            OwnershipRecord { id: id(6), first_recorded: at(30) },
        ]
    );
    repo.insert_owned_games(&vec![], at(40));
    assert_eq!(repo.owned_games.len(), 2);
}

#[test]
fn catalog_keeps_first_name() {
    let mut repo = Repo::new();
    let pair = |appid, name: &str| SteamAppIdPair { appid, name: name.to_string() };
    repo.insert_steam_games(&vec![pair(1, "One"), pair(2, "Two"), pair(1, "Uno")]);
    repo.insert_steam_games(&vec![pair(2, "Deux"), pair(3, "Two")]);
    let entry = |n, name: &str| CatalogEntry { id: id(n), name: name.to_string() };
    assert_eq!(repo.steam_games, vec![entry(1, "One"), entry(2, "Two"), entry(3, "Two")]);
    assert_eq!(repo.get_game_names_by_id(&vec![id(3), id(1), id(9)]), vec![entry(1, "One"), entry(3, "Two")]);
    assert_eq!(repo.get_game_names_by_id(&vec![]), vec![]);
    assert_eq!(
        repo.get_appids_by_name(&vec!["Two".to_string(), "two".to_string()]),
        vec![entry(2, "Two"), entry(3, "Two")]
    );
    assert_eq!(repo.get_appids_by_name(&vec![]), vec![]);
}

#[test]
fn playtime_guard_is_monotonic() {
    let mut repo = Repo::new();
    let row = |n: u32, minutes: u64, recorded: i64| PlayedGame {
        id: id(n),
        playtime: minutes * 60,
        last_played: at(1),
        recorded: at(recorded),
    };
    assert_eq!(repo.insert_played_game_updates(&vec![row(1, 100, 1)]), 1);
    assert_eq!(repo.insert_played_game_updates(&vec![row(1, 50, 2)]), 0);
    assert_eq!(repo.played_games, vec![row(1, 100, 1)]);
    assert_eq!(repo.insert_played_game_updates(&vec![row(1, 100, 3)]), 0);
    assert_eq!(repo.insert_played_game_updates(&vec![row(1, 150, 4)]), 1);
    assert_eq!(repo.played_games, vec![row(1, 100, 1), row(1, 150, 4)]);
    assert_eq!(
        repo.insert_played_game_updates(&vec![row(2, 0, 5), row(1, 120, 5), row(2, 0, 6), row(1, 151, 5)]),
        2
    );
    assert_eq!(repo.played_games, vec![row(1, 100, 1), row(1, 150, 4), row(2, 0, 5), row(1, 151, 5)]);
}

#[test]
fn details_are_merged() {
    let mut repo = Repo::new();
    repo.insert_game_details(&vec![details(1, false, Some("2079"), Some(100), 1)]);
    repo.insert_game_details(&vec![details(1, true, None, None, 2)]);
    assert_eq!(repo.game_details, vec![details(1, true, Some("2079"), Some(100), 2)]);
    repo.insert_game_details(&vec![details(1, true, Some(""), None, 3)]);
    assert_eq!(repo.game_details, vec![details(1, true, Some("2079"), Some(100), 3)]);
    repo.insert_game_details(&vec![details(1, false, Some("Q1 2080"), None, 4)]);
    assert_eq!(repo.game_details, vec![details(1, false, Some("Q1 2080"), Some(100), 4)]);
    repo.insert_game_details(&vec![details(2, false, None, None, 5), details(1, false, None, Some(7), 6)]);
    assert_eq!(
        repo.game_details,
        vec![details(1, false, Some("Q1 2080"), Some(7), 6), details(2, false, None, None, 5)]
    );
    assert_eq!(
        repo.get_release_dates(&vec![id(2), id(1), id(3)]),
        vec![(id(1), "Q1 2080".to_string())]
    );
    assert_eq!(repo.get_release_dates(&vec![]), vec![]);
}

#[test]
fn failures_are_counted() {
    let mut repo = Repo::new();
    repo.mark_game_detail_failures(&vec![id(1), id(2), id(1)]);
    repo.mark_game_detail_failures(&vec![]);
    repo.mark_game_detail_failures(&vec![id(1)]);
    assert_eq!(
        repo.blacklist,
        vec![
            DetailLookupFailure { id: id(1), failure_count: 3 },
            DetailLookupFailure { id: id(2), failure_count: 1 },
        ]
    );
    repo.blacklist[0].failure_count = u64::MAX;
    repo.mark_game_detail_failures(&vec![id(1)]);
    assert_eq!(repo.blacklist[0].failure_count, u64::MAX);
}

#[test]
fn candidates_are_capped_and_skip_blocked() {
    assert_eq!(BACKFILL_LIMIT, 100);
    assert_eq!(FAILURE_LIMIT, 5);
    let mut repo = Repo::new();
    let owned: Vec<GameId> = (1..=150).map(id).collect();
    repo.insert_owned_games(&owned, at(1));
    for _ in 0..4 {
        repo.mark_game_detail_failures(&vec![id(1), id(2)]);
    }
    repo.mark_game_detail_failures(&vec![id(2)]);
    repo.insert_game_details(&vec![details(3, true, None, None, 1)]);
    let picked = repo.get_games_missing_details();
    assert_eq!(picked.len(), 100);
    let mut expected = vec![id(1)];
    expected.extend((4..=102).map(id));
    assert_eq!(picked, expected);
    assert!(!picked.contains(&id(2)));
    assert!(!picked.contains(&id(3)));
}

#[test]
fn candidates_come_from_every_followed_table() {
    let mut repo = Repo::new();
    repo.insert_owned_games(&vec![id(1), id(2)], at(1));
    repo.update_wishlist(
        &vec![
            WishlistedGame { id: id(2), wishlisted: at(1), deleted: None },
            WishlistedGame { id: id(3), wishlisted: at(1), deleted: None },
            WishlistedGame { id: id(4), wishlisted: at(1), deleted: None },
        ],
        at(2),
    );
    repo.update_wishlist(&vec![WishlistedGame { id: id(3), wishlisted: at(1), deleted: None }], at(3));
    repo.insert_noted_games(vec![
        note("a", Some(5), None, 1),
        note("b", Some(6), Some(GameState::Upcoming), 1),
        note("c", Some(7), Some(GameState::Completed), 1),
        note("d", None, Some(GameState::NoRelease), 1),
        note("e", Some(1), Some(GameState::NoRelease), 1),
        note("f", Some(8), Some(GameState::Other("Maybe".to_string())), 1),
    ]);
    assert_eq!(repo.followed_games(), vec![id(1), id(2), id(2), id(3), id(4), id(5), id(6), id(1)]);
    assert_eq!(repo.get_games_missing_details(), vec![id(1), id(2), id(3), id(4), id(5), id(6)]);
    assert_eq!(repo.pick_candidates(&vec![id(9), id(9), id(1)]), vec![id(9), id(1)]);
    assert_eq!(repo.pick_candidates(&vec![]), vec![]);
}

#[test]
fn notes_are_upserted() {
    let mut repo = Repo::new();
    repo.insert_noted_games(vec![note("a", None, None, 1), note("b", Some(2), Some(GameState::Tried), 2)]);
    let mut again = note("a", Some(9), Some(GameState::Released), 50);
    again.tags = vec!["x".to_string(), "y".to_string()];
    again.my_rating = None;
    again.notes = Some("fine".to_string());
    repo.insert_noted_games(vec![again, note("c", None, None, 3)]);
    let mut first = note("a", Some(9), Some(GameState::Released), 1);
    first.tags = vec!["x".to_string(), "y".to_string()];
    first.my_rating = None;
    first.notes = Some("fine".to_string());
    assert_eq!(
        repo.noted_games,
        vec![first, note("b", Some(2), Some(GameState::Tried), 2), note("c", None, None, 3)]
    );
}

#[test]
fn upcoming_and_newly_released() {
    let mut repo = Repo::new();
    repo.insert_game_details(&vec![
        details(1, false, None, None, 1),
        details(2, true, None, Some(500), 1),
        details(3, true, None, Some(100), 1),
        details(4, true, None, None, 1),
        details(5, false, None, Some(1), 1),
    ]);
    repo.insert_noted_games(vec![
        note("a", Some(1), None, 1),
        note("b", Some(2), Some(GameState::Upcoming), 1),
        note("c", Some(3), Some(GameState::NoRelease), 1),
        note("d", Some(4), Some(GameState::Completed), 1),
        note("e", Some(9), None, 1),
        note("f", None, None, 1),
        note("g", Some(4), None, 1),
        note("h", Some(2), None, 1),
    ]);
    assert_eq!(repo.get_upcoming_noted_game_ids(at(100)), vec![id(1), id(2), id(2)]);
    assert_eq!(
        repo.get_upcoming_noted_game_ids(Timestamp { secs: 99, nanos: 999_999_999 }),
        vec![id(1), id(2), id(3), id(2)]
    );
    let released = |n: &str, g| ReleasedGame { note_id: n.to_string(), game_id: id(g) };
    assert_eq!(
        repo.get_newly_released_games(),
        vec![released("b", 2), released("c", 3), released("g", 4), released("h", 2)]
    );
    repo.update_wishlist(
        &vec![
            WishlistedGame { id: id(5), wishlisted: at(1), deleted: None },
            WishlistedGame { id: id(4), wishlisted: at(1), deleted: None },
            WishlistedGame { id: id(2), wishlisted: at(1), deleted: None },
        ],
        at(1),
    );
    repo.update_wishlist(&vec![], at(2));
    assert_eq!(repo.get_upcoming_wishlisted_game_ids(at(100)), vec![id(5), id(2)]);
    assert_eq!(repo.get_upcoming_wishlisted_game_ids(at(500)), vec![id(5)]);
}

#[test]
fn wishlist_is_reconciled() {
    let wish = |n, w| WishlistedGame { id: id(n), wishlisted: at(w), deleted: None };
    let gone = |n, w, d| WishlistedGame { id: id(n), wishlisted: at(w), deleted: Some(at(d)) };
    let mut repo = Repo::new();
    // stored {A, B}
    repo.update_wishlist(&vec![wish(1, 10), wish(2, 20)], at(100));
    assert_eq!(repo.wishlist, vec![wish(1, 10), wish(2, 20)]);
    assert_eq!(repo.get_wishlisted_ids(), vec![id(1), id(2)]);
    // snapshot {B, C}
    let snapshot = vec![wish(2, 21), wish(3, 30)];
    repo.update_wishlist(&snapshot, at(200));
    assert_eq!(repo.wishlist, vec![gone(1, 10, 200), wish(2, 20), wish(3, 30)]);
    // the same snapshot again changes nothing
    repo.update_wishlist(&snapshot, at(300));
    assert_eq!(repo.wishlist, vec![gone(1, 10, 200), wish(2, 20), wish(3, 30)]);
    assert_eq!(repo.get_wishlisted_ids(), vec![id(2), id(3)]);
}

#[test]
fn wishlist_readd_keeps_first_date() {
    let wish = |n, w| WishlistedGame { id: id(n), wishlisted: at(w), deleted: None };
    let mut repo = Repo::new();
    repo.update_wishlist(&vec![wish(1, 10)], at(100));
    repo.update_wishlist(&vec![], at(200));
    assert_eq!(
        repo.wishlist,
        vec![WishlistedGame { id: id(1), wishlisted: at(10), deleted: Some(at(200)) }]
    );
    repo.update_wishlist(&vec![wish(1, 999), wish(1, 998)], at(300));
    assert_eq!(repo.wishlist, vec![wish(1, 10)]);
    repo.update_wishlist(&vec![], at(400));
    repo.update_wishlist(&vec![], at(500));
    assert_eq!(
        repo.wishlist,
        vec![WishlistedGame { id: id(1), wishlisted: at(10), deleted: Some(at(400)) }]
    );
}

#[test]
fn wishlist_helpers() {
    let wish = |n, w| WishlistedGame { id: id(n), wishlisted: at(w), deleted: None };
    let mut repo = Repo::new();
    repo.insert_wishlist_items(&vec![id(2)], &vec![wish(1, 1), wish(2, 2), wish(1, 3)]);
    assert_eq!(repo.wishlist, vec![wish(1, 1)]);
    repo.insert_wishlist_items(&vec![], &vec![wish(2, 2)]);
    repo.delete_wishlist_ids(&vec![id(2)], at(9));
    assert_eq!(
        repo.wishlist,
        vec![WishlistedGame { id: id(1), wishlisted: at(1), deleted: Some(at(9)) }, wish(2, 2)]
    );
    repo.delete_wishlist_ids(&vec![], at(10));
    assert_eq!(
        repo.wishlist,
        vec![
            WishlistedGame { id: id(1), wishlisted: at(1), deleted: Some(at(9)) },
            WishlistedGame { id: id(2), wishlisted: at(2), deleted: Some(at(10)) },
        ]
    );
}

#[test]
fn release_updates_are_appended() {
    let mut repo = Repo::new();
    repo.insert_release_update(&id(1), "2079", &Some(at(5)), "17 Jan 2020", &None, at(9));
    repo.insert_release_update(&id(1), "a", &None, "b", &Some(at(6)), at(10));
    assert_eq!(
        repo.release_updates,
        vec![
            ReleaseUpdateLogEntry {
                id: id(1),
                prev_text: "2079".to_string(),
                new_text: "17 Jan 2020".to_string(),
                prev_estimate: Some(at(5)),
                new_estimate: None,
                recorded: at(9),
            },
            ReleaseUpdateLogEntry {
                id: id(1),
                prev_text: "a".to_string(),
                new_text: "b".to_string(),
                prev_estimate: None,
                new_estimate: Some(at(6)),
                recorded: at(10),
            },
        ]
    );
}

#[test]
fn store_tells_whether_it_is_in_order() {
    let mut repo = Repo::new();
    assert!(repo.is_wf());
    repo.insert_owned_games(&vec![id(1), id(2)], at(1));
    repo.insert_noted_games(vec![note("a", None, None, 1), note("b", None, None, 1)]);
    assert!(repo.is_wf());
    repo.owned_games.push(OwnershipRecord { id: id(1), first_recorded: at(2) });
    assert!(!repo.is_wf());
    repo.owned_games.pop();
    assert!(repo.is_wf());
    repo.noted_games.push(note("a", Some(3), None, 2));
    assert!(!repo.is_wf());
    repo.noted_games.pop();
    for table in 0..5 {
        let mut broken = Repo::new();
        match table {
            0 => {
                broken.steam_games.push(CatalogEntry { id: id(1), name: "a".to_string() });
                broken.steam_games.push(CatalogEntry { id: id(1), name: "b".to_string() });
            }
            1 => {
                broken.game_details.push(details(1, true, None, None, 1));
                broken.game_details.push(details(2, true, None, None, 1));
                broken.game_details.push(details(1, true, None, None, 1));
            }
            2 => {
                broken.blacklist.push(DetailLookupFailure { id: id(1), failure_count: 1 });
                broken.blacklist.push(DetailLookupFailure { id: id(1), failure_count: 1 });
            }
            3 => {
                broken.wishlist.push(WishlistedGame { id: id(1), wishlisted: at(1), deleted: None });
                broken.wishlist.push(WishlistedGame { id: id(1), wishlisted: at(1), deleted: None });
            }
            _ => {
                broken.ignored_games.push(id(1));
                broken.ignored_games.push(id(1));
            }
        }
        assert!(!broken.is_wf(), "table {}", table);
    }
    // the tables that only grow may hold a game many times
    repo.played_games.push(PlayedGame { id: id(1), playtime: 1, last_played: at(1), recorded: at(1) });
    repo.played_games.push(PlayedGame { id: id(1), playtime: 1, last_played: at(1), recorded: at(1) });
    assert!(repo.is_wf());
}

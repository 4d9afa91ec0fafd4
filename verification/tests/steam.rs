use chrono::{DateTime, TimeZone, Utc};
use rusteam::db::repo::{Repo, SteamGamesHandling};
use rusteam::models::game::{GameDetails, GameId, SteamPlaytime, WishlistedGame};
use rusteam::models::steam::{
    SteamAllGamesResponse, SteamAppDetails, SteamAppDetailsResponse,
    SteamAppDetailsResponseEntry, SteamAppIdPair, SteamApplist, SteamOwnedGame, SteamOwnedGames,
    SteamOwnedGamesResponse, SteamWishlist, SteamWishlistItem, SteamWishlistResponse,
};
use rusteam::steam::{
    all_keys_read, collect_details, owned_game_ids, played_games, playtime_from, wishlist_items,
    DetailsAnswer, SteamClient, SteamError,
};
use rusteam::time::{Timestamp, FIRST_SECOND, LAST_SECOND};

fn ts(t: DateTime<Utc>) -> Timestamp {
    Timestamp { secs: t.timestamp(), nanos: t.timestamp_subsec_nanos() }
}

fn owned_games_fixture() -> SteamOwnedGamesResponse {
    SteamOwnedGamesResponse {
        response: SteamOwnedGames {
            game_count: 3,
            games: vec![
                SteamOwnedGame { appid: 666, playtime_forever: 100, rtime_last_played: 0 },
                SteamOwnedGame { appid: 1337, playtime_forever: 1000, rtime_last_played: 0 },
                SteamOwnedGame {
                    appid: 9876,
                    playtime_forever: 10000,
                    rtime_last_played: 1709273104,
                },
            ],
        },
    }
}

#[test]
fn test_get_owned_games() {
    let expected = vec![GameId { app_id: 666 }, GameId { app_id: 1337 }, GameId { app_id: 9876 }];
    let actual = owned_game_ids(&owned_games_fixture());

    assert_eq!(actual, expected);
}

#[test]
fn test_get_played_games() {
    let expected = vec![
        SteamPlaytime {
            id: GameId { app_id: 666 },
            playtime: 100 * 60,
            last_played: ts(DateTime::UNIX_EPOCH),
        },
        SteamPlaytime {
            id: GameId { app_id: 1337 },
            playtime: 1000 * 60,
            last_played: ts(DateTime::UNIX_EPOCH),
        },
        SteamPlaytime {
            id: GameId { app_id: 9876 },
            playtime: 10000 * 60,
            last_played: ts(Utc.with_ymd_and_hms(2024, 3, 1, 6, 5, 4).unwrap()),
        },
    ];
    let now = ts(Utc.with_ymd_and_hms(2024, 5, 1, 0, 0, 0).unwrap());
    let actual = played_games(&owned_games_fixture(), now);

    assert_eq!(actual, expected);
}

#[test]
fn test_get_all_games() {
    let response = SteamAllGamesResponse {
        applist: SteamApplist {
            apps: vec![
                SteamAppIdPair { appid: 666, name: "Game Buying Simulator 2024".to_string() },
                SteamAppIdPair { appid: 1337, name: "Final Fantasy MMLXVII".to_string() },
                SteamAppIdPair { appid: 654321, name: "Paint Drying Tycoon 2".to_string() },
            ],
        },
    };
    let expected = vec![
        SteamAppIdPair { appid: 666, name: "Game Buying Simulator 2024".to_string() },
        SteamAppIdPair { appid: 1337, name: "Final Fantasy MMLXVII".to_string() },
        SteamAppIdPair { appid: 654321, name: "Paint Drying Tycoon 2".to_string() },
    ];
    let mut repo = Repo::new();
    repo.insert_steam_games(&response.applist.apps);
    let actual: Vec<SteamAppIdPair> = repo
        .get_game_names_by_id(&vec![GameId { app_id: 666 }, GameId { app_id: 1337 }, GameId { app_id: 654321 }])
        .into_iter()
        .map(|entry| SteamAppIdPair { appid: entry.id.app_id, name: entry.name })
        .collect();

    assert_eq!(actual, expected);
}

#[test]
fn test_get_wishlist() {
    let response = SteamWishlistResponse {
        response: SteamWishlist {
            items: vec![
                SteamWishlistItem { appid: 1093810, date_added: 1570775048 },
                SteamWishlistItem { appid: 1125510, date_added: 1707467201 },
                SteamWishlistItem { appid: 1145350, date_added: 1701848929 },
            ],
        },
    };
    let expected = vec![
        WishlistedGame {
            id: GameId { app_id: 1093810 },
            wishlisted: ts(Utc.with_ymd_and_hms(2019, 10, 11, 6, 24, 8).unwrap()),
            deleted: None,
        },
        WishlistedGame {
            id: GameId { app_id: 1125510 },
            wishlisted: ts(Utc.with_ymd_and_hms(2024, 2, 9, 8, 26, 41).unwrap()),
            deleted: None,
        },
        WishlistedGame {
            id: GameId { app_id: 1145350 },
            wishlisted: ts(Utc.with_ymd_and_hms(2023, 12, 6, 7, 48, 49).unwrap()),
            deleted: None,
        },
    ];
    let mut actual = wishlist_items(&response).unwrap();
    actual.sort_by_key(|item| item.id.app_id);

    assert_eq!(actual, expected);
}

#[test]
fn wishlist_with_bad_date_is_refused() {
    let response = SteamWishlistResponse {
        response: SteamWishlist {
            items: vec![
                SteamWishlistItem { appid: 1, date_added: 0 },
                SteamWishlistItem { appid: 2, date_added: i64::MAX },
            ],
        },
    };
    assert_eq!(
        wishlist_items(&response),
        Err(SteamError::Conv("Bad unix timestamp for date_added field".to_string()))
    );
    let low = SteamWishlistResponse {
        response: SteamWishlist { items: vec![SteamWishlistItem { appid: 2, date_added: i64::MIN }] },
    };
    assert!(wishlist_items(&low).is_err());
    let none = SteamWishlistResponse { response: SteamWishlist { items: vec![] } };
    assert_eq!(wishlist_items(&none), Ok(vec![]));
}

#[test]
fn playtime_saturates_and_falls_back() {
    let now = Timestamp { secs: 42, nanos: 7 };
    let big = SteamOwnedGame { appid: 1, playtime_forever: u64::MAX, rtime_last_played: u64::MAX };
    assert_eq!(
        playtime_from(&big, now),
        SteamPlaytime { id: GameId { app_id: 1 }, playtime: u64::MAX, last_played: now }
    );
    let edge = SteamOwnedGame {
        appid: 2,
        playtime_forever: u64::MAX / 60,
        rtime_last_played: i64::MAX as u64,
    };
    assert_eq!(
        playtime_from(&edge, now),
        SteamPlaytime { id: GameId { app_id: 2 }, playtime: (u64::MAX / 60) * 60, last_played: now }
    );
    let over = SteamOwnedGame {
        appid: 3,
        playtime_forever: u64::MAX / 60 + 1,
        rtime_last_played: 86_400,
    };
    assert_eq!(
        playtime_from(&over, now),
        SteamPlaytime {
            id: GameId { app_id: 3 },
            playtime: u64::MAX,
            last_played: Timestamp { secs: 86_400, nanos: 0 },
        }
    );
}

fn steam_details(date: &str) -> SteamAppDetails {
    SteamAppDetails {
        short_description: Some(date.to_string()),
        controller_support: None,
        categories: vec![],
        metacritic: None,
        release_date: None,
    }
}

fn entry(key: &str, date: &str) -> (String, SteamAppDetailsResponseEntry) {
    (key.to_string(), SteamAppDetailsResponseEntry { data: steam_details(date) })
}

fn kept(id: u32, description: &str, now: Timestamp) -> GameDetails {
    GameDetails {
        id: GameId { app_id: id },
        description: Some(description.to_string()),
        controller_support: None,
        coop: false,
        local_coop: false,
        metacritic_percent: None,
        is_released: false,
        release_date: None,
        release_estimate: None,
        recorded: now,
    }
}

#[test]
fn collect_details_reads_answers() {
    let now = Timestamp { secs: 1, nanos: 2 };
    let answers = vec![
        DetailsAnswer {
            id: GameId { app_id: 10 },
            response: Some(SteamAppDetailsResponse { results: vec![entry("10", "a")] }),
        },
        DetailsAnswer { id: GameId { app_id: 20 }, response: None },
        DetailsAnswer {
            id: GameId { app_id: 30 },
            response: Some(SteamAppDetailsResponse {
                results: vec![entry("30", "b"), entry("x", "c")],
            }),
        },
        DetailsAnswer {
            id: GameId { app_id: 40 },
            response: Some(SteamAppDetailsResponse {
                results: vec![entry("40", "d"), entry("10", "e")],
            }),
        },
        DetailsAnswer {
            id: GameId { app_id: 50 },
            response: Some(SteamAppDetailsResponse { results: vec![] }),
        },
    ];
    let (details, failures) = collect_details(&answers, now);
    assert_eq!(details, vec![kept(10, "e", now), kept(40, "d", now)]);
    assert_eq!(failures, vec![GameId { app_id: 20 }, GameId { app_id: 30 }]);
    assert_eq!(collect_details(&vec![], now), (vec![], vec![]));
    assert!(all_keys_read(&SteamAppDetailsResponse { results: vec![entry("+1", "a")] }));
    assert!(!all_keys_read(&SteamAppDetailsResponse { results: vec![entry("-1", "a")] }));
}

#[test]
fn steam_client_keeps_its_settings() {
    let client = SteamClient::new("STEAM API KEY", "http://api", "http://store");
    assert_eq!(
        client,
        SteamClient {
            api_key: "STEAM API KEY".to_string(),
            api_host: "http://api".to_string(),
            store_host: "http://store".to_string(),
        }
    );
}

#[test]
fn seconds_are_held_within_the_dates_of_chrono() {
    assert_eq!(FIRST_SECOND, DateTime::<Utc>::MIN_UTC.timestamp());
    assert_eq!(LAST_SECOND, DateTime::<Utc>::MAX_UTC.timestamp());
    for (secs, held) in [
        (FIRST_SECOND, true),
        (FIRST_SECOND - 1, false),
        (FIRST_SECOND + 1, true),
        (LAST_SECOND, true),
        (LAST_SECOND + 1, false),
        (LAST_SECOND - 1, true),
        (0, true),
        (-1, true),
        (i64::MIN, false),
        (i64::MAX, false),
    ] {
        assert_eq!(DateTime::from_timestamp(secs, 0).is_some(), held, "{}", secs);
        let response = SteamWishlistResponse {
            response: SteamWishlist { items: vec![SteamWishlistItem { appid: 1, date_added: secs }] },
        };
        let expected = if held {
            Ok(vec![WishlistedGame {
                id: GameId { app_id: 1 },
                wishlisted: Timestamp { secs, nanos: 0 },
                deleted: None,
            }])
        } else {
            Err(SteamError::Conv("Bad unix timestamp for date_added field".to_string()))
        };
        assert_eq!(wishlist_items(&response), expected, "{}", secs);
    }
    let now = Timestamp { secs: 1, nanos: 1 };
    let last = SteamOwnedGame { appid: 1, playtime_forever: 0, rtime_last_played: LAST_SECOND as u64 };
    assert_eq!(playtime_from(&last, now).last_played, Timestamp { secs: LAST_SECOND, nanos: 0 });
    let past = SteamOwnedGame {
        appid: 1,
        playtime_forever: 0,
        rtime_last_played: LAST_SECOND as u64 + 1,
    };
    assert_eq!(playtime_from(&past, now).last_played, now);
}

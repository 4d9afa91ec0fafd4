use chrono::{DateTime, TimeZone, Utc};
use rusteam::models::game::{GameDetails, GameId};
use rusteam::models::steam::{Category, MetacriticScore, ReleaseDate, SteamAppDetails};
use rusteam::steam::conv::{
    clean_release_text, extract_game_details, following_month, following_year, month_year_text,
    parse_release_date, read_bare_year,
};
use rusteam::time::{CalendarDate, Timestamp};

fn ts(t: DateTime<Utc>) -> Timestamp {
    Timestamp { secs: t.timestamp(), nanos: t.timestamp_subsec_nanos() }
}

// Some categories, including "Multi-player", indicating coop
fn generic_coop_categories() -> Vec<Category> {
    vec![
        Category { id: 28, description: "Full controller support".to_string() },
        Category { id: 1, description: "Multi-player".to_string() },
    ]
}

// Some categories, including "Shared/Split Screen Co-op", indicating local coop
fn local_coop_categories() -> Vec<Category> {
    vec![
        Category { id: 2, description: "Single-player".to_string() },
        Category { id: 39, description: "Shared/Split Screen Co-op".to_string() },
    ]
}

fn details_fixture(categories: Vec<Category>, released: bool) -> SteamAppDetails {
    SteamAppDetails {
        short_description: Some("Game buying simulator".to_string()),
        controller_support: Some("full".to_string()),
        categories,
        metacritic: Some(MetacriticScore { score: 66 }),
        release_date: Some(ReleaseDate {
            coming_soon: !released,
            date: if released { "17 Jan 2020".to_string() } else { "2079".to_string() },
        }),
    }
}

#[test]
fn convert_steam_details_released() {
    let id = GameId { app_id: 666666 };
    let fix = details_fixture(vec![], true);
    let now = ts(Utc.with_ymd_and_hms(2020, 1, 1, 0, 0, 0).unwrap());

    let expected = GameDetails {
        id,
        description: fix.short_description.clone(),
        controller_support: fix.controller_support.clone(),
        coop: false,
        local_coop: false,
        metacritic_percent: Some(66),
        is_released: true,
        release_date: Some("17 Jan 2020".to_string()),
        release_estimate: Some(ts(Utc.with_ymd_and_hms(2020, 1, 17, 0, 0, 0).unwrap())),
        recorded: now,
    };

    let actual = extract_game_details(&id, &fix, &now);

    assert_eq!(actual, expected);
}

#[test]
fn convert_steam_details_coming_soon() {
    let id = GameId { app_id: 666666 };
    let fix = details_fixture(vec![], false);
    let now = ts(Utc.with_ymd_and_hms(2020, 1, 1, 0, 0, 0).unwrap());

    let expected = GameDetails {
        id,
        description: fix.short_description.clone(),
        controller_support: fix.controller_support.clone(),
        coop: false,
        local_coop: false,
        metacritic_percent: Some(66),
        is_released: false,
        release_date: Some("2079".to_string()),
        release_estimate: Some(ts(Utc.with_ymd_and_hms(2080, 1, 1, 0, 0, 0).unwrap())),
        recorded: now,
    };

    let actual = extract_game_details(&id, &fix, &now);

    assert_eq!(actual, expected);
}

#[test]
fn convert_steam_details_remote_coop() {
    let id = GameId { app_id: 666666 };
    let fix = details_fixture(generic_coop_categories(), false);
    let now = ts(Utc.with_ymd_and_hms(2020, 1, 1, 0, 0, 0).unwrap());

    let expected = GameDetails {
        id,
        description: fix.short_description.clone(),
        controller_support: fix.controller_support.clone(),
        coop: true,
        local_coop: false,
        metacritic_percent: Some(66),
        is_released: false,
        release_date: Some("2079".to_string()),
        release_estimate: Some(ts(Utc.with_ymd_and_hms(2080, 1, 1, 0, 0, 0).unwrap())),
        recorded: now,
    };

    let actual = extract_game_details(&id, &fix, &now);

    assert_eq!(actual, expected);
}

#[test]
fn convert_steam_details_local_coop() {
    let id = GameId { app_id: 666666 };
    let fix = details_fixture(local_coop_categories(), false);
    let now = ts(Utc.with_ymd_and_hms(2020, 1, 1, 0, 0, 0).unwrap());

    let expected = GameDetails {
        id,
        description: fix.short_description.clone(),
        controller_support: fix.controller_support.clone(),
        coop: true,
        local_coop: true,
        metacritic_percent: Some(66),
        is_released: false,
        release_date: Some("2079".to_string()),
        release_estimate: Some(ts(Utc.with_ymd_and_hms(2080, 1, 1, 0, 0, 0).unwrap())),
        recorded: now,
    };

    let actual = extract_game_details(&id, &fix, &now);

    assert_eq!(actual, expected);
}

#[test]
fn convert_steam_details_without_release_date() {
    let id = GameId { app_id: 7 };
    let now = Timestamp { secs: 5, nanos: 6 };
    let steam = SteamAppDetails {
        short_description: None,
        controller_support: None,
        categories: vec![Category { id: 24, description: "Shared/Split Screen".to_string() }],
        metacritic: None,
        release_date: None,
    };
    let actual = extract_game_details(&id, &steam, &now);
    assert_eq!(
        actual,
        GameDetails {
            id,
            description: None,
            controller_support: None,
            coop: true,
            local_coop: true,
            metacritic_percent: None,
            is_released: false,
            release_date: None,
            release_estimate: None,
            recorded: now,
        }
    );
}

#[test]
fn convert_steam_details_every_coop_category() {
    let id = GameId { app_id: 7 };
    let now = Timestamp { secs: 0, nanos: 0 };
    for (cat, coop, local) in [
        (1u32, true, false),
        (9, true, false),
        (38, true, false),
        (48, true, false),
        (39, true, true),
        (24, true, true),
        (2, false, false),
        (0, false, false),
    ] {
        let steam = SteamAppDetails {
            short_description: None,
            controller_support: None,
            categories: vec![Category { id: cat, description: String::new() }],
            metacritic: None,
            release_date: None,
        };
        let d = extract_game_details(&id, &steam, &now);
        assert_eq!((d.coop, d.local_coop), (coop, local));
    }
}

#[test]
fn parse_release_date_exact_date() {
    let expected = ts(Utc.with_ymd_and_hms(2025, 6, 5, 0, 0, 0).unwrap());
    let actual = parse_release_date("5 Jun, 2025");

    assert_eq!(actual, Some(expected));
}

#[test]
fn parse_release_date_year() {
    let expected = ts(Utc.with_ymd_and_hms(2028, 1, 1, 0, 0, 0).unwrap());
    let actual = parse_release_date("2027");

    assert_eq!(actual, Some(expected));
}

#[test]
fn parse_release_date_month_year() {
    let expected = ts(Utc.with_ymd_and_hms(2025, 5, 1, 0, 0, 0).unwrap());
    let actual = parse_release_date("Apr 2025");

    assert_eq!(actual, Some(expected));
}

#[test]
fn parse_release_date_quarter() {
    let expected = ts(Utc.with_ymd_and_hms(2025, 7, 1, 0, 0, 0).unwrap());
    let actual = parse_release_date("Q2 2025");

    assert_eq!(actual, Some(expected));
}

#[test]
fn parse_release_date_exact_seconds() {
    assert_eq!(parse_release_date("1 Jan 1970"), Some(Timestamp { secs: 0, nanos: 0 }));
    assert_eq!(parse_release_date("2 Jan 1970"), Some(Timestamp { secs: 86_400, nanos: 0 }));
    assert_eq!(parse_release_date("1969"), Some(Timestamp { secs: 0, nanos: 0 }));
    assert_eq!(parse_release_date("1970"), Some(Timestamp { secs: 31_536_000, nanos: 0 }));
    assert_eq!(parse_release_date("Dec 1969"), Some(Timestamp { secs: 0, nanos: 0 }));
    assert_eq!(parse_release_date("Q4 1969"), Some(Timestamp { secs: 0, nanos: 0 }));
    assert_eq!(parse_release_date("5 Jun, 2025"), Some(Timestamp { secs: 1_749_081_600, nanos: 0 }));
}

#[test]
fn parse_release_date_unknown_texts() {
    assert_eq!(parse_release_date("Coming soon"), None);
    assert_eq!(parse_release_date("To be announced"), None);
    assert_eq!(parse_release_date(""), None);
    assert_eq!(parse_release_date("soon"), None);
    assert_eq!(parse_release_date("31 Feb 2025"), None);
    assert_eq!(parse_release_date("Q5 2025"), None);
    assert_eq!(parse_release_date("Q"), None);
    assert_eq!(parse_release_date("Q2"), None);
    assert_eq!(parse_release_date("Q2\u{e9} 2025"), None);
    assert_eq!(parse_release_date(" Q2 2025"), None);
}

#[test]
fn parse_release_date_every_quarter() {
    for (text, month, year) in
        [("Q1 2030", 4, 2030), ("Q2 2030", 7, 2030), ("Q3 2030", 10, 2030), ("Q4 2030", 1, 2031)]
    {
        let expected = ts(Utc.with_ymd_and_hms(year, month, 1, 0, 0, 0).unwrap());
        assert_eq!(parse_release_date(text), Some(expected), "{}", text);
    }
}

#[test]
fn parse_release_date_december_rolls_over() {
    let expected = ts(Utc.with_ymd_and_hms(2026, 1, 1, 0, 0, 0).unwrap());
    assert_eq!(parse_release_date("Dec 2025"), Some(expected));
}

#[test]
fn parse_release_date_commas_and_spaces() {
    let expected = ts(Utc.with_ymd_and_hms(2016, 2, 26, 0, 0, 0).unwrap());
    assert_eq!(parse_release_date("26 Feb, 2016"), Some(expected));
    assert_eq!(parse_release_date("  26 Feb 2016  "), Some(expected));
    assert_eq!(parse_release_date(",26, Feb, 2016,"), Some(expected));
    let year = ts(Utc.with_ymd_and_hms(2028, 1, 1, 0, 0, 0).unwrap());
    assert_eq!(parse_release_date(" 2027 "), Some(year));
    assert_eq!(parse_release_date("2,027"), Some(year));
    assert_eq!(parse_release_date("2027,"), Some(year));
}

#[test]
fn parse_release_date_year_is_four_digits() {
    for text in [
        "123", "1", "12", "02027", "20277", "+2027", "-2027", "-1", "+202", "2147483647",
        "2147483648", "999999", "20 27", "202x", "x027", "\u{0662}\u{0660}\u{0662}\u{0667}",
    ] {
        assert_eq!(parse_release_date(text), None, "{:?}", text);
    }
    let start = |year| Some(ts(Utc.with_ymd_and_hms(year, 1, 1, 0, 0, 0).unwrap()));
    assert_eq!(parse_release_date("0000"), start(1));
    assert_eq!(parse_release_date("0123"), start(124));
    assert_eq!(parse_release_date("9999"), start(10000));
}

#[test]
fn read_bare_year_reads_four_digits() {
    assert_eq!(read_bare_year("2027"), Some(2027));
    assert_eq!(read_bare_year("0000"), Some(0));
    assert_eq!(read_bare_year("0007"), Some(7));
    assert_eq!(read_bare_year("9999"), Some(9999));
    for text in ["", "123", "12345", "+123", "-123", " 123", "12 3", "202a", "\u{ff12}027"] {
        assert_eq!(read_bare_year(text), None, "{:?}", text);
    }
}

#[test]
fn clean_release_text_strips() {
    assert_eq!(clean_release_text("5 Jun, 2025"), "5 Jun 2025");
    assert_eq!(clean_release_text(" \t,a, b ,\n"), "a b");
    assert_eq!(clean_release_text("\u{a0}x\u{3000}"), "x");
    assert_eq!(clean_release_text(",,,"), "");
    assert_eq!(clean_release_text(""), "");
    assert_eq!(clean_release_text("a , b"), "a  b");
}

#[test]
fn clean_release_text_agrees_with_std() {
    for s in ["5 Jun, 2025", "  x ", "\u{2003}Q1, 2020\u{85}", ", ,", "\u{1680}a\u{200a}", "\u{200b}a"] {
        assert_eq!(clean_release_text(s), s.replace(',', "").trim().to_owned());
    }
}

#[test]
fn month_year_text_rewrites_quarters() {
    assert_eq!(month_year_text("Apr 2025", "Apr 2025"), Some("1 Apr 2025".to_string()));
    assert_eq!(month_year_text("Q1 2025", "Q1 2025"), Some("1 Mar 2025".to_string()));
    assert_eq!(month_year_text("Q2 2025", "Q2 2025"), Some("1 Jun 2025".to_string()));
    assert_eq!(month_year_text("Q3 2025", "Q3 2025"), Some("1 Sep 2025".to_string()));
    assert_eq!(month_year_text("Q4-2025", "Q4-2025"), Some("1 Dec 2025".to_string()));
    assert_eq!(month_year_text("Q4 ", "Q4"), None);
    assert_eq!(month_year_text("Q4x", "Q4x"), Some("1 Dec ".to_string()));
    assert_eq!(month_year_text("Q7 2025", "Q7 2025"), None);
    assert_eq!(month_year_text("Q", "Q"), None);
    assert_eq!(month_year_text(",Q2 2025", "Q2 2025"), None);
    assert_eq!(month_year_text("", ""), Some("1 ".to_string()));
}

#[test]
fn following_month_and_year() {
    let d = |year, month, day| CalendarDate { year, month, day };
    assert_eq!(following_month(d(2025, 4, 1)), Some(d(2025, 5, 1)));
    assert_eq!(following_month(d(2025, 4, 30)), Some(d(2025, 5, 1)));
    assert_eq!(following_month(d(2025, 11, 1)), Some(d(2025, 12, 1)));
    assert_eq!(following_month(d(2025, 12, 1)), Some(d(2026, 1, 1)));
    assert_eq!(following_month(d(i32::MAX, 12, 1)), None);
    assert_eq!(following_month(d(i32::MAX, 11, 1)), Some(d(i32::MAX, 12, 1)));
    assert_eq!(following_year(2027), Some(d(2028, 1, 1)));
    assert_eq!(following_year(-1), Some(d(0, 1, 1)));
    assert_eq!(following_year(i32::MAX), None);
}

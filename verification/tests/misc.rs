use rusteam::config::{
    default_api_hoststring, default_db, default_notion_hoststring, default_store_hoststring,
    Config, Db, Notion, Steam,
};
use rusteam::db::rules::CatalogEntry;
use rusteam::db::sync::SyncEvent;
use rusteam::models::game::GameId;
use rusteam::notify::{
    name_in_report, report_lines, reported_games, Notification, NotificationHandling,
    PrintNotifier,
};
use rusteam::time::Timestamp;

#[test]
fn connection_string_of_defaults() {
    assert_eq!(
        default_db().connection_string(),
        "host=localhost port=5432 user=admin password=admin dbname=rusteam"
    );
}

#[test]
fn connection_string_of_test_settings() {
    let db = Db {
        host: "localhost".to_string(),
        port: "15432".to_string(),
        user: "tests".to_string(),
        password: "test_admin".to_string(),
        dbname: "rusteam_test".to_string(),
    };
    assert_eq!(
        db.connection_string(),
        "host=localhost port=15432 user=tests password=test_admin dbname=rusteam_test"
    );
    let empty = Db {
        host: String::new(),
        port: String::new(),
        user: String::new(),
        password: String::new(),
        dbname: String::new(),
    };
    assert_eq!(empty.connection_string(), "host= port= user= password= dbname=");
}

#[test]
fn default_hosts() {
    let config = Config {
        db: default_db(),
        steam: Steam {
            api_key: "k".to_string(),
            api_hoststring: default_api_hoststring(),
            store_hoststring: default_store_hoststring(),
            user_id: "u".to_string(),
        },
        notion: Notion {
            api_key: "k".to_string(),
            database_id: "d".to_string(),
            api_hoststring: default_notion_hoststring(),
        },
    };
    assert_eq!(config.steam.api_hoststring, "https://api.steampowered.com");
    assert_eq!(config.steam.store_hoststring, "https://store.steampowered.com");
    assert_eq!(config.notion.api_hoststring, "https://api.notion.com");
}

#[test]
fn notifier_tells_in_order() {
    let mut notifier = PrintNotifier::new();
    assert_eq!(notifier.run(), Vec::<String>::new());
    notifier.enqueue(Notification::ReleaseDateUpdated {
        game: GameId { app_id: 413150 },
        prev: "2079".to_string(),
        updated: "17 Jan 2020".to_string(),
    });
    notifier.enqueue(Notification::Released { game: "Stardew Valley".to_string() });
    assert_eq!(
        notifier.run(),
        vec![
            "\u{1F50E} Release date changed for 413150: \"2079\" -> \"17 Jan 2020\"".to_string(),
            "\u{1F680} Stardew Valley is newly released!".to_string(),
        ]
    );
    assert_eq!(notifier.notifications.len(), 2);
}

#[test]
fn timestamps_are_ordered() {
    let t = |secs, nanos| Timestamp { secs, nanos };
    assert!(t(2, 0).is_after(&t(1, 999_999_999)));
    assert!(t(1, 1).is_after(&t(1, 0)));
    assert!(!t(1, 0).is_after(&t(1, 0)));
    assert!(!t(1, 0).is_after(&t(1, 1)));
    assert!(!t(-1, 5).is_after(&t(0, 0)));
    assert!(t(0, 0).is_after(&t(-1, 5)));
}

#[test]
fn report_names_games_where_it_can() {
    let names = vec![
        CatalogEntry { id: GameId { app_id: 1 }, name: "One".to_string() },
        CatalogEntry { id: GameId { app_id: 2 }, name: "Two".to_string() },
    ];
    let events = vec![
        SyncEvent::ReleaseDateUpdated {
            game: GameId { app_id: 2 },
            prev_text: "2079".to_string(),
            prev_date: None,
            new_text: "17 Jan 2020".to_string(),
            new_date: None,
        },
        SyncEvent::Released { game: GameId { app_id: 1 } },
        SyncEvent::Released { game: GameId { app_id: 30 } },
    ];
    assert_eq!(
        reported_games(&events),
        vec![GameId { app_id: 2 }, GameId { app_id: 1 }, GameId { app_id: 30 }]
    );
    assert_eq!(
        report_lines(&events, &names),
        vec![
            "\u{1F50E} Release date changed for Two: \"2079\" -> \"17 Jan 2020\"".to_string(),
            "\u{1F680} One is newly released!".to_string(),
            "\u{1F680} 30 is newly released!".to_string(),
        ]
    );
    assert_eq!(report_lines(&vec![], &names), Vec::<String>::new());
    assert_eq!(name_in_report(&names, GameId { app_id: 2 }), "Two");
    assert_eq!(name_in_report(&vec![], GameId { app_id: 2 }), "2");
}

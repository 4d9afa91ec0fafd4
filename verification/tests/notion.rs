use rusteam::models::game::GameState;
use rusteam::models::notion::{
    accumulate_plaintext, extract_created_time, extract_rating, extract_state,
    extract_tags, extract_text, extract_title, find_column, Color, ExtractError, GameNote, GameTag,
    NumberValue, Page, Properties, PropertyValue, RichText, SelectedValue, UpdatePage,
};
use rusteam::notion::conv::{to_rich_text, to_select, to_state, to_text, to_title};
use rusteam::notion::{game_details_columns, notes_from_pages, state_columns, NotionGamesRepo};
use rusteam::time::Timestamp;

fn run(s: &str) -> RichText {
    RichText { plain_text: s.to_string(), content: format!("<{}>", s) }
}

fn choice(name: Option<&str>) -> SelectedValue {
    SelectedValue { id: Some("x".to_string()), name: name.map(|s| s.to_string()), color: Color::Pink }
}

fn page(columns: Vec<(&str, PropertyValue)>) -> Page {
    Page {
        id: "page-1".to_string(),
        properties: Properties {
            properties: columns.into_iter().map(|(k, v)| (k.to_string(), v)).collect(),
        },
    }
}

fn full_page() -> Page {
    page(vec![
        ("Name", PropertyValue::Title { title: vec![run("Stardew "), run("Valley")] }),
        ("Steam ID", PropertyValue::Text { rich_text: vec![run("413150")] }),
        ("State", PropertyValue::Select { select: Some(choice(Some("In progress"))) }),
        (
            "Tags",
            PropertyValue::MultiSelect {
                multi_select: Some(vec![choice(Some("farm")), choice(None), choice(Some("cozy"))]),
            },
        ),
        ("Notes", PropertyValue::Text { rich_text: vec![] }),
        ("Rating", PropertyValue::Number { number: Some(NumberValue::Unsigned(89)) }),
        ("Created time", PropertyValue::CreatedTime { created_time: Timestamp { secs: 9, nanos: 1 } }),
        ("Unused", PropertyValue::Other),
    ])
}

#[test]
fn page_is_read_as_note() {
    let note = GameNote::try_from(full_page()).unwrap();
    assert_eq!(
        note,
        GameNote {
            id: "page-1".to_string(),
            name: Some("Stardew Valley".to_string()),
            app_id: Some("413150".to_string()),
            state: Some(GameState::InProgress),
            tags: vec![GameTag("farm".to_string()), GameTag("cozy".to_string())],
            notes: None,
            rating: Some(89),
            created_time: Timestamp { secs: 9, nanos: 1 },
        }
    );
    assert_eq!(GameNote::from_page(&full_page()), Ok(note));
}

#[test]
fn page_with_least_columns_is_a_note() {
    let p = page(vec![
        ("Created time", PropertyValue::CreatedTime { created_time: Timestamp { secs: 1, nanos: 0 } }),
        ("State", PropertyValue::Select { select: None }),
    ]);
    assert_eq!(
        GameNote::try_from(p),
        Ok(GameNote {
            id: "page-1".to_string(),
            name: None,
            app_id: None,
            state: None,
            tags: vec![],
            notes: None,
            rating: None,
            created_time: Timestamp { secs: 1, nanos: 0 },
        })
    );
}

#[test]
fn page_errors() {
    let created = || PropertyValue::CreatedTime { created_time: Timestamp { secs: 1, nanos: 0 } };
    let state = || PropertyValue::Select { select: None };
    assert_eq!(
        GameNote::try_from(page(vec![("Created time", created())])),
        Err(ExtractError::MissingColumn("State".to_string()))
    );
    assert_eq!(
        GameNote::try_from(page(vec![])),
        Err(ExtractError::MissingColumn("State".to_string()))
    );
    assert_eq!(
        GameNote::try_from(page(vec![("State", PropertyValue::Other), ("Created time", created())])),
        Err(ExtractError::BadValue("Wrong type for State field".to_string()))
    );
    assert_eq!(
        GameNote::try_from(page(vec![("State", state())])),
        Err(ExtractError::MissingColumn("Created time".to_string()))
    );
    assert_eq!(
        GameNote::try_from(page(vec![("State", state()), ("Created time", state())])),
        Err(ExtractError::BadValue("Wrong type, expected datetime".to_string()))
    );
    assert_eq!(
        GameNote::try_from(page(vec![("state", state()), ("Created time", created())])),
        Err(ExtractError::MissingColumn("State".to_string()))
    );
    assert_eq!(
        ExtractError::MissingColumn("State".to_string()).message(),
        "Missing column in notion row: State"
    );
    assert_eq!(
        ExtractError::BadValue("Wrong type for State field".to_string()).message(),
        "Bad value found in notion row: Wrong type for State field"
    );
}

#[test]
fn unreadable_pages_are_passed_over() {
    let pages = vec![full_page(), page(vec![]), full_page(), page(vec![("State", PropertyValue::Other)])];
    let notes = notes_from_pages(&pages);
    assert_eq!(notes.len(), 2);
    assert_eq!(notes[0], notes[1]);
    assert_eq!(notes_from_pages(&vec![]), vec![]);
}

#[test]
fn extract_values() {
    assert_eq!(accumulate_plaintext(&vec![]), None);
    assert_eq!(accumulate_plaintext(&vec![run(""), run("")]), None);
    assert_eq!(accumulate_plaintext(&vec![run("a"), run(""), run("bc")]), Some("abc".to_string()));
    let text = PropertyValue::Text { rich_text: vec![run("t")] };
    let title = PropertyValue::Title { title: vec![run("T")] };
    assert_eq!(extract_text(&text), Some("t".to_string()));
    assert_eq!(extract_text(&title), None);
    assert_eq!(extract_title(&title), Some("T".to_string()));
    assert_eq!(extract_title(&text), None);
    let number = |n| PropertyValue::Number { number: n };
    assert_eq!(extract_rating(&number(Some(NumberValue::Unsigned(0)))), Some(0));
    assert_eq!(extract_rating(&number(Some(NumberValue::Unsigned(255)))), Some(255));
    assert_eq!(extract_rating(&number(Some(NumberValue::Unsigned(256)))), None);
    assert_eq!(extract_rating(&number(Some(NumberValue::Other))), None);
    assert_eq!(extract_rating(&number(None)), None);
    assert_eq!(extract_rating(&text), None);
    let select = |c| PropertyValue::Select { select: c };
    assert_eq!(extract_state(&select(None)), Ok(None));
    assert_eq!(extract_state(&select(Some(choice(None)))), Ok(None));
    assert_eq!(extract_state(&select(Some(choice(Some("Tried"))))), Ok(Some(GameState::Tried)));
    assert_eq!(
        extract_state(&select(Some(choice(Some("Shelved"))))),
        Ok(Some(GameState::Other("Shelved".to_string())))
    );
    assert_eq!(
        extract_state(&text),
        Err(ExtractError::BadValue("Wrong type for State field".to_string()))
    );
    assert_eq!(extract_tags(&PropertyValue::MultiSelect { multi_select: None }), vec![]);
    assert_eq!(extract_tags(&text), vec![]);
    assert_eq!(
        extract_created_time(&PropertyValue::CreatedTime { created_time: Timestamp { secs: 3, nanos: 4 } }),
        Ok(Timestamp { secs: 3, nanos: 4 })
    );
    assert_eq!(
        extract_created_time(&text),
        Err(ExtractError::BadValue("Wrong type, expected datetime".to_string()))
    );
    let columns = vec![("a".to_string(), text), ("a".to_string(), title)];
    assert_eq!(find_column(&columns, "a"), Some(&columns[0].1));
    assert_eq!(find_column(&columns, "A"), None);
}

#[test]
fn values_become_columns() {
    assert_eq!(
        to_rich_text("plain"),
        RichText { plain_text: "plain".to_string(), content: "plain".to_string() }
    );
    assert_eq!(to_text("413150"), PropertyValue::Text { rich_text: vec![to_rich_text("413150")] });
    assert_eq!(to_title("Name"), PropertyValue::Title { title: vec![to_rich_text("Name")] });
    assert_eq!(
        to_select("Maybe", &Color::Brown),
        PropertyValue::Select {
            select: Some(SelectedValue { id: None, name: Some("Maybe".to_string()), color: Color::Brown }),
        }
    );
    for (state, label, color) in [
        (GameState::Completed, "Completed", Color::Purple),
        (GameState::InProgress, "In progress", Color::Yellow),
        (GameState::NoRelease, "No release", Color::Red),
        (GameState::PlayAgain, "Play again", Color::Purple),
        (GameState::PlaySoon, "Play soon", Color::Green),
        (GameState::Released, "Released", Color::Blue),
        (GameState::Tried, "Tried", Color::Gray),
        (GameState::Upcoming, "Upcoming", Color::Orange),
        (GameState::Other("Shelved".to_string()), "Shelved", Color::Default),
    ] {
        assert_eq!(to_state(&state), to_select(label, &color));
    }
    assert_eq!(
        game_details_columns("654321", "Paint Drying Tycoon 2"),
        vec![
            ("Steam ID".to_string(), to_text("654321")),
            ("Name".to_string(), to_title("Paint Drying Tycoon 2")),
        ]
    );
    assert_eq!(
        state_columns(&GameState::Released),
        vec![("State".to_string(), to_select("Released", &Color::Blue))]
    );
    let update = UpdatePage { properties: Properties { properties: state_columns(&GameState::Tried) } };
    assert_eq!(update.properties.properties.len(), 1);
}

#[test]
fn notes_repo_keeps_its_settings() {
    let repo = NotionGamesRepo::new("key", "database", "https://api.notion.com");
    assert_eq!(
        repo,
        NotionGamesRepo {
            database_id: "database".to_string(),
            api_key: "key".to_string(),
            api_host: "https://api.notion.com".to_string(),
        }
    );
}

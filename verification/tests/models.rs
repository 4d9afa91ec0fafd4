use rusteam::models::game::{GameId, GameState, InvalidGameId};
use rusteam::models::notion::GameState as SpelledState;
use rusteam::text::{
    char_of_digit, chars_of, digit_of, is_whitespace, parse_u32, read_digits,
    string_from, trim, u32_text,
};

#[test]
fn game_id_round_trips() {
    for n in [0u32, 1, 9, 10, 99, 100, 413150, 666666, 4294967294, u32::MAX] {
        let id = GameId { app_id: n };
        let text: String = id.into();
        assert_eq!(text, n.to_string());
        assert_eq!(GameId::try_from(text.as_str()), Ok(id));
        assert_eq!(id.to_text(), n.to_string());
    }
}

#[test]
fn game_id_from_numbers() {
    assert_eq!(GameId::from(7u32), GameId { app_id: 7 });
    let n: i64 = GameId { app_id: u32::MAX }.into();
    assert_eq!(n, 4294967295i64);
}

#[test]
fn game_id_reads_as_std_does() {
    for s in [
        "0", "007", "+5", "-5", "", "+", "-", " 5", "5 ", "4294967295", "4294967296",
        "99999999999999999999", "00000000000000000000001", "1a", "a", "1_000", "١٢٣", "+-1", "++1",
    ] {
        let expected = s.parse::<u32>().ok().map(|app_id| GameId { app_id });
        assert_eq!(GameId::try_from(s).ok(), expected, "{:?}", s);
        assert_eq!(parse_u32(s), s.parse::<u32>().ok(), "{:?}", s);
    }
}

#[test]
fn game_id_rejects_with_from_string() {
    assert_eq!(GameId::try_from("abc"), Err(InvalidGameId::FromString));
    assert_eq!(GameId::try_from("4294967296"), Err(InvalidGameId::FromString));
    assert_eq!(InvalidGameId::FromString.message(), "Could not convert string to u32");
}

#[test]
fn digits_and_decimal_text() {
    assert_eq!(digit_of('0'), Some(0));
    assert_eq!(digit_of('9'), Some(9));
    assert_eq!(digit_of('/'), None);
    assert_eq!(digit_of(':'), None);
    assert_eq!(digit_of('a'), None);
    for d in 0u8..10 {
        assert_eq!(digit_of(char_of_digit(d)), Some(d));
    }
    assert_eq!(u32_text(0), "0");
    assert_eq!(u32_text(1090), "1090");
    assert_eq!(u32_text(u32::MAX), "4294967295");
    let chars = chars_of("x123");
    assert_eq!(read_digits(&chars, 1, 123), Some(123));
    assert_eq!(read_digits(&chars, 1, 122), None);
    assert_eq!(read_digits(&chars, 0, 1000), None);
    assert_eq!(read_digits(&chars, 4, 1000), None);
    assert_eq!(string_from(&chars, 2), "23");
    assert_eq!(string_from(&chars, 4), "");
}

#[test]
fn whitespace_is_that_of_std() {
    for code in 0u32..0x3100 {
        if let Some(c) = char::from_u32(code) {
            assert_eq!(is_whitespace(c), c.is_whitespace(), "U+{:04X}", code);
        }
    }
    assert!(!is_whitespace('\u{feff}'));
    assert_eq!(trim(&chars_of(" \n a b \t")), chars_of("a b"));
    assert_eq!(trim(&chars_of("   ")), chars_of(""));
}

#[test]
fn game_state_is_released() {
    assert!(!GameState::NoRelease.is_released());
    assert!(!GameState::Upcoming.is_released());
    for state in [
        GameState::Completed,
        GameState::InProgress,
        GameState::PlayAgain,
        GameState::PlaySoon,
        GameState::Released,
        GameState::Tried,
        GameState::Other("Shelved".to_string()),
        GameState::Other("Upcoming".to_string()),
        GameState::Other(String::new()),
    ] {
        assert!(state.is_released(), "{:?}", state);
    }
}

#[test]
fn game_state_labels_round_trip() {
    let known = [
        (GameState::Completed, "Completed"),
        (GameState::InProgress, "In progress"),
        (GameState::NoRelease, "No release"),
        (GameState::PlayAgain, "Play again"),
        (GameState::PlaySoon, "Play soon"),
        (GameState::Released, "Released"),
        (GameState::Tried, "Tried"),
        (GameState::Upcoming, "Upcoming"),
    ];
    for (state, label) in known {
        assert_eq!(GameState::from(label.to_string()), state);
        assert_eq!(state.to_label(), label);
        let text: String = state.clone().into();
        assert_eq!(text, label);
        assert_eq!(state.clone(), state);
    }
    for label in ["", "completed", "In Progress", "Inprogress", "Backlog", " Tried"] {
        let state = GameState::from(label.to_string());
        assert_eq!(state, GameState::Other(label.to_string()));
        let text: String = state.into();
        assert_eq!(text, label);
    }
}

#[test]
fn spelled_state_round_trips() {
    let known = [
        (SpelledState::Completed, "Completed"),
        (SpelledState::InProgress, "InProgress"),
        (SpelledState::NoRelease, "NoRelease"),
        (SpelledState::PlayAgain, "PlayAgain"),
        (SpelledState::PlaySoon, "PlaySoon"),
        (SpelledState::Released, "Released"),
        (SpelledState::Tried, "Tried"),
        (SpelledState::Upcoming, "Upcoming"),
    ];
    for (state, spelling) in known {
        assert_eq!(SpelledState::from(spelling.to_string()), state);
        let text: String = state.into();
        assert_eq!(text, spelling);
    }
    let other = SpelledState::from("In progress".to_string());
    assert_eq!(other, SpelledState::Other("In progress".to_string()));
    let text: String = other.into();
    assert_eq!(text, "In progress");
}

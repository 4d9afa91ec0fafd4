//! Plain values written as the columns of a page.

use crate::models::game::GameState;
use crate::models::notion::{Color, PropertyValue, RichText, SelectedValue};
use vstd::prelude::*;

verus! {

/// The colour under which the notes show a state.
pub open spec fn color_of(state: GameState) -> Color {
    match state {
        GameState::Completed => Color::Purple,
        GameState::InProgress => Color::Yellow,
        GameState::NoRelease => Color::Red,
        GameState::PlayAgain => Color::Purple,
        GameState::PlaySoon => Color::Green,
        GameState::Released => Color::Blue,
        GameState::Tried => Color::Gray,
        GameState::Upcoming => Color::Orange,
        GameState::Other(_) => Color::Default,
    }
}

/// Whether `runs` is the one run that reads and holds `s`.
pub open spec fn one_run(runs: Seq<RichText>, s: Seq<char>) -> bool {
    runs.len() == 1 && runs[0].plain_text@ == s && runs[0].content@ == s
}

/// Whether `value` is a choice that is named `name`, has the colour `col`
/// and no identifier.
pub open spec fn is_choice(value: PropertyValue, name: Seq<char>, col: Color) -> bool {
    value matches PropertyValue::Select { select: Some(chosen) } && chosen.id is None
        && chosen.color == col && (chosen.name matches Some(n) && n@ == name)
}

/// A string without formatting as a run of text.
pub fn to_rich_text(s: &str) -> (r: RichText)
    ensures
        r.plain_text@ == s@,
        r.content@ == s@,
{
    RichText { plain_text: s.to_owned(), content: s.to_owned() }
}

/// A string as a column of text.
pub fn to_text(s: &str) -> (r: PropertyValue)
    ensures
        r matches PropertyValue::Text { rich_text } && one_run(rich_text@, s@),
{
    let mut runs: Vec<RichText> = Vec::new();
    runs.push(to_rich_text(s));
    PropertyValue::Text { rich_text: runs }
}

/// A string as the title of a page.
pub fn to_title(s: &str) -> (r: PropertyValue)
    ensures
        r matches PropertyValue::Title { title } && one_run(title@, s@),
{
    let mut runs: Vec<RichText> = Vec::new();
    runs.push(to_rich_text(s));
    PropertyValue::Title { title: runs }
}

/// A string as a choice. The colour has to be the one that the notes
/// provider knows the choice by.
pub fn to_select(s: &str, col: &Color) -> (r: PropertyValue)
    ensures
        is_choice(r, s@, *col),
{
    PropertyValue::Select {
        select: Some(SelectedValue { id: None, name: Some(s.to_owned()), color: *col }),
    }
}

/// A state as a choice, under its label and in its colour.
pub fn to_state(state: &GameState) -> (r: PropertyValue)
    ensures
        is_choice(r, state.label(), color_of(*state)),
{
    let col = match state {
        GameState::Completed => Color::Purple,
        GameState::InProgress => Color::Yellow,
        GameState::NoRelease => Color::Red,
        GameState::PlayAgain => Color::Purple,
        GameState::PlaySoon => Color::Green,
        GameState::Released => Color::Blue,
        GameState::Tried => Color::Gray,
        GameState::Upcoming => Color::Orange,
        GameState::Other(_) => Color::Default,
    };
    let label = state.to_label();
    to_select(label.as_str(), &col)
}

} // verus!

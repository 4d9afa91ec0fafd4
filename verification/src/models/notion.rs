//! The pages of the notes provider, and the note that is read off a page.

use crate::models::game::GameState as NotedState;
use crate::time::Timestamp;
use vstd::prelude::*;
use vstd::std_specs::convert::{FromSpecImpl, TryFromSpecImpl};

verus! {

/// Why a page is no note.
#[derive(Debug, PartialEq)]
pub enum ExtractError {
    /// A column holds a value of the wrong kind; the text says which.
    BadValue(String),
    /// The page lacks the column of this name.
    MissingColumn(String),
}

impl ExtractError {
    /// The message for this error.
    pub fn message(&self) -> (s: String)
        ensures
            s@ == match *self {
                ExtractError::BadValue(m) => "Bad value found in notion row: "@ + m@,
                ExtractError::MissingColumn(m) => "Missing column in notion row: "@ + m@,
            },
    {
        match self {
            ExtractError::BadValue(m) => {
                let mut s = "Bad value found in notion row: ".to_owned();
                s.append(m.as_str());
                s
            },
            ExtractError::MissingColumn(m) => {
                let mut s = "Missing column in notion row: ".to_owned();
                s.append(m.as_str());
                s
            },
        }
    }
}

/// A state as it is spelled in the names of a program: the words of a
/// label run together. A spelling that is none of the known ones is kept
/// as it came.
#[derive(Debug, PartialEq)]
pub enum GameState {
    Completed,
    InProgress,
    NoRelease,
    PlayAgain,
    PlaySoon,
    Released,
    Tried,
    Upcoming,
    Other(String),
}

impl GameState {
    /// The spelling of this state.
    pub open spec fn spelling(self) -> Seq<char> {
        match self {
            GameState::Completed => "Completed"@,
            GameState::InProgress => "InProgress"@,
            GameState::NoRelease => "NoRelease"@,
            GameState::PlayAgain => "PlayAgain"@,
            GameState::PlaySoon => "PlaySoon"@,
            GameState::Released => "Released"@,
            GameState::Tried => "Tried"@,
            GameState::Upcoming => "Upcoming"@,
            GameState::Other(s) => s@,
        }
    }

    /// The state that a spelling stands for.
    pub open spec fn of_spelling(s: String) -> GameState {
        if s@ == "Completed"@ {
            GameState::Completed
        } else if s@ == "InProgress"@ {
            GameState::InProgress
        } else if s@ == "NoRelease"@ {
            GameState::NoRelease
        } else if s@ == "PlayAgain"@ {
            GameState::PlayAgain
        } else if s@ == "PlaySoon"@ {
            GameState::PlaySoon
        } else if s@ == "Released"@ {
            GameState::Released
        } else if s@ == "Tried"@ {
            GameState::Tried
        } else if s@ == "Upcoming"@ {
            GameState::Upcoming
        } else {
            GameState::Other(s)
        }
    }
}

impl From<String> for GameState {
    fn from(s: String) -> (r: GameState) {
        let t = s.as_str();
        if *t == *"Completed" {
            GameState::Completed
        } else if *t == *"InProgress" {
            GameState::InProgress
        } else if *t == *"NoRelease" {
            GameState::NoRelease
        } else if *t == *"PlayAgain" {
            GameState::PlayAgain
        } else if *t == *"PlaySoon" {
            GameState::PlaySoon
        } else if *t == *"Released" {
            GameState::Released
        } else if *t == *"Tried" {
            GameState::Tried
        } else if *t == *"Upcoming" {
            GameState::Upcoming
        } else {
            GameState::Other(s)
        }
    }
}

impl FromSpecImpl<String> for GameState {
    open spec fn obeys_from_spec() -> bool {
        true
    }

    open spec fn from_spec(s: String) -> GameState {
        GameState::of_spelling(s)
    }
}

impl From<GameState> for String {
    fn from(state: GameState) -> (s: String)
        ensures
            s@ == state.spelling(),
    {
        match state {
            GameState::Completed => "Completed".to_owned(),
            GameState::InProgress => "InProgress".to_owned(),
            GameState::NoRelease => "NoRelease".to_owned(),
            GameState::PlayAgain => "PlayAgain".to_owned(),
            GameState::PlaySoon => "PlaySoon".to_owned(),
            GameState::Released => "Released".to_owned(),
            GameState::Tried => "Tried".to_owned(),
            GameState::Upcoming => "Upcoming".to_owned(),
            GameState::Other(s) => s,
        }
    }
}

impl FromSpecImpl<GameState> for String {
    open spec fn obeys_from_spec() -> bool {
        false
    }

    open spec fn from_spec(state: GameState) -> String {
        arbitrary()
    }
}

/// A tag of a note.
#[derive(Debug, PartialEq)]
pub struct GameTag(pub String);

/// The colour of a choice.
#[derive(Clone, Copy, Debug, PartialEq, Eq, Structural)]
pub enum Color {
    Default,
    Gray,
    Brown,
    Orange,
    Yellow,
    Green,
    Blue,
    Purple,
    Pink,
    Red,
}

/// A run of text: what it reads as, and what it holds.
#[derive(Debug, PartialEq)]
pub struct RichText {
    pub plain_text: String,
    pub content: String,
}

/// One choice out of those that a column offers.
#[derive(Debug, PartialEq)]
pub struct SelectedValue {
    pub id: Option<String>,
    pub name: Option<String>,
    pub color: Color,
}

/// A number of a page: a whole number that is not negative, or any other.
#[derive(Clone, Copy, Debug, PartialEq, Eq, Structural)]
pub enum NumberValue {
    Unsigned(u64),
    Other,
}

/// What a column of a page holds.
#[derive(Debug, PartialEq)]
pub enum PropertyValue {
    Text { rich_text: Vec<RichText> },
    Title { title: Vec<RichText> },
    Select { select: Option<SelectedValue> },
    MultiSelect { multi_select: Option<Vec<SelectedValue>> },
    Number { number: Option<NumberValue> },
    CreatedTime { created_time: Timestamp },
    Other,
}

/// The columns of a page, each under its name.
#[derive(Debug, PartialEq)]
pub struct Properties {
    pub properties: Vec<(String, PropertyValue)>,
}

/// A page of the notes provider.
#[derive(Debug, PartialEq)]
pub struct Page {
    pub id: String,
    pub properties: Properties,
}

/// The columns to write to a page.
#[derive(Debug, PartialEq)]
pub struct UpdatePage {
    pub properties: Properties,
}

/// What the notes provider holds of one game. It is only ever read: text
/// comes without its formatting, and not every column is there.
#[derive(Debug, PartialEq)]
pub struct GameNote {
    pub id: String,
    pub name: Option<String>,
    pub app_id: Option<String>,
    pub state: Option<NotedState>,
    pub tags: Vec<GameTag>,
    pub notes: Option<String>,
    pub rating: Option<u8>,
    pub created_time: Timestamp,
}

/// What the runs of a text read as, one after the other.
pub open spec fn plain_text_of(runs: Seq<RichText>) -> Seq<char>
    decreases runs.len(),
{
    if runs.len() == 0 {
        Seq::empty()
    } else {
        plain_text_of(runs.drop_last()) + runs.last().plain_text@
    }
}

/// The text of a column, where it holds text that is not empty.
pub open spec fn text_of(value: PropertyValue) -> Option<Seq<char>> {
    match value {
        PropertyValue::Text { rich_text } => if plain_text_of(rich_text@).len() > 0 {
            Some(plain_text_of(rich_text@))
        } else {
            None
        },
        _ => None,
    }
}

/// The title of a column, where it holds a title that is not empty.
pub open spec fn title_of(value: PropertyValue) -> Option<Seq<char>> {
    match value {
        PropertyValue::Title { title } => if plain_text_of(title@).len() > 0 {
            Some(plain_text_of(title@))
        } else {
            None
        },
        _ => None,
    }
}

/// The rating of a column, where it holds a whole number up to 255.
pub open spec fn rating_of(value: PropertyValue) -> Option<u8> {
    match value {
        PropertyValue::Number { number: Some(NumberValue::Unsigned(n)) } => if n <= u8::MAX {
            Some(n as u8)
        } else {
            None
        },
        _ => None,
    }
}

/// The state of a column that holds a choice: that of the choice's name,
/// or none where nothing is chosen or the choice has no name.
pub open spec fn state_of(value: PropertyValue) -> Option<Option<NotedState>> {
    match value {
        PropertyValue::Select { select } => Some(
            match select {
                Some(chosen) => match chosen.name {
                    Some(name) => Some(NotedState::of_label(name)),
                    None => None,
                },
                None => None,
            },
        ),
        _ => None,
    }
}

/// The names of the choices that have one, in order.
pub open spec fn names_of(choices: Seq<SelectedValue>) -> Seq<String> {
    choices.filter_map(|c: SelectedValue| c.name)
}

/// The tags of a column: the names of its choices, or none where it holds
/// no choices.
pub open spec fn tags_of(value: PropertyValue) -> Seq<String> {
    match value {
        PropertyValue::MultiSelect { multi_select: Some(choices) } => names_of(choices@),
        _ => Seq::empty(),
    }
}

/// The tags as plain strings.
pub open spec fn tag_names(tags: Seq<GameTag>) -> Seq<String> {
    tags.map_values(|t: GameTag| t.0)
}

/// Where the column `name` stands among `columns`; their number where it is
/// not there.
pub open spec fn column_position(columns: Seq<(String, PropertyValue)>, name: Seq<char>) -> int
    decreases columns.len(),
{
    if columns.len() == 0 {
        0
    } else if columns.first().0@ == name {
        0
    } else {
        1 + column_position(columns.drop_first(), name)
    }
}

/// The column `name` of a page, where it has one.
pub open spec fn column_of(columns: Seq<(String, PropertyValue)>, name: Seq<char>) -> Option<
    PropertyValue,
> {
    let p = column_position(columns, name);
    if p < columns.len() {
        Some(columns[p].1)
    } else {
        None
    }
}

/// What a column gives where it is there and `read` finds a value in it.
pub open spec fn read_column<T>(
    columns: Seq<(String, PropertyValue)>,
    name: Seq<char>,
    read: spec_fn(PropertyValue) -> Option<T>,
) -> Option<T> {
    match column_of(columns, name) {
        Some(value) => read(value),
        None => None,
    }
}

/// Whether `r` is what reading `page` as a note gives. A page is a note
/// where it has a column `State` that holds a choice and a column
/// `Created time` that holds an instant; the other columns are read where
/// they are there and hold what is looked for. Of the two columns that
/// must be there, `State` is looked at first.
pub open spec fn note_read(page: Page, r: Result<GameNote, ExtractError>) -> bool {
    let columns = page.properties.properties@;
    match column_of(columns, "State"@) {
        None => r matches Err(ExtractError::MissingColumn(m)) && m@ == "State"@,
        Some(state) => match state_of(state) {
            None => r matches Err(ExtractError::BadValue(m)) && m@ == "Wrong type for State field"@,
            Some(noted) => match column_of(columns, "Created time"@) {
                None => r matches Err(ExtractError::MissingColumn(m)) && m@ == "Created time"@,
                Some(PropertyValue::CreatedTime { created_time }) => {
                    &&& r matches Ok(note)
                    &&& note.id == page.id
                    &&& option_view(note.name) == read_column(
                        columns,
                        "Name"@,
                        |v: PropertyValue| title_of(v),
                    )
                    &&& option_view(note.app_id) == read_column(
                        columns,
                        "Steam ID"@,
                        |v: PropertyValue| text_of(v),
                    )
                    &&& note.state == noted
                    &&& tag_names(note.tags@) == match column_of(columns, "Tags"@) {
                        Some(v) => tags_of(v),
                        None => Seq::empty(),
                    }
                    &&& option_view(note.notes) == read_column(
                        columns,
                        "Notes"@,
                        |v: PropertyValue| text_of(v),
                    )
                    &&& note.rating == read_column(
                        columns,
                        "Rating"@,
                        |v: PropertyValue| rating_of(v),
                    )
                    &&& note.created_time == created_time
                },
                Some(_) => r matches Err(ExtractError::BadValue(m)) && m@
                    == "Wrong type, expected datetime"@,
            },
        },
    }
}

/// The characters of an optional string.
pub open spec fn option_view(text: Option<String>) -> Option<Seq<char>> {
    match text {
        Some(s) => Some(s@),
        None => None,
    }
}

/// What the runs of a text read as, or nothing where that is empty.
pub fn accumulate_plaintext(value: &Vec<RichText>) -> (r: Option<String>)
    ensures
        r is Some <==> plain_text_of(value@).len() > 0,
        r matches Some(s) ==> s@ == plain_text_of(value@),
{
    let mut acc = String::new();
    let mut i: usize = 0;
    while i < value.len()
        invariant
            i <= value.len(),
            acc@ == plain_text_of(value@.take(i as int)),
        decreases value.len() - i,
    {
        proof {
            assert(value@.take(i + 1).drop_last() =~= value@.take(i as int));
        }
        acc.append(value[i].plain_text.as_str());
        i += 1;
    }
    assert(value@.take(i as int) =~= value@);
    if acc.as_str().unicode_len() == 0 {
        None
    } else {
        Some(acc)
    }
}

/// The text of a column.
pub fn extract_text(value: &PropertyValue) -> (r: Option<String>)
    ensures
        option_view(r) == text_of(*value),
{
    match value {
        PropertyValue::Text { rich_text } => accumulate_plaintext(rich_text),
        _ => None,
    }
}

/// The title of a column.
pub fn extract_title(value: &PropertyValue) -> (r: Option<String>)
    ensures
        option_view(r) == title_of(*value),
{
    match value {
        PropertyValue::Title { title } => accumulate_plaintext(title),
        _ => None,
    }
}

/// The rating of a column.
pub fn extract_rating(value: &PropertyValue) -> (r: Option<u8>)
    ensures
        r == rating_of(*value),
{
    match value {
        PropertyValue::Number { number: Some(NumberValue::Unsigned(n)) } => {
            if *n <= 255 {
                Some(*n as u8)
            } else {
                None
            }
        },
        _ => None,
    }
}

/// The state of a column; an error where the column holds no choice.
pub fn extract_state(value: &PropertyValue) -> (r: Result<Option<NotedState>, ExtractError>)
    ensures
        r matches Ok(state) ==> state_of(*value) == Some(state),
        r matches Err(e) ==> state_of(*value) is None && (e matches ExtractError::BadValue(m) && m@
            == "Wrong type for State field"@),
{
    match value {
        PropertyValue::Select { select } => {
            match select {
                Some(chosen) => match &chosen.name {
                    Some(name) => Ok(Some(NotedState::from(name.clone()))),
                    None => Ok(None),
                },
                None => Ok(None),
            }
        },
        _ => Err(ExtractError::BadValue("Wrong type for State field".to_owned())),
    }
}

/// The tags of a column.
pub fn extract_tags(value: &PropertyValue) -> (r: Vec<GameTag>)
    ensures
        tag_names(r@) == tags_of(*value),
{
    let mut out: Vec<GameTag> = Vec::new();
    match value {
        PropertyValue::MultiSelect { multi_select: Some(choices) } => {
            let mut i: usize = 0;
            while i < choices.len()
                invariant
                    i <= choices.len(),
                    tag_names(out@) == names_of(choices@.take(i as int)),
                decreases choices.len() - i,
            {
                proof {
                    crate::db::table::lemma_filter_map_step(
                        choices@,
                        i as int,
                        |c: SelectedValue| c.name,
                    );
                }
                let ghost before = out@;
                match &choices[i].name {
                    Some(name) => {
                        out.push(GameTag(name.clone()));
                        assert(tag_names(out@) =~= tag_names(before).push(*name));
                    },
                    None => {},
                }
                i += 1;
            }
            assert(choices@.take(i as int) =~= choices@);
        },
        _ => {
            assert(tag_names(out@) =~= Seq::<String>::empty());
        },
    }
    out
}

/// The instant of a column; an error where the column holds none.
pub fn extract_created_time(value: &PropertyValue) -> (r: Result<Timestamp, ExtractError>)
    ensures
        r matches Ok(t) ==> *value == (PropertyValue::CreatedTime { created_time: t }),
        r matches Err(e) ==> !(*value is CreatedTime) && (e matches ExtractError::BadValue(m) && m@
            == "Wrong type, expected datetime"@),
{
    match value {
        PropertyValue::CreatedTime { created_time } => Ok(*created_time),
        _ => Err(ExtractError::BadValue("Wrong type, expected datetime".to_owned())),
    }
}

/// Looks for the column `name`.
pub fn find_column<'a>(columns: &'a Vec<(String, PropertyValue)>, name: &str) -> (r: Option<
    &'a PropertyValue,
>)
    ensures
        match r {
            Some(v) => column_of(columns@, name@) == Some(*v),
            None => column_of(columns@, name@) is None,
        },
{
    let mut i: usize = 0;
    assert(columns@.skip(0) =~= columns@);
    while i < columns.len()
        invariant
            i <= columns.len(),
            column_position(columns@, name@) == i + column_position(
                columns@.skip(i as int),
                name@,
            ),
        decreases columns.len() - i,
    {
        proof {
            assert(columns@.skip(i as int).drop_first() =~= columns@.skip(i + 1));
        }
        if *columns[i].0.as_str() == *name {
            return Some(&columns[i].1);
        }
        i += 1;
    }
    None
}

impl TryFrom<Page> for GameNote {
    type Error = ExtractError;

    /// Reads a page as a note.
    fn try_from(page: Page) -> (r: Result<GameNote, ExtractError>)
        ensures
            note_read(page, r),
    {
        GameNote::from_page(&page)
    }
}

impl GameNote {
    /// Reads a page as a note.
    pub fn from_page(page: &Page) -> (r: Result<GameNote, ExtractError>)
        ensures
            note_read(*page, r),
    {
        let columns = &page.properties.properties;
        let state = match find_column(columns, "State") {
            None => {
                return Err(ExtractError::MissingColumn("State".to_owned()));
            },
            Some(v) => match extract_state(v) {
                Ok(state) => state,
                Err(e) => {
                    return Err(e);
                },
            },
        };
        let created_time = match find_column(columns, "Created time") {
            None => {
                return Err(ExtractError::MissingColumn("Created time".to_owned()));
            },
            Some(v) => match extract_created_time(v) {
                Ok(t) => t,
                Err(e) => {
                    return Err(e);
                },
            },
        };
        let name = match find_column(columns, "Name") {
            Some(v) => extract_title(v),
            None => None,
        };
        let app_id = match find_column(columns, "Steam ID") {
            Some(v) => extract_text(v),
            None => None,
        };
        let tags = match find_column(columns, "Tags") {
            Some(v) => extract_tags(v),
            None => {
                let none: Vec<GameTag> = Vec::new();
                assert(tag_names(none@) =~= Seq::<String>::empty());
                none
            },
        };
        let notes = match find_column(columns, "Notes") {
            Some(v) => extract_text(v),
            None => None,
        };
        let rating = match find_column(columns, "Rating") {
            Some(v) => extract_rating(v),
            None => None,
        };
        Ok(GameNote { id: page.id.clone(), name, app_id, state, tags, notes, rating, created_time })
    }
}

impl TryFromSpecImpl<Page> for GameNote {
    open spec fn obeys_try_from_spec() -> bool {
        false
    }

    open spec fn try_from_spec(page: Page) -> Result<GameNote, ExtractError> {
        arbitrary()
    }
}

} // verus!

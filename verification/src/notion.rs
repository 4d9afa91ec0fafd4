//! What the notes provider is asked for, and what is written back to it.

pub mod conv;

use crate::models::game::GameState;
use crate::models::notion::{note_read, ExtractError, GameNote, Page, PropertyValue};
use crate::notion::conv::{color_of, is_choice, one_run, to_state, to_text, to_title};
use vstd::prelude::*;

verus! {

/// Why the notes provider gave no answer that could be used. Each case
/// holds the message of what went wrong.
#[derive(Debug, PartialEq)]
pub enum NotionError {
    /// The notes provider refused the request.
    Api(String),
    /// The request failed.
    Http(String),
    /// A request could not be written.
    Fmt(String),
}

/// The notes provider.
pub trait NotionHandling {
    /// Every note that can be read.
    fn get_notes(&self) -> Result<Vec<GameNote>, NotionError>;

    /// Writes the identifier and the name of a game to a note.
    fn set_game_details(&self, note_id: &str, app_id: &str, name: &str) -> Result<(), NotionError>;

    /// Writes the state of a game to a note.
    fn set_state(&self, note_id: &str, state: &GameState) -> Result<(), NotionError>;
}

/// Where the notes are kept, and the key to ask with.
#[derive(Debug, PartialEq)]
pub struct NotionGamesRepo {
    pub database_id: String,
    pub api_key: String,
    pub api_host: String,
}

impl NotionGamesRepo {
    /// The notes in the given database, asked for with the given key at the
    /// given host.
    pub fn new(api_key: &str, database_id: &str, api_host: &str) -> (repo: NotionGamesRepo)
        ensures
            repo.api_key@ == api_key@,
            repo.database_id@ == database_id@,
            repo.api_host@ == api_host@,
    {
        NotionGamesRepo {
            database_id: database_id.to_owned(),
            api_key: api_key.to_owned(),
            api_host: api_host.to_owned(),
        }
    }
}

/// Whether `notes` is what reading `pages` gives: the notes of the pages
/// that are notes, in order; the other pages are passed over.
pub open spec fn notes_read(pages: Seq<Page>, notes: Seq<GameNote>) -> bool
    decreases pages.len(),
{
    if pages.len() == 0 {
        notes.len() == 0
    } else {
        ||| (note_read(pages.last(), Ok(notes.last())) && notes.len() > 0 && notes_read(
            pages.drop_last(),
            notes.drop_last(),
        ))
        ||| (exists|e: ExtractError| note_read(pages.last(), Err(e))) && notes_read(
            pages.drop_last(),
            notes,
        )
    }
}

/// The notes that a list of pages holds. A page that is no note is passed
/// over.
pub fn notes_from_pages(pages: &Vec<Page>) -> (notes: Vec<GameNote>)
    ensures
        notes_read(pages@, notes@),
{
    let mut out: Vec<GameNote> = Vec::new();
    let mut i: usize = 0;
    while i < pages.len()
        invariant
            i <= pages.len(),
            notes_read(pages@.take(i as int), out@),
        decreases pages.len() - i,
    {
        let ghost before = out@;
        proof {
            assert(pages@.take(i + 1).drop_last() =~= pages@.take(i as int));
            assert(pages@.take(i + 1).last() == pages@[i as int]);
        }
        match GameNote::from_page(&pages[i]) {
            Ok(note) => {
                out.push(note);
                assert(out@.drop_last() =~= before);
            },
            Err(e) => {
                assert(note_read(pages@[i as int], Err(e)));
            },
        }
        i += 1;
    }
    assert(pages@.take(i as int) =~= pages@);
    out
}

/// The columns that are written to a note when the game of the note has
/// been found: its identifier under `Steam ID` and its name under `Name`.
pub fn game_details_columns(app_id: &str, name: &str) -> (columns: Vec<(String, PropertyValue)>)
    ensures
        columns@.len() == 2,
        columns@[0].0@ == "Steam ID"@,
        columns@[0].1 matches PropertyValue::Text { rich_text } && one_run(rich_text@, app_id@),
        columns@[1].0@ == "Name"@,
        columns@[1].1 matches PropertyValue::Title { title } && one_run(title@, name@),
{
    let mut columns: Vec<(String, PropertyValue)> = Vec::new();
    columns.push(("Steam ID".to_owned(), to_text(app_id)));
    columns.push(("Name".to_owned(), to_title(name)));
    columns
}

/// The column that is written to a note when the state of its game has
/// changed: the state under `State`.
pub fn state_columns(state: &GameState) -> (columns: Vec<(String, PropertyValue)>)
    ensures
        columns@.len() == 1,
        columns@[0].0@ == "State"@,
        is_choice(columns@[0].1, state.label(), color_of(*state)),
{
    let mut columns: Vec<(String, PropertyValue)> = Vec::new();
    columns.push(("State".to_owned(), to_state(state)));
    columns
}

} // verus!

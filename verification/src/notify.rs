//! What there is to tell after a pass, as lines of text.

use crate::db::rules::CatalogEntry;
use crate::db::sync::SyncEvent;
use crate::db::table::{find, lemma_position, position};
use crate::models::game::GameId;
use vstd::prelude::*;

verus! {

/// Something to tell.
#[derive(Debug, PartialEq)]
pub enum Notification {
    /// The release date of a game is written differently than before.
    ReleaseDateUpdated { game: GameId, prev: String, updated: String },
    /// A game is out.
    Released { game: String },
}

impl Notification {
    /// The line that tells this.
    pub open spec fn line(self) -> Seq<char> {
        match self {
            Notification::ReleaseDateUpdated { game, prev, updated } => {
                "🔎 Release date changed for "@ + game.text() + ": \""@ + prev@ + "\" -> \""@
                    + updated@ + "\""@
            },
            Notification::Released { game } => "🚀 "@ + game@ + " is newly released!"@,
        }
    }

    /// The line that tells this.
    pub fn to_line(&self) -> (s: String)
        ensures
            s@ == self.line(),
    {
        match self {
            Notification::ReleaseDateUpdated { game, prev, updated } => {
                let mut s = "🔎 Release date changed for ".to_owned();
                let id = game.to_text();
                s.append(id.as_str());
                s.append(": \"");
                s.append(prev.as_str());
                s.append("\" -> \"");
                s.append(updated.as_str());
                s.append("\"");
                s
            },
            Notification::Released { game } => {
                let mut s = "🚀 ".to_owned();
                s.append(game.as_str());
                s.append(" is newly released!");
                s
            },
        }
    }
}

/// Collects what there is to tell, and tells it.
pub trait NotificationHandling {
    /// What has been collected, in the order it came.
    spec fn queue(&self) -> Seq<Notification>;

    /// Takes one thing more to tell.
    fn enqueue(&mut self, n: Notification)
        ensures
            final(self).queue() == old(self).queue().push(n),
    ;

    /// The lines that tell what has been collected, one for each, in
    /// order.
    fn run(&self) -> (lines: Vec<String>)
        ensures
            lines@.len() == self.queue().len(),
            forall|i: int| 0 <= i < lines@.len() ==> (#[trigger] lines@[i])@ == self.queue()[i].line(),
    ;
}

/// Tells by lines of text.
pub struct PrintNotifier {
    pub notifications: Vec<Notification>,
}

impl PrintNotifier {
    /// A notifier with nothing to tell yet.
    pub fn new() -> (notifier: PrintNotifier)
        ensures
            notifier.notifications@.len() == 0,
    {
        PrintNotifier { notifications: Vec::new() }
    }
}

impl NotificationHandling for PrintNotifier {
    open spec fn queue(&self) -> Seq<Notification> {
        self.notifications@
    }

    fn enqueue(&mut self, n: Notification) {
        self.notifications.push(n);
    }

    fn run(&self) -> (lines: Vec<String>) {
        let mut lines: Vec<String> = Vec::new();
        let mut i: usize = 0;
        while i < self.notifications.len()
            invariant
                i <= self.notifications.len(),
                lines@.len() == i,
                forall|k: int|
                    0 <= k < i ==> (#[trigger] lines@[k])@ == self.notifications@[k].line(),
            decreases self.notifications.len() - i,
        {
            lines.push(self.notifications[i].to_line());
            i += 1;
        }
        lines
    }
}

/// The game that an event is about.
pub open spec fn game_of(event: SyncEvent) -> GameId {
    match event {
        SyncEvent::ReleaseDateUpdated { game, .. } => game,
        SyncEvent::Released { game } => game,
    }
}

/// What a game is called in a report: its name, where `names` has an entry
/// of it, else its identifier.
pub open spec fn called(names: Seq<CatalogEntry>, game: GameId) -> Seq<char> {
    let p = position(names, game);
    if p < names.len() {
        names[p].name@
    } else {
        game.text()
    }
}

/// The line of a report that tells an event.
pub open spec fn event_line(event: SyncEvent, names: Seq<CatalogEntry>) -> Seq<char> {
    match event {
        SyncEvent::ReleaseDateUpdated { game, prev_text, new_text, .. } => {
            "🔎 Release date changed for "@ + called(names, game) + ": \""@ + prev_text@
                + "\" -> \""@ + new_text@ + "\""@
        },
        SyncEvent::Released { game } => "🚀 "@ + called(names, game)
            + " is newly released!"@,
    }
}

/// The games that the events are about, one for each event.
pub fn reported_games(events: &Vec<SyncEvent>) -> (games: Vec<GameId>)
    ensures
        games@ == events@.map_values(|e: SyncEvent| game_of(e)),
{
    let mut out: Vec<GameId> = Vec::new();
    let mut i: usize = 0;
    while i < events.len()
        invariant
            i <= events.len(),
            out@ == events@.take(i as int).map_values(|e: SyncEvent| game_of(e)),
        decreases events.len() - i,
    {
        let game = match &events[i] {
            SyncEvent::ReleaseDateUpdated { game, .. } => *game,
            SyncEvent::Released { game } => *game,
        };
        out.push(game);
        i += 1;
        assert(out@ =~= events@.take(i as int).map_values(|e: SyncEvent| game_of(e)));
    }
    assert(events@.take(i as int) =~= events@);
    out
}

/// What a game is called in a report.
pub fn name_in_report(names: &Vec<CatalogEntry>, game: GameId) -> (s: String)
    ensures
        s@ == called(names@, game),
{
    proof {
        lemma_position(names@, game);
    }
    match find(names, game) {
        Some(i) => names[i].name.clone(),
        None => game.to_text(),
    }
}

/// The lines of a report: one for each event, in order, with each game
/// under its name where `names` has one.
pub fn report_lines(events: &Vec<SyncEvent>, names: &Vec<CatalogEntry>) -> (lines: Vec<String>)
    ensures
        lines@.len() == events@.len(),
        forall|i: int|
            0 <= i < lines@.len() ==> (#[trigger] lines@[i])@ == event_line(events@[i], names@),
{
    let mut lines: Vec<String> = Vec::new();
    let mut i: usize = 0;
    while i < events.len()
        invariant
            i <= events.len(),
            lines@.len() == i,
            forall|k: int| 0 <= k < i ==> (#[trigger] lines@[k])@ == event_line(events@[k], names@),
        decreases events.len() - i,
    {
        let line = match &events[i] {
            SyncEvent::ReleaseDateUpdated { game, prev_text, new_text, .. } => {
                let mut s = "🔎 Release date changed for ".to_owned();
                let name = name_in_report(names, *game);
                s.append(name.as_str());
                s.append(": \"");
                s.append(prev_text.as_str());
                s.append("\" -> \"");
                s.append(new_text.as_str());
                s.append("\"");
                s
            },
            SyncEvent::Released { game } => {
                let mut s = "🚀 ".to_owned();
                let name = name_in_report(names, *game);
                s.append(name.as_str());
                s.append(" is newly released!");
                s
            },
        };
        lines.push(line);
        i += 1;
    }
    lines
}

} // verus!

//! The commands, as far as they decide anything.

use crate::db::repo::{IgnoredGamesHandling, Repo};
use crate::db::rules::ignored_with_all;
use crate::models::game::{GameId, InvalidGameId};
use crate::text::{parse_u32, u32_reading};
use vstd::prelude::*;

verus! {

/// The command that marks games as ignored.
#[derive(Debug, PartialEq)]
pub struct RunIgnoreGame {
    /// Where the settings are read from, if not from the usual place.
    pub config_file: Option<String>,
    /// The games to ignore, as they were typed.
    pub games: Vec<String>,
}

/// The command that runs both passes.
#[derive(Debug, PartialEq)]
pub struct RunSync {
    /// Where the settings are read from, if not from the usual place.
    pub config_file: Option<String>,
}

/// Whether every text is an identifier.
pub open spec fn all_ids(texts: Seq<String>) -> bool {
    forall|i: int| 0 <= i < texts.len() ==> u32_reading((#[trigger] texts[i])@) is Some
}

/// The identifiers that the texts write.
pub open spec fn ids_of(texts: Seq<String>) -> Seq<GameId> {
    texts.map_values(|t: String| GameId { app_id: u32_reading(t@)->0 })
}

impl RunIgnoreGame {
    /// The games to ignore. There are none to be had where one of the
    /// texts is no identifier.
    pub fn game_ids(&self) -> (r: Result<Vec<GameId>, InvalidGameId>)
        ensures
            r is Ok <==> all_ids(self.games@),
            r matches Ok(ids) ==> ids@ == ids_of(self.games@),
    {
        let mut out: Vec<GameId> = Vec::new();
        let mut i: usize = 0;
        while i < self.games.len()
            invariant
                i <= self.games.len(),
                all_ids(self.games@.take(i as int)),
                out@ == ids_of(self.games@.take(i as int)),
            decreases self.games.len() - i,
        {
            match parse_u32(self.games[i].as_str()) {
                Some(n) => {
                    out.push(GameId { app_id: n });
                },
                None => {
                    return Err(InvalidGameId::FromString);
                },
            }
            i += 1;
            proof {
                assert(out@ =~= ids_of(self.games@.take(i as int)));
                assert forall|k: int| 0 <= k < i implies u32_reading(
                    (#[trigger] self.games@.take(i as int)[k])@,
                ) is Some by {
                    if k < i - 1 {
                        assert(self.games@.take(i - 1)[k] == self.games@.take(i as int)[k]);
                    }
                }
            }
        }
        assert(self.games@.take(i as int) =~= self.games@);
        Ok(out)
    }

    /// Marks the games as ignored in the store. Nothing is marked where one
    /// of the texts is no identifier.
    pub fn run(&self, repo: &mut Repo) -> (r: Result<usize, InvalidGameId>)
        requires
            old(repo).wf(),
        ensures
            final(repo).wf(),
            r is Ok <==> all_ids(self.games@),
            r matches Ok(n) ==> n == self.games@.len() && final(repo).ignored_games@
                == ignored_with_all(old(repo).ignored_games@, ids_of(self.games@)),
            r is Err ==> final(repo).ignored_games == old(repo).ignored_games,
            *final(repo) == (Repo { ignored_games: final(repo).ignored_games, ..*old(repo) }),
    {
        match self.game_ids() {
            Ok(ids) => {
                repo.insert_ignored_games(&ids);
                Ok(ids.len())
            },
            Err(e) => Err(e),
        }
    }
}

} // verus!

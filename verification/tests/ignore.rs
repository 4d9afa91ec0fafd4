use rusteam::cli::{RunIgnoreGame, RunSync};
use rusteam::db::repo::{IgnoredGamesHandling, Repo};
use rusteam::models::game::{GameId, InvalidGameId};
use std::collections::HashSet;

fn get_ignored_games(repo: &Repo) -> HashSet<u32> {
    repo.ignored_games.iter().map(|id| id.app_id).collect()
}

#[test]
fn test_ignore_game() {
    let cmd = RunIgnoreGame {
        config_file: Some("test/test-config.toml".to_string()),
        games: vec!["123".to_string(), "456".to_string()],
    };
    let mut repo = Repo::new();

    assert_eq!(cmd.run(&mut repo), Ok(2));

    let actual: HashSet<u32> = get_ignored_games(&repo);
    let expected: HashSet<u32> = vec![123, 456].into_iter().collect();

    assert_eq!(actual, expected);
}

#[test]
fn ignore_game_twice_keeps_one() {
    let cmd = RunIgnoreGame { config_file: None, games: vec!["7".to_string(), "007".to_string()] };
    let mut repo = Repo::new();
    assert_eq!(cmd.run(&mut repo), Ok(2));
    assert_eq!(cmd.run(&mut repo), Ok(2));
    assert_eq!(repo.ignored_games, vec![GameId { app_id: 7 }]);
    repo.insert_ignored_games(&vec![GameId { app_id: 8 }, GameId { app_id: 7 }]);
    assert_eq!(repo.ignored_games, vec![GameId { app_id: 7 }, GameId { app_id: 8 }]);
}

#[test]
fn ignore_game_refuses_bad_ids() {
    let cmd = RunIgnoreGame { config_file: None, games: vec!["7".to_string(), "x".to_string()] };
    let mut repo = Repo::new();
    assert_eq!(cmd.game_ids(), Err(InvalidGameId::FromString));
    assert_eq!(cmd.run(&mut repo), Err(InvalidGameId::FromString));
    assert!(repo.ignored_games.is_empty());
    let none = RunIgnoreGame { config_file: None, games: vec![] };
    assert_eq!(none.game_ids(), Ok(vec![]));
    assert_eq!(RunSync { config_file: None }, RunSync { config_file: None });
}

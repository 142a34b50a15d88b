use rock_paper_scissors::commit::HashIngredient;
use rock_paper_scissors::common::GameError;
use rock_paper_scissors::shape::Shape;
use rock_paper_scissors::RockPaperScissors;

#[test]
fn game_exist() {
    let mut contract = RockPaperScissors::new();
    let game_num = contract.new_game();

    let game = contract.find_game(&game_num);
    assert!(game.is_some());
    assert!(game.unwrap().players.is_empty());
}

#[test]
fn player_exist() {
    let mut contract = RockPaperScissors::new();
    let game_num = contract.new_game();
    let account = "alice".to_string();
    let factor = "d".to_string();
    let ingredient =
        HashIngredient { game_num, account: account.clone(), shape: Shape::Rock, factor };

    let commit = ingredient.hash();
    assert!(contract.commit(game_num, account.clone(), commit.clone()).is_ok());

    let player = contract.find_player(&game_num, &account);
    assert!(player.is_some());

    let player = player.unwrap();
    assert!(player.account == account);
    assert!(player.commit == commit);
    assert!(player.reveal.is_none());
}

#[test]
fn game_not_exist() {
    let mut contract = RockPaperScissors::new();

    let ingredient = HashIngredient {
        game_num: 0,
        account: "alice".to_string(),
        shape: Shape::Rock,
        factor: "alice".to_string(),
    };

    assert_eq!(
        contract.commit(0, "alice".to_string(), ingredient.hash().clone()),
        Err(GameError::GameNotExist)
    );
}

fn normal_play(shape_of_account0: Shape, shape_of_account1: Shape, expected_winner: Option<&str>) {
    let mut contract = RockPaperScissors::new();
    let game_num = contract.new_game();

    let ingredient = HashIngredient {
        game_num,
        account: "alice".to_string(),
        shape: shape_of_account0,
        factor: "alice".to_string(),
    };
    assert!(contract.commit(game_num, "alice".to_string(), ingredient.hash().clone()).is_ok());

    let ingredient = HashIngredient {
        game_num,
        account: "bob".to_string(),
        shape: shape_of_account1,
        factor: "bob".to_string(),
    };
    assert!(contract.commit(game_num, "bob".to_string(), ingredient.hash()).is_ok());

    assert!(contract
        .reveal_shape(
            game_num,
            "alice".to_string(),
            shape_of_account0.canonical_name().to_string(),
            "alice".to_string(),
        )
        .is_ok());

    assert!(contract
        .reveal_shape(
            game_num,
            "bob".to_string(),
            shape_of_account1.canonical_name().to_string(),
            "bob".to_string(),
        )
        .is_ok());

    let winner = contract.get_result(game_num).unwrap();
    if let Some(winner_id) = expected_winner {
        assert_eq!(winner.unwrap(), winner_id.to_string());
    } else {
        assert!(winner.is_none());
    }
}

#[test]
fn normal() {
    normal_play(Shape::Paper, Shape::Rock, Some("alice"));
    normal_play(Shape::Rock, Shape::Paper, Some("bob"));

    normal_play(Shape::Rock, Shape::Scissors, Some("alice"));
    normal_play(Shape::Scissors, Shape::Rock, Some("bob"));

    normal_play(Shape::Scissors, Shape::Paper, Some("alice"));
    normal_play(Shape::Paper, Shape::Scissors, Some("bob"));

    normal_play(Shape::Paper, Shape::Paper, None);
    normal_play(Shape::Rock, Shape::Rock, None);
    normal_play(Shape::Scissors, Shape::Scissors, None);
}

#[test]
fn enough_players() {
    let mut contract = RockPaperScissors::new();
    let game_num = contract.new_game();

    let ingredient = HashIngredient {
        game_num,
        account: "alice".to_string(),
        shape: Shape::Rock,
        factor: "alice".to_string(),
    };
    assert!(contract.commit(game_num, "alice".to_string(), ingredient.hash().clone()).is_ok());

    let ingredient = HashIngredient {
        game_num,
        account: "bob".to_string(),
        shape: Shape::Scissors,
        factor: "bob".to_string(),
    };
    assert!(contract.commit(game_num, "bob".to_string(), ingredient.hash()).is_ok());

    let ingredient = HashIngredient {
        game_num,
        account: "charlie".to_string(),
        shape: Shape::Paper,
        factor: "charlie".to_string(),
    };
    assert_eq!(
        contract.commit(game_num, "charlie".to_string(), ingredient.hash()),
        Err(GameError::EnoughPlayers)
    );

    // The failed commit left the game as it was: two players, and no
    // entry for the third account.
    assert_eq!(contract.find_game(&game_num).unwrap().players.len(), 2);
    assert!(contract.find_player(&game_num, &"charlie".to_string()).is_none());
}

#[test]
fn not_time_to_reveal() {
    let mut contract = RockPaperScissors::new();
    let game_num = contract.new_game();

    let ingredient = HashIngredient {
        game_num,
        account: "alice".to_string(),
        shape: Shape::Rock,
        factor: "alice".to_string(),
    };
    assert!(contract.commit(game_num, "alice".to_string(), ingredient.hash().clone()).is_ok());

    assert_eq!(
        contract.reveal_shape(
            game_num,
            "alice".to_string(),
            Shape::Rock.canonical_name().to_string(),
            "alice".to_string(),
        ),
        Err(GameError::NotTimeToReveal)
    );
}

#[test]
fn player_not_match() {
    let mut contract = RockPaperScissors::new();
    let game_num = contract.new_game();

    let ingredient = HashIngredient {
        game_num,
        account: "alice".to_string(),
        shape: Shape::Rock,
        factor: "alice".to_string(),
    };
    assert!(contract.commit(game_num, "alice".to_string(), ingredient.hash().clone()).is_ok());

    let ingredient = HashIngredient {
        game_num,
        account: "bob".to_string(),
        shape: Shape::Scissors,
        factor: "bob".to_string(),
    };
    assert!(contract.commit(game_num, "bob".to_string(), ingredient.hash()).is_ok());

    assert_eq!(
        contract.reveal_shape(
            game_num,
            "charlie".to_string(),
            Shape::Rock.canonical_name().to_string(),
            "alice".to_string(),
        ),
        Err(GameError::PlayersNotMatch)
    );
}

#[test]
fn reveal_not_match() {
    let mut contract = RockPaperScissors::new();
    let game_num = contract.new_game();

    let ingredient = HashIngredient {
        game_num,
        account: "alice".to_string(),
        shape: Shape::Rock,
        factor: "alice".to_string(),
    };
    assert!(contract.commit(game_num, "alice".to_string(), ingredient.hash().clone()).is_ok());

    let ingredient = HashIngredient {
        game_num,
        account: "bob".to_string(),
        shape: Shape::Scissors,
        factor: "bob".to_string(),
    };
    assert!(contract.commit(game_num, "bob".to_string(), ingredient.hash()).is_ok());

    assert_eq!(
        contract.reveal_shape(
            game_num,
            "alice".to_string(),
            Shape::Rock.canonical_name().to_string(),
            "wrong".to_string(),
        ),
        Err(GameError::RevealNotMatch)
    );

    // The failed reveal left the player's reveal slot empty.
    let player = contract.find_player(&game_num, &"alice".to_string()).unwrap();
    assert!(player.reveal.is_none());
}

use rock_paper_scissors::common::GameError;
use rock_paper_scissors::shape::Shape;

#[test]
fn result() {
    assert_eq!(Shape::get_result(&vec![Shape::Rock, Shape::Rock]), None);
    assert_eq!(Shape::get_result(&vec![Shape::Paper, Shape::Paper]), None);
    assert_eq!(Shape::get_result(&vec![Shape::Scissors, Shape::Scissors]), None);

    assert_eq!(Shape::get_result(&vec![Shape::Rock, Shape::Paper]), Some(1));
    assert_eq!(Shape::get_result(&vec![Shape::Paper, Shape::Rock]), Some(0));

    assert_eq!(Shape::get_result(&vec![Shape::Paper, Shape::Scissors]), Some(1));
    assert_eq!(Shape::get_result(&vec![Shape::Scissors, Shape::Paper]), Some(0));

    assert_eq!(Shape::get_result(&vec![Shape::Scissors, Shape::Rock]), Some(1));
    assert_eq!(Shape::get_result(&vec![Shape::Rock, Shape::Scissors]), Some(0));
}

#[test]
fn names_round_trip() {
    for shape in [Shape::Rock, Shape::Paper, Shape::Scissors] {
        let name = shape.canonical_name();
        assert_eq!(Shape::from_name(&name.to_string()), Ok(shape));
    }
    assert_eq!(Shape::canonical_name(&Shape::Rock), "Rock");
    assert_eq!(Shape::canonical_name(&Shape::Paper), "Paper");
    assert_eq!(Shape::canonical_name(&Shape::Scissors), "Scissors");
}

#[test]
fn unknown_names_are_rejected() {
    assert_eq!(Shape::from_name(&"rock".to_string()), Err(GameError::IllegalShape));
    assert_eq!(Shape::from_name(&"".to_string()), Err(GameError::IllegalShape));
    assert_eq!(Shape::from_name(&"Lizard".to_string()), Err(GameError::IllegalShape));
}

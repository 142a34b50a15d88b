//! The three shapes of the game: their canonical names, and the cyclic
//! dominance rule that decides which of two revealed shapes wins.

use vstd::prelude::*;

use crate::common::{GameError, MAX_PLAYER_COUNT};

verus! {

/// One of the three choices a player may commit to.
///
/// Each shape carries a stable ordinal (`Rock` = 0, `Paper` = 1,
/// `Scissors` = 2); the dominance rule is expressed over the ordinals
/// and relies on this exact encoding.
#[derive(Debug, Clone, Copy, PartialEq, Eq, Structural)]
pub enum Shape {
    Rock,
    Paper,
    Scissors,
}

/// The stable ordinal of a shape, consumed by the dominance rule.
pub open spec fn ordinal(s: Shape) -> int {
    match s {
        Shape::Rock => 0,
        Shape::Paper => 1,
        Shape::Scissors => 2,
    }
}

/// `a` beats `b` exactly when `a`'s ordinal is one step above `b`'s in
/// the cycle Rock -> Paper -> Scissors -> Rock.
pub open spec fn beats(a: Shape, b: Shape) -> bool {
    ordinal(a) == (ordinal(b) + 1) % 3
}

/// The outcome of resolving two revealed shapes: `None` for a draw,
/// otherwise the index (0 or 1) of the winning player.
pub open spec fn resolve(a: Shape, b: Shape) -> Option<usize> {
    if a == b {
        None
    } else if beats(a, b) {
        Some(0usize)
    } else {
        Some(1usize)
    }
}

/// The canonical name of a shape, used for display and as part of the
/// commitment input.
pub open spec fn name_of(s: Shape) -> Seq<char> {
    match s {
        Shape::Rock => "Rock"@,
        Shape::Paper => "Paper"@,
        Shape::Scissors => "Scissors"@,
    }
}

/// The shape whose canonical name is `name`, if any; parsing is an
/// exact match on the three canonical names.
pub open spec fn parse(name: Seq<char>) -> Option<Shape> {
    if name == "Rock"@ {
        Some(Shape::Rock)
    } else if name == "Paper"@ {
        Some(Shape::Paper)
    } else if name == "Scissors"@ {
        Some(Shape::Scissors)
    } else {
        None
    }
}

impl Shape {
    /// The ordinal as a machine integer.
    pub fn ordinal_value(&self) -> (r: u8)
        ensures
            r as int == ordinal(*self),
    {
        match self {
            Shape::Rock => 0,
            Shape::Paper => 1,
            Shape::Scissors => 2,
        }
    }

    /// The canonical name, the exact inverse of `from_name`.
    pub fn canonical_name(&self) -> (r: &'static str)
        ensures
            r@ == name_of(*self),
    {
        match self {
            Shape::Rock => "Rock",
            Shape::Paper => "Paper",
            Shape::Scissors => "Scissors",
        }
    }

    /// Parses a canonical shape name; any other string is rejected with
    /// `IllegalShape`.
    pub fn from_name(name: &String) -> (r: Result<Shape, GameError>)
        ensures
            r == (match parse(name@) {
                Some(s) => Ok::<Shape, GameError>(s),
                None => Err::<Shape, GameError>(GameError::IllegalShape),
            }),
    {
        let rock: String = "Rock".to_owned();
        let paper: String = "Paper".to_owned();
        let scissors: String = "Scissors".to_owned();
        if *name == rock {
            Ok(Shape::Rock)
        } else if *name == paper {
            Ok(Shape::Paper)
        } else if *name == scissors {
            Ok(Shape::Scissors)
        } else {
            Err(GameError::IllegalShape)
        }
    }

    /// Resolves two revealed shapes: `None` for a draw, otherwise the
    /// index of the winning player. The caller guarantees exactly two
    /// shapes.
    pub fn get_result(shapes: &Vec<Shape>) -> (r: Option<usize>)
        requires
            shapes@.len() == MAX_PLAYER_COUNT,
        ensures
            r == resolve(shapes@[0], shapes@[1]),
    {
        let a = shapes[0];
        let b = shapes[1];
        if a == b {
            None
        } else {
            let oa = a.ordinal_value();
            let ob = b.ordinal_value();
            if oa == (ob + 1) % 3 {
                Some(0)
            } else {
                Some(1)
            }
        }
    }
}

/// Resolving a shape against itself is always a draw.
pub proof fn lemma_resolve_draw(s: Shape)
    ensures
        resolve(s, s) is None,
{
}

/// Resolution is symmetric under swapping the two players: a draw stays
/// a draw, and otherwise the winner index flips.
pub proof fn lemma_resolve_swap(a: Shape, b: Shape)
    ensures
        resolve(a, b) is None <==> resolve(b, a) is None,
        resolve(a, b) == Some(0usize) <==> resolve(b, a) == Some(1usize),
        resolve(a, b) == Some(1usize) <==> resolve(b, a) == Some(0usize),
{
}

/// The dominance table is exactly: Rock beats Scissors, Paper beats
/// Rock, Scissors beats Paper; no shape beats itself, and of two
/// distinct shapes exactly one beats the other.
pub proof fn lemma_dominance_table()
    ensures
        beats(Shape::Rock, Shape::Scissors),
        beats(Shape::Paper, Shape::Rock),
        beats(Shape::Scissors, Shape::Paper),
        forall|a: Shape| !beats(a, a),
        forall|a: Shape, b: Shape| a != b ==> (beats(a, b) <==> !beats(b, a)),
{
}

} // verus!

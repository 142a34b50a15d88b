//! A commit-reveal scheme for a two-player game of three cyclically
//! dominant shapes, with a registry that enforces the
//! commit -> reveal -> resolve order of play.
//!
//! A caller asks the registry for a new game and receives an
//! identifier; up to two distinct callers each store a commitment for
//! that identifier; once both slots are filled, each committed caller
//! may reveal, which is verified against the stored commitment; once
//! both reveals are recorded, any caller may ask for the result, after
//! which the game record is discarded.

use vstd::prelude::*;
use vstd::pervasive::VecAdditionalExecFns;

pub mod commit;
pub mod common;
pub mod shape;

use crate::commit::{commitment_bytes, Commit, HashIngredient};
use crate::common::{GameError, MAX_PLAYER_COUNT};
use crate::shape::{parse, resolve, Shape};

verus! {

/// The mathematical content of a stored player: the account, the
/// commitment bytes, and the revealed shape, if any.
pub struct PlayerV {
    pub account: Seq<char>,
    pub commit: Seq<u8>,
    pub reveal: Option<Shape>,
}

/// A committed player of one game: the account that committed, the
/// stored commitment, and the shape it revealed, `None` until a
/// matching reveal succeeds.
pub struct Player {
    pub account: String,
    pub commit: Commit,
    pub reveal: Option<Shape>,
}

impl View for Player {
    type V = PlayerV;

    open spec fn view(&self) -> PlayerV {
        PlayerV { account: self.account@, commit: self.commit@, reveal: self.reveal }
    }
}

/// One game: an ordered sequence of players, capacity exactly
/// `MAX_PLAYER_COUNT`. The order is the order in which the commits
/// arrived.
pub struct Game {
    pub players: Vec<Player>,
}

impl View for Game {
    type V = Seq<PlayerV>;

    open spec fn view(&self) -> Seq<PlayerV> {
        Seq::new(self.players@.len(), |i: int| self.players@[i]@)
    }
}

/// Whether some player among `players` committed under `account`.
pub open spec fn has_account(players: Seq<PlayerV>, account: Seq<char>) -> bool {
    exists|i: int| 0 <= i < players.len() && players[i].account == account
}

/// Whether every player among `players` has revealed.
pub open spec fn all_accounts_revealed(players: Seq<PlayerV>) -> bool {
    forall|i: int| 0 <= i < players.len() ==> (#[trigger] players[i]).reveal is Some
}

impl Game {
    /// A well-formed game never exceeds its capacity and holds at most
    /// one commitment per account.
    pub open spec fn wf(self) -> bool {
        &&& self@.len() <= MAX_PLAYER_COUNT
        &&& forall|i: int, j: int|
            0 <= i < j < self@.len() ==> self@[i].account != self@[j].account
    }

    /// Whether some player of this game committed under `account`.
    pub open spec fn has_player(self, account: Seq<char>) -> bool {
        has_account(self@, account)
    }

    /// Whether every committed player has revealed.
    pub open spec fn all_revealed(self) -> bool {
        all_accounts_revealed(self@)
    }

    /// Computes the winning player, if any: `Ok(None)` for a draw,
    /// `Ok(Some(p))` for the winner, and an error while the game is
    /// not yet full (`NotEnoughPlayers`) or not fully revealed
    /// (`NotEnoughReveal`).
    pub fn get_winner(&self) -> (r: Result<Option<Player>, GameError>)
        ensures
            self@.len() != MAX_PLAYER_COUNT ==> r == Err::<Option<Player>, GameError>(
                GameError::NotEnoughPlayers,
            ),
            self@.len() == MAX_PLAYER_COUNT && !self.all_revealed() ==> r == Err::<
                Option<Player>,
                GameError,
            >(GameError::NotEnoughReveal),
            self@.len() == MAX_PLAYER_COUNT && self.all_revealed() ==> (match resolve(
                self@[0].reveal.unwrap(),
                self@[1].reveal.unwrap(),
            ) {
                None => r == Ok::<Option<Player>, GameError>(None),
                Some(w) => r is Ok && r.unwrap() is Some && r.unwrap().unwrap()@ == self@[
                    w as int
                ],
            }),
    {
        if self.players.len() != MAX_PLAYER_COUNT {
            return Err(GameError::NotEnoughPlayers);
        }
        let mut reveals: Vec<Shape> = Vec::new();
        let n = self.players.len();
        let mut i: usize = 0;
        while i < n
            invariant
                n == self.players@.len(),
                n == MAX_PLAYER_COUNT,
                i <= n,
                reveals@.len() == i,
                forall|j: int| 0 <= j < i ==> self@[j].reveal is Some,
                forall|j: int| 0 <= j < i ==> reveals@[j] == self@[j].reveal.unwrap(),
            decreases n - i,
        {
            match self.players[i].reveal {
                Some(s) => {
                    reveals.push(s);
                },
                None => {
                    return Err(GameError::NotEnoughReveal);
                },
            }
            i = i + 1;
        }
        let winner = Shape::get_result(&reveals);
        match winner {
            None => Ok(None),
            Some(w) => Ok(Some(clone_player(&self.players[w]))),
        }
    }
}

/// Copies a player; the copy carries the same account, commitment and
/// reveal.
fn clone_player(p: &Player) -> (r: Player)
    ensures
        r@ == p@,
{
    Player { account: p.account.clone(), commit: clone_bytes(&p.commit), reveal: p.reveal }
}

/// Copies a byte string.
fn clone_bytes(v: &Vec<u8>) -> (r: Vec<u8>)
    ensures
        r@ == v@,
{
    let mut out: Vec<u8> = Vec::new();
    let n = v.len();
    let mut i: usize = 0;
    while i < n
        invariant
            n == v@.len(),
            i <= n,
            out@ =~= v@.subrange(0, i as int),
        decreases n - i,
    {
        out.push(v[i]);
        i = i + 1;
    }
    proof {
        assert(out@ =~= v@);
    }
    out
}

/// Copies a game; the copy has the same view.
fn clone_game(g: &Game) -> (r: Game)
    ensures
        r@ == g@,
{
    let mut players: Vec<Player> = Vec::new();
    let n = g.players.len();
    let mut i: usize = 0;
    while i < n
        invariant
            n == g.players@.len(),
            i <= n,
            players@.len() == i,
            forall|j: int| 0 <= j < i ==> players@[j]@ == #[trigger] g.players@[j]@,
        decreases n - i,
    {
        players.push(clone_player(&g.players[i]));
        i = i + 1;
    }
    let r = Game { players };
    proof {
        assert(r@ =~= g@);
    }
    r
}

/// Whether `post` differs from `pre` in at most the slot of
/// `game_num`: same identifier counter, same number of slots, every
/// other slot untouched.
pub open spec fn unchanged_except(
    pre: RockPaperScissors,
    post: RockPaperScissors,
    game_num: u32,
) -> bool {
    &&& post.game_count == pre.game_count
    &&& post.games@.len() == pre.games@.len()
    &&& forall|k: int|
        0 <= k < pre.games@.len() && k != game_num as int ==> post.games@[k] == pre.games@[k]
}

/// What a reveal does once the game is full, the caller holds the
/// player slot `i`, and the shape name parsed to `s`: if the
/// recomputed commitment matches the stored one, the reveal is
/// recorded on that player and nothing else changes; otherwise the
/// call fails `RevealNotMatch` and changes nothing.
pub open spec fn reveal_outcome(
    pre: RockPaperScissors,
    post: RockPaperScissors,
    r: Result<(), GameError>,
    game_num: u32,
    i: int,
    s: Shape,
    account: Seq<char>,
    factor: Seq<char>,
) -> bool {
    let gv = pre.game_view(game_num);
    if gv[i].commit == commitment_bytes(game_num, account, s, factor) {
        &&& r == Ok::<(), GameError>(())
        &&& post.has_game(game_num)
        &&& post.game_view(game_num) == gv.update(
            i,
            (PlayerV { account: gv[i].account, commit: gv[i].commit, reveal: Some(s) }),
        )
        &&& unchanged_except(pre, post, game_num)
    } else {
        &&& r == Err::<(), GameError>(GameError::RevealNotMatch)
        &&& post == pre
    }
}

/// The index of the first player of `g` that committed under
/// `account`, if any.
fn player_index(g: &Game, account: &String) -> (r: Option<usize>)
    ensures
        r is Some <==> has_account(g@, account@),
        r is Some ==> r.unwrap() < g@.len() && g@[r.unwrap() as int].account == account@,
{
    let n = g.players.len();
    let mut i: usize = 0;
    while i < n
        invariant
            n == g.players@.len(),
            i <= n,
            forall|j: int| 0 <= j < i ==> (#[trigger] g@[j]).account != account@,
        decreases n - i,
    {
        if g.players[i].account.eq(account) {
            proof {
                assert(g@[i as int].account == account@);
                assert(has_account(g@, account@));
            }
            return Some(i);
        }
        i = i + 1;
    }
    None
}

/// The registry: each game lives in the slot of its identifier, and
/// `game_count` is the next identifier to hand out. A resolved game's
/// slot is emptied and its identifier never reused.
pub struct RockPaperScissors {
    pub games: Vec<Option<Game>>,
    pub game_count: u32,
}

impl RockPaperScissors {
    /// A well-formed registry has one slot per identifier ever issued,
    /// and every stored game well-formed.
    pub open spec fn wf(self) -> bool {
        &&& self.games@.len() == self.game_count as int
        &&& forall|i: int|
            0 <= i < self.games@.len() && self.games@[i] is Some
                ==> (#[trigger] self.games@[i]).unwrap().wf()
    }

    /// Whether a game is stored under `game_num`.
    pub open spec fn has_game(self, game_num: u32) -> bool {
        game_num < self.games@.len() && self.games@[game_num as int] is Some
    }

    /// The players of the game stored under `game_num`.
    pub open spec fn game_view(self, game_num: u32) -> Seq<PlayerV>
        recommends
            self.has_game(game_num),
    {
        self.games@[game_num as int].unwrap()@
    }

    /// An empty registry that has issued no identifier yet.
    pub fn new() -> (r: Self)
        ensures
            r.wf(),
            r.game_count == 0,
            r.games@.len() == 0,
    {
        RockPaperScissors { games: Vec::new(), game_count: 0 }
    }

    /// Allocates the next sequential identifier, stores an empty game
    /// under it, and returns it.
    pub fn new_game(&mut self) -> (n: u32)
        requires
            old(self).wf(),
            old(self).game_count < u32::MAX,
        ensures
            final(self).wf(),
            n == old(self).game_count,
            final(self).game_count == old(self).game_count + 1,
            final(self).games@.len() == old(self).games@.len() + 1,
            forall|i: int|
                0 <= i < old(self).games@.len() ==> final(self).games@[i] == old(self).games@[i],
            final(self).has_game(n),
            final(self).game_view(n).len() == 0,
    {
        let game = Game { players: Vec::new() };
        self.games.push(Some(game));
        self.game_count = self.game_count + 1;
        self.game_count - 1
    }

    /// The game stored under `game_num`, if any, as a copy.
    pub fn find_game(&self, game_num: &u32) -> (r: Option<Game>)
        ensures
            r is Some <==> self.has_game(*game_num),
            r is Some ==> r.unwrap()@ == self.game_view(*game_num),
    {
        if (*game_num as usize) < self.games.len() {
            match &self.games[*game_num as usize] {
                Some(g) => Some(clone_game(g)),
                None => None,
            }
        } else {
            None
        }
    }

    /// The player that committed to game `game_num` under `account`,
    /// if any, as a copy.
    pub fn find_player(&self, game_num: &u32, account: &String) -> (r: Option<Player>)
        requires
            self.wf(),
        ensures
            r is Some <==> (self.has_game(*game_num) && has_account(
                self.game_view(*game_num),
                account@,
            )),
            r is Some ==> forall|i: int|
                0 <= i < self.game_view(*game_num).len() && (#[trigger] self.game_view(
                    *game_num,
                )[i]).account == account@ ==> r.unwrap()@ == self.game_view(*game_num)[i],
    {
        if (*game_num as usize) >= self.games.len() {
            return None;
        }
        match &self.games[*game_num as usize] {
            None => None,
            Some(g) => {
                match player_index(g, account) {
                    Some(i) => Some(clone_player(&g.players[i])),
                    None => None,
                }
            },
        }
    }

    /// Stores a commitment for `game_num` under `account`: fails
    /// `GameNotExist` if the game is absent, `AlreadyCommit` if the
    /// account already committed, `EnoughPlayers` if the game is
    /// already full; otherwise appends the player. A failed call
    /// changes nothing.
    pub fn commit(&mut self, game_num: u32, account: String, commit: Commit) -> (r: Result<
        (),
        GameError,
    >)
        requires
            old(self).wf(),
        ensures
            final(self).wf(),
            final(self).game_count == old(self).game_count,
            !old(self).has_game(game_num) ==> r == Err::<(), GameError>(GameError::GameNotExist)
                && *final(self) == *old(self),
            old(self).has_game(game_num) && has_account(old(self).game_view(game_num), account@)
                ==> r == Err::<(), GameError>(GameError::AlreadyCommit) && *final(self) == *old(
                self,
            ),
            old(self).has_game(game_num) && !has_account(old(self).game_view(game_num), account@)
                && old(self).game_view(game_num).len() >= MAX_PLAYER_COUNT ==> r == Err::<
                (),
                GameError,
            >(GameError::EnoughPlayers) && *final(self) == *old(self),
            old(self).has_game(game_num) && !has_account(old(self).game_view(game_num), account@)
                && old(self).game_view(game_num).len() < MAX_PLAYER_COUNT ==> r == Ok::<
                (),
                GameError,
            >(()) && final(self).games@.len() == old(self).games@.len() && final(self).has_game(
                game_num,
            ) && final(self).game_view(game_num) == old(self).game_view(game_num).push(
                (PlayerV { account: account@, commit: commit@, reveal: None }),
            ) && (forall|i: int|
                0 <= i < old(self).games@.len() && i != game_num as int ==> final(self).games@[i]
                    == old(self).games@[i]),
    {
        let idx = game_num as usize;
        if idx >= self.games.len() {
            return Err(GameError::GameNotExist);
        }
        match &self.games[idx] {
            None => {
                return Err(GameError::GameNotExist);
            },
            Some(g) => {
                if player_index(g, &account).is_some() {
                    return Err(GameError::AlreadyCommit);
                }
                if g.players.len() >= MAX_PLAYER_COUNT {
                    return Err(GameError::EnoughPlayers);
                }
            },
        }
        let mut slot: Option<Game> = None;
        self.games.set_and_swap(idx, &mut slot);
        match slot {
            Some(mut game) => {
                game.players.push(Player { account, commit, reveal: None });
                let ghost new_view = game@;
                self.games.set(idx, Some(game));
                proof {
                    assert(new_view =~= old(self).game_view(game_num).push(
                        PlayerV { account: account@, commit: commit@, reveal: None },
                    ));
                    assert(self.game_view(game_num) == new_view);
                    assert forall|k: int|
                        0 <= k < self.games@.len() && self.games@[k] is Some implies (
                    #[trigger] self.games@[k]).unwrap().wf() by {
                        if k != idx as int {
                            assert(self.games@[k] == old(self).games@[k]);
                        }
                    }
                }
                Ok(())
            },
            None => {
                proof {
                    assert(false);
                }
                Err(GameError::GameNotExist)
            },
        }
    }

    /// Reveals the shape `account` committed to game `game_num`: fails
    /// `GameNotExist` if the game is absent, `NotTimeToReveal` while
    /// the game is not yet full, `PlayersNotMatch` if `account` never
    /// committed, `IllegalShape` if `shape` is not a canonical name,
    /// and `RevealNotMatch` if the recomputed commitment differs from
    /// the stored one; otherwise records the revealed shape on that
    /// player. A failed call changes nothing.
    pub fn reveal_shape(&mut self, game_num: u32, account: String, shape: String, factor: String) -> (r:
        Result<(), GameError>)
        requires
            old(self).wf(),
        ensures
            final(self).wf(),
            final(self).game_count == old(self).game_count,
            !old(self).has_game(game_num)
                ==> r == Err::<(), GameError>(GameError::GameNotExist)
                    && *final(self) == *old(self),
            old(self).has_game(game_num)
                && old(self).game_view(game_num).len() != MAX_PLAYER_COUNT
                ==> r == Err::<(), GameError>(GameError::NotTimeToReveal)
                    && *final(self) == *old(self),
            old(self).has_game(game_num)
                && old(self).game_view(game_num).len() == MAX_PLAYER_COUNT
                && !has_account(old(self).game_view(game_num), account@)
                ==> r == Err::<(), GameError>(GameError::PlayersNotMatch)
                    && *final(self) == *old(self),
            old(self).has_game(game_num)
                && old(self).game_view(game_num).len() == MAX_PLAYER_COUNT
                && has_account(old(self).game_view(game_num), account@)
                && parse(shape@) is None
                ==> r == Err::<(), GameError>(GameError::IllegalShape)
                    && *final(self) == *old(self),
            old(self).has_game(game_num)
                && old(self).game_view(game_num).len() == MAX_PLAYER_COUNT
                && has_account(old(self).game_view(game_num), account@)
                && parse(shape@) is Some
                ==> (forall|i: int|
                    0 <= i < old(self).game_view(game_num).len()
                        && (#[trigger] old(self).game_view(game_num)[i]).account == account@
                        ==> reveal_outcome(
                            *old(self),
                            *final(self),
                            r,
                            game_num,
                            i,
                            parse(shape@).unwrap(),
                            account@,
                            factor@,
                        )),
    {
        let ghost account_view = account@;
        let idx = game_num as usize;
        if idx >= self.games.len() {
            return Err(GameError::GameNotExist);
        }
        let pidx_found: Option<usize>;
        match &self.games[idx] {
            None => {
                return Err(GameError::GameNotExist);
            },
            Some(g) => {
                if g.players.len() != MAX_PLAYER_COUNT {
                    return Err(GameError::NotTimeToReveal);
                }
                pidx_found = player_index(g, &account);
            },
        }
        let pidx = match pidx_found {
            Some(p) => p,
            None => {
                return Err(GameError::PlayersNotMatch);
            },
        };
        let shape_val = match Shape::from_name(&shape) {
            Ok(s) => s,
            Err(e) => {
                return Err(e);
            },
        };
        let ingredient = HashIngredient { game_num, account, shape: shape_val, factor };
        let matched = match &self.games[idx] {
            Some(g) => ingredient.match_commit(&g.players[pidx].commit),
            None => {
                proof {
                    assert(false);
                }
                false
            },
        };
        if !matched {
            return Err(GameError::RevealNotMatch);
        }
        let mut slot: Option<Game> = None;
        self.games.set_and_swap(idx, &mut slot);
        match slot {
            Some(mut game) => {
                let mut taken = Player { account: String::new(), commit: Vec::new(), reveal: None };
                game.players.set_and_swap(pidx, &mut taken);
                let updated = Player {
                    account: taken.account,
                    commit: taken.commit,
                    reveal: Some(shape_val),
                };
                game.players.set(pidx, updated);
                let ghost new_view = game@;
                self.games.set(idx, Some(game));
                proof {
                    let gv = old(self).game_view(game_num);
                    assert(new_view =~= gv.update(
                        pidx as int,
                        PlayerV {
                            account: gv[pidx as int].account,
                            commit: gv[pidx as int].commit,
                            reveal: Some(shape_val),
                        },
                    ));
                    assert forall|i: int|
                        0 <= i < gv.len() && (#[trigger] gv[i]).account == account_view implies i
                        == pidx as int by {
                        if i != pidx as int {
                            assert(gv[i].account != gv[pidx as int].account);
                        }
                    }
                    assert forall|k: int|
                        0 <= k < self.games@.len() && self.games@[k] is Some implies (
                    #[trigger] self.games@[k]).unwrap().wf() by {
                        if k != idx as int {
                            assert(self.games@[k] == old(self).games@[k]);
                        }
                    }
                }
                Ok(())
            },
            None => {
                proof {
                    assert(false);
                }
                Err(GameError::GameNotExist)
            },
        }
    }

    /// Computes the outcome of game `game_num`: the winning account,
    /// or no account for a draw. Whenever the game exists its record
    /// is removed before returning — also when the outcome is an
    /// error, so a premature call destroys the game irrecoverably.
    pub fn get_result(&mut self, game_num: u32) -> (r: Result<Option<String>, GameError>)
        requires
            old(self).wf(),
        ensures
            final(self).wf(),
            final(self).game_count == old(self).game_count,
            !old(self).has_game(game_num)
                ==> r == Err::<Option<String>, GameError>(GameError::GameNotExist)
                    && *final(self) == *old(self),
            old(self).has_game(game_num)
                ==> !final(self).has_game(game_num)
                    && final(self).games@[game_num as int] is None
                    && unchanged_except(*old(self), *final(self), game_num),
            old(self).has_game(game_num)
                && old(self).game_view(game_num).len() != MAX_PLAYER_COUNT
                ==> r == Err::<Option<String>, GameError>(GameError::NotEnoughPlayers),
            old(self).has_game(game_num)
                && old(self).game_view(game_num).len() == MAX_PLAYER_COUNT
                && !all_accounts_revealed(old(self).game_view(game_num))
                ==> r == Err::<Option<String>, GameError>(GameError::NotEnoughReveal),
            old(self).has_game(game_num)
                && old(self).game_view(game_num).len() == MAX_PLAYER_COUNT
                && all_accounts_revealed(old(self).game_view(game_num))
                ==> (match resolve(
                    old(self).game_view(game_num)[0].reveal.unwrap(),
                    old(self).game_view(game_num)[1].reveal.unwrap(),
                ) {
                    None => r == Ok::<Option<String>, GameError>(None),
                    Some(w) => r is Ok && r.unwrap() is Some && r.unwrap().unwrap()@ == old(
                        self,
                    ).game_view(game_num)[w as int].account,
                }),
    {
        let idx = game_num as usize;
        if idx >= self.games.len() {
            return Err(GameError::GameNotExist);
        }
        let present = match &self.games[idx] {
            Some(_) => true,
            None => false,
        };
        if !present {
            return Err(GameError::GameNotExist);
        }
        let mut slot: Option<Game> = None;
        self.games.set_and_swap(idx, &mut slot);
        proof {
            assert forall|k: int|
                0 <= k < self.games@.len() && self.games@[k] is Some implies (
            #[trigger] self.games@[k]).unwrap().wf() by {
                if k != idx as int {
                    assert(self.games@[k] == old(self).games@[k]);
                }
            }
        }
        match slot {
            Some(game) => {
                match game.get_winner() {
                    Ok(None) => Ok(None),
                    Ok(Some(p)) => Ok(Some(p.account)),
                    Err(e) => Err(e),
                }
            },
            None => {
                proof {
                    assert(false);
                }
                Err(GameError::GameNotExist)
            },
        }
    }
}

} // verus!

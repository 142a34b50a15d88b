//! The commitment scheme: a commitment is the one-way digest of the
//! serialized ingredient (game identifier, account, shape name, secret
//! factor), and a reveal verifies by recomputing that digest and
//! comparing it byte for byte.

use vstd::prelude::*;
use vstd::string::StringExecFns;

use crate::shape::{name_of, Shape};

verus! {

/// A stored commitment: an opaque digest, never decoded, only compared
/// by exact byte equality against a freshly recomputed one.
pub type Commit = Vec<u8>;

/// The decimal digit `d` as a character, for `0 <= d <= 9`.
pub open spec fn digit_char(d: int) -> char {
    if d == 0 {
        '0'
    } else if d == 1 {
        '1'
    } else if d == 2 {
        '2'
    } else if d == 3 {
        '3'
    } else if d == 4 {
        '4'
    } else if d == 5 {
        '5'
    } else if d == 6 {
        '6'
    } else if d == 7 {
        '7'
    } else if d == 8 {
        '8'
    } else {
        '9'
    }
}

/// The decimal rendering of `n`, without leading zeros (a single `'0'`
/// for zero itself).
pub open spec fn dec_chars(n: nat) -> Seq<char>
    decreases n,
{
    if n < 10 {
        seq![digit_char(n as int)]
    } else {
        dec_chars(n / 10) + seq![digit_char((n % 10) as int)]
    }
}

/// The serialized form of an ingredient: the decimal game identifier,
/// the account, the shape's canonical name and the factor, concatenated
/// with no separator.
pub open spec fn commitment_input(
    game_num: u32,
    account: Seq<char>,
    shape: Shape,
    factor: Seq<char>,
) -> Seq<char> {
    dec_chars(game_num as nat) + account + name_of(shape) + factor
}

/// The digest that the one-way hash assigns to a serialized input.
/// A function of the input alone; nothing else is assumed of it.
pub uninterp spec fn keccak_of(input: Seq<char>) -> Seq<u8>;

/// The commitment produced from an ingredient.
pub open spec fn commitment_bytes(
    game_num: u32,
    account: Seq<char>,
    shape: Shape,
    factor: Seq<char>,
) -> Seq<u8> {
    keccak_of(commitment_input(game_num, account, shape, factor))
}

/// Relies on `near_sdk::env::keccak256`: the Keccak-256 digest of the
/// input's bytes, 32 bytes long, a function of the input alone.
#[verifier::external_body]
fn keccak256_digest(input: &str) -> (r: Vec<u8>)
    ensures
        r@ == keccak_of(input@),
        r@.len() == 32,
{
    near_sdk::env::keccak256(input.as_bytes())
}

/// The decimal digit `d` as a one-character string.
fn digit_str(d: u32) -> (r: &'static str)
    requires
        d < 10,
    ensures
        r@ == seq![digit_char(d as int)],
{
    let r: &'static str = if d == 0 {
        "0"
    } else if d == 1 {
        "1"
    } else if d == 2 {
        "2"
    } else if d == 3 {
        "3"
    } else if d == 4 {
        "4"
    } else if d == 5 {
        "5"
    } else if d == 6 {
        "6"
    } else if d == 7 {
        "7"
    } else if d == 8 {
        "8"
    } else {
        "9"
    };
    proof {
        reveal_strlit("0");
        reveal_strlit("1");
        reveal_strlit("2");
        reveal_strlit("3");
        reveal_strlit("4");
        reveal_strlit("5");
        reveal_strlit("6");
        reveal_strlit("7");
        reveal_strlit("8");
        reveal_strlit("9");
        assert(r@ =~= seq![digit_char(d as int)]);
    }
    r
}

/// Appends the decimal rendering of `n` to `out`.
fn push_dec_chars(n: u32, out: &mut String)
    ensures
        final(out)@ == old(out)@ + dec_chars(n as nat),
    decreases n,
{
    if n >= 10 {
        push_dec_chars(n / 10, out);
    }
    out.append(digit_str(n % 10));
    proof {
        assert(out@ =~= old(out)@ + dec_chars(n as nat));
    }
}

/// The decimal rendering of `n` as a string.
fn dec_string(n: u32) -> (r: String)
    ensures
        r@ == dec_chars(n as nat),
{
    let mut out = String::new();
    push_dec_chars(n, &mut out);
    proof {
        assert(out@ =~= dec_chars(n as nat));
    }
    out
}

/// The tuple from which a commitment is produced and against which a
/// reveal is verified. The factor is a caller-chosen secret; the
/// scheme hides the shape only as far as the factor's entropy reaches,
/// which is the caller's concern, not enforced here.
#[derive(Clone)]
pub struct HashIngredient {
    pub game_num: u32,
    pub account: String,
    pub shape: Shape,
    pub factor: String,
}

impl HashIngredient {
    /// The commitment this ingredient produces.
    pub open spec fn commitment(self) -> Seq<u8> {
        commitment_bytes(self.game_num, self.account@, self.shape, self.factor@)
    }

    /// Whether a stored commitment verifies against this ingredient.
    pub open spec fn verifies(self, commit: Seq<u8>) -> bool {
        commit == self.commitment()
    }

    /// Serializes the ingredient and digests it with the one-way hash.
    pub fn hash(&self) -> (r: Vec<u8>)
        ensures
            r@ == self.commitment(),
            r@.len() == 32,
    {
        let mut input = dec_string(self.game_num);
        input.append(self.account.as_str());
        input.append(self.shape.canonical_name());
        input.append(self.factor.as_str());
        proof {
            assert(input@ =~= commitment_input(
                self.game_num,
                self.account@,
                self.shape,
                self.factor@,
            ));
        }
        keccak256_digest(input.as_str())
    }

    /// Recomputes the commitment and compares it byte for byte against
    /// the stored one; any single differing byte is a failure.
    pub fn match_commit(&self, commit: &Commit) -> (r: bool)
        ensures
            r == self.verifies(commit@),
    {
        let h = self.hash();
        bytes_eq(&h, commit)
    }
}

/// Exact byte equality of two digests.
fn bytes_eq(a: &Vec<u8>, b: &Vec<u8>) -> (r: bool)
    ensures
        r == (a@ == b@),
{
    if a.len() != b.len() {
        proof {
            assert(a@ != b@);
        }
        return false;
    }
    let n = a.len();
    let mut i: usize = 0;
    while i < n
        invariant
            n == a@.len(),
            a@.len() == b@.len(),
            i <= n,
            forall|j: int| 0 <= j < i ==> a@[j] == b@[j],
        decreases n - i,
    {
        if a[i] != b[i] {
            proof {
                assert(a@[i as int] != b@[i as int]);
                assert(a@ != b@);
            }
            return false;
        }
        i = i + 1;
    }
    proof {
        assert(a@ =~= b@);
    }
    true
}

/// A commitment produced from an ingredient always verifies against
/// that same ingredient.
pub proof fn lemma_commit_then_verify(i: HashIngredient)
    ensures
        i.verifies(i.commitment()),
{
}

/// The decimal rendering is never empty, and has at least two digits
/// from ten upward.
proof fn lemma_dec_chars_len(n: nat)
    ensures
        dec_chars(n).len() >= 1,
        n >= 10 ==> dec_chars(n).len() >= 2,
    decreases n,
{
    if n >= 10 {
        lemma_dec_chars_len(n / 10);
    }
}

/// Distinct numbers have distinct decimal renderings.
proof fn lemma_dec_chars_injective(m: nat, n: nat)
    ensures
        m != n ==> dec_chars(m) != dec_chars(n),
    decreases m + n,
{
    if m != n {
        lemma_dec_chars_len(m);
        lemma_dec_chars_len(n);
        if m < 10 && n < 10 {
            assert(dec_chars(m)[0] != dec_chars(n)[0]);
        } else if m < 10 || n < 10 {
            assert(dec_chars(m).len() != dec_chars(n).len());
        } else {
            if m % 10 != n % 10 {
                assert(dec_chars(m).last() != dec_chars(n).last());
                if dec_chars(m) == dec_chars(n) {
                    assert(dec_chars(m).last() == dec_chars(n).last());
                }
            } else {
                lemma_dec_chars_injective(m / 10, n / 10);
                if dec_chars(m) == dec_chars(n) {
                    assert(dec_chars(m / 10) =~= dec_chars(n / 10)) by {
                        assert(dec_chars(m).len() == dec_chars(n).len());
                        assert forall|i: int|
                            0 <= i < dec_chars(m / 10).len() implies #[trigger] dec_chars(
                            m / 10,
                        )[i] == dec_chars(n / 10)[i] by {
                            assert(dec_chars(m)[i] == dec_chars(n)[i]);
                        }
                    }
                }
            }
        }
    }
}

/// Two equal concatenations around the same prefix and suffix have
/// equal middles.
proof fn lemma_concat_middle_cancel(x: Seq<char>, m1: Seq<char>, m2: Seq<char>, y: Seq<char>)
    requires
        x + m1 + y == x + m2 + y,
    ensures
        m1 == m2,
{
    assert((x + m1 + y).len() == x.len() + m1.len() + y.len());
    assert((x + m2 + y).len() == x.len() + m2.len() + y.len());
    assert(m1.len() == m2.len());
    assert(m1 =~= m2) by {
        assert forall|i: int| 0 <= i < m1.len() implies m1[i] == m2[i] by {
            assert((x + m1 + y)[x.len() + i] == (x + m1)[x.len() + i]);
            assert((x + m1)[x.len() + i] == m1[i]);
            assert((x + m2 + y)[x.len() + i] == (x + m2)[x.len() + i]);
            assert((x + m2)[x.len() + i] == m2[i]);
        }
    }
}

/// Changing the game identifier of an ingredient changes the
/// serialized commitment input.
pub proof fn lemma_input_depends_on_game_num(
    g1: u32,
    g2: u32,
    account: Seq<char>,
    shape: Shape,
    factor: Seq<char>,
)
    requires
        g1 != g2,
    ensures
        commitment_input(g1, account, shape, factor) != commitment_input(
            g2,
            account,
            shape,
            factor,
        ),
{
    lemma_dec_chars_injective(g1 as nat, g2 as nat);
    if commitment_input(g1, account, shape, factor) == commitment_input(
        g2,
        account,
        shape,
        factor,
    ) {
        let rest = account + name_of(shape) + factor;
        assert(dec_chars(g1 as nat) + rest =~= commitment_input(g1, account, shape, factor));
        assert(dec_chars(g2 as nat) + rest =~= commitment_input(g2, account, shape, factor));
        lemma_concat_middle_cancel(
            Seq::<char>::empty(),
            dec_chars(g1 as nat),
            dec_chars(g2 as nat),
            rest,
        );
    }
}

/// Changing the account of an ingredient changes the serialized
/// commitment input.
pub proof fn lemma_input_depends_on_account(
    game_num: u32,
    a1: Seq<char>,
    a2: Seq<char>,
    shape: Shape,
    factor: Seq<char>,
)
    requires
        a1 != a2,
    ensures
        commitment_input(game_num, a1, shape, factor) != commitment_input(
            game_num,
            a2,
            shape,
            factor,
        ),
{
    if commitment_input(game_num, a1, shape, factor) == commitment_input(
        game_num,
        a2,
        shape,
        factor,
    ) {
        let rest = name_of(shape) + factor;
        assert(dec_chars(game_num as nat) + a1 + rest =~= commitment_input(
            game_num,
            a1,
            shape,
            factor,
        ));
        assert(dec_chars(game_num as nat) + a2 + rest =~= commitment_input(
            game_num,
            a2,
            shape,
            factor,
        ));
        lemma_concat_middle_cancel(dec_chars(game_num as nat), a1, a2, rest);
    }
}

/// Changing the shape of an ingredient changes the serialized
/// commitment input.
pub proof fn lemma_input_depends_on_shape(
    game_num: u32,
    account: Seq<char>,
    s1: Shape,
    s2: Shape,
    factor: Seq<char>,
)
    requires
        s1 != s2,
    ensures
        commitment_input(game_num, account, s1, factor) != commitment_input(
            game_num,
            account,
            s2,
            factor,
        ),
{
    reveal_strlit("Rock");
    reveal_strlit("Paper");
    reveal_strlit("Scissors");
    assert("Rock"@.len() == 4);
    assert("Paper"@.len() == 5);
    assert("Scissors"@.len() == 8);
    assert(name_of(s1) != name_of(s2));
    if commitment_input(game_num, account, s1, factor) == commitment_input(
        game_num,
        account,
        s2,
        factor,
    ) {
        let prefix = dec_chars(game_num as nat) + account;
        assert(prefix + name_of(s1) + factor =~= commitment_input(game_num, account, s1, factor));
        assert(prefix + name_of(s2) + factor =~= commitment_input(game_num, account, s2, factor));
        lemma_concat_middle_cancel(prefix, name_of(s1), name_of(s2), factor);
    }
}

/// Changing the factor of an ingredient changes the serialized
/// commitment input.
pub proof fn lemma_input_depends_on_factor(
    game_num: u32,
    account: Seq<char>,
    shape: Shape,
    f1: Seq<char>,
    f2: Seq<char>,
)
    requires
        f1 != f2,
    ensures
        commitment_input(game_num, account, shape, f1) != commitment_input(
            game_num,
            account,
            shape,
            f2,
        ),
{
    if commitment_input(game_num, account, shape, f1) == commitment_input(
        game_num,
        account,
        shape,
        f2,
    ) {
        let prefix = dec_chars(game_num as nat) + account + name_of(shape);
        assert(prefix + f1 =~= commitment_input(game_num, account, shape, f1));
        assert(prefix + f2 =~= commitment_input(game_num, account, shape, f2));
        lemma_concat_middle_cancel(prefix, f1, f2, Seq::<char>::empty());
    }
}

} // verus!

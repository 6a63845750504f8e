//! Label and HUD text: decimal numerals, prefix tests, and the strings
//! the game shows or uses as entity keys.

use vstd::prelude::*;

verus! {

/// The character of a decimal digit `d < 10`.
pub open spec fn digit_char(d: nat) -> char {
    seq!['0', '1', '2', '3', '4', '5', '6', '7', '8', '9'][d as int]
}

/// The decimal numeral of `n`: no sign, no leading zeros.
pub open spec fn decimal(n: nat) -> Seq<char>
    decreases n,
{
    if n < 10 {
        seq![digit_char(n)]
    } else {
        decimal(n / 10).push(digit_char(n % 10))
    }
}

/// Relies on `ToString::to_string` through the `Display` impl of `u64`,
/// which writes the number in decimal, without sign or leading zeros.
#[verifier::external_body]
fn decimal_string(n: u64) -> (r: String)
    ensures
        r@ == decimal(n as nat),
{
    n.to_string()
}

/// The score label shown for a score of `n`.
pub open spec fn score_text_of(n: nat) -> Seq<char> {
    "Score: "@ + decimal(n)
}

/// The high-score label shown for a high score of `n`.
pub open spec fn high_score_text_of(n: nat) -> Seq<char> {
    "High Score: "@ + decimal(n)
}

/// The entity key of the target with id `id`.
pub open spec fn target_label_of(id: nat) -> Seq<char> {
    "ferris"@ + decimal(id)
}

/// The entity key of the player sprite.
pub open spec fn player_label() -> Seq<char> {
    "player"@
}

/// `p` is a prefix of `s`.
pub open spec fn has_prefix(s: Seq<char>, p: Seq<char>) -> bool {
    p.len() <= s.len() && s.subrange(0, p.len() as int) == p
}

/// Text of the score label.
pub fn score_text(n: u32) -> (r: String)
    ensures
        r@ == score_text_of(n as nat),
{
    let digits = decimal_string(n as u64);
    String::from_str("Score: ").concat(digits.as_str())
}

/// Text of the high-score label.
pub fn high_score_text(n: u32) -> (r: String)
    ensures
        r@ == high_score_text_of(n as nat),
{
    let digits = decimal_string(n as u64);
    String::from_str("High Score: ").concat(digits.as_str())
}

/// Entity key of the target with id `id`.
pub fn target_label(id: u64) -> (r: String)
    ensures
        r@ == target_label_of(id as nat),
{
    let digits = decimal_string(id);
    String::from_str("ferris").concat(digits.as_str())
}

/// Whether `s` begins with `p`.
pub fn starts_with(s: &str, p: &str) -> (r: bool)
    ensures
        r == has_prefix(s@, p@),
{
    let n = s.unicode_len();
    let k = p.unicode_len();
    if k > n {
        return false;
    }
    let mut i: usize = 0;
    while i < k
        invariant
            k == p@.len(),
            n == s@.len(),
            k <= n,
            i <= k,
            forall|j: int| 0 <= j < i ==> s@[j] == p@[j],
        decreases k - i,
    {
        if s.get_char(i) != p.get_char(i) {
            assert(s@.subrange(0, k as int)[i as int] != p@[i as int]);
            return false;
        }
        i = i + 1;
    }
    assert(s@.subrange(0, k as int) =~= p@);
    true
}

/// Whether `s` is the player's entity key.
pub fn is_player_label(s: &str) -> (r: bool)
    ensures
        r == (s@ == player_label()),
{
    let p = "player";
    let r = starts_with(s, p) && s.unicode_len() == p.unicode_len();
    proof {
        if s@ == p@ {
            assert(s@.subrange(0, p@.len() as int) =~= s@);
        }
        if r {
            assert(s@ =~= s@.subrange(0, p@.len() as int));
        }
    }
    r
}

} // verus!

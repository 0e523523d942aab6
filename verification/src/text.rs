//! Decimal rendering of counters and the character test for project identifiers.

use vstd::prelude::*;
use vstd::string::*;

verus! {

/// The character that stands for one decimal digit.
pub open spec fn digit_char(d: nat) -> char {
    if d == 0 {
        '0'
    } else if d == 1 {
        '1'
    } else if d == 2 {
        '2'
    } else if d == 3 {
        '3'
    } else if d == 4 {
        '4'
    } else if d == 5 {
        '5'
    } else if d == 6 {
        '6'
    } else if d == 7 {
        '7'
    } else if d == 8 {
        '8'
    } else {
        '9'
    }
}

/// The decimal digits of `n`, most significant first, without leading zeros.
pub open spec fn decimal_digits(n: nat) -> Seq<char>
    decreases n,
{
    if n < 10 {
        seq![digit_char(n)]
    } else {
        decimal_digits(n / 10).push(digit_char(n % 10))
    }
}

/// A number has at least one decimal digit.
pub proof fn lemma_decimal_nonempty(n: nat)
    ensures
        decimal_digits(n).len() >= 1,
        n >= 10 ==> decimal_digits(n).len() >= 2,
    decreases n,
{
    if n >= 10 {
        lemma_decimal_nonempty(n / 10);
    }
}

/// Two numbers with the same decimal digits are the same number.
pub proof fn lemma_decimal_injective(a: nat, b: nat)
    requires
        decimal_digits(a) == decimal_digits(b),
    ensures
        a == b,
    decreases a,
{
    lemma_decimal_nonempty(a);
    lemma_decimal_nonempty(b);
    if a < 10 && b < 10 {
        assert(decimal_digits(a)[0] == digit_char(a));
        assert(decimal_digits(b)[0] == digit_char(b));
    } else if a >= 10 && b >= 10 {
        let pa = decimal_digits(a / 10);
        let pb = decimal_digits(b / 10);
        assert(pa.push(digit_char(a % 10)).drop_last() =~= pa);
        assert(pb.push(digit_char(b % 10)).drop_last() =~= pb);
        assert(pa.push(digit_char(a % 10)).last() == digit_char(a % 10));
        assert(pb.push(digit_char(b % 10)).last() == digit_char(b % 10));
        lemma_decimal_injective(a / 10, b / 10);
    } else {
        assert(decimal_digits(a).len() != decimal_digits(b).len());
    }
}

fn digit_text(d: u64) -> (r: &'static str)
    requires
        d < 10,
    ensures
        r@ =~= seq![digit_char(d as nat)],
{
    proof {
        reveal_strlit("0");
        reveal_strlit("1");
        reveal_strlit("2");
        reveal_strlit("3");
        reveal_strlit("4");
        reveal_strlit("5");
        reveal_strlit("6");
        reveal_strlit("7");
        reveal_strlit("8");
        reveal_strlit("9");
    }
    if d == 0 {
        "0"
    } else if d == 1 {
        "1"
    } else if d == 2 {
        "2"
    } else if d == 3 {
        "3"
    } else if d == 4 {
        "4"
    } else if d == 5 {
        "5"
    } else if d == 6 {
        "6"
    } else if d == 7 {
        "7"
    } else if d == 8 {
        "8"
    } else {
        "9"
    }
}

/// Renders `n` in decimal.
pub fn decimal_string(n: u64) -> (r: String)
    ensures
        r@ == decimal_digits(n as nat),
    decreases n,
{
    if n < 10 {
        String::from_str(digit_text(n))
    } else {
        let mut r = decimal_string(n / 10);
        r.append(digit_text(n % 10));
        assert(r@ =~= decimal_digits((n / 10) as nat).push(digit_char((n % 10) as nat)));
        r
    }
}

/// Whether a character is a letter or a digit in the sense of Unicode, as
/// `char::is_alphanumeric` decides it.
pub uninterp spec fn is_alphanumeric(c: char) -> bool;

/// Calls `char::is_alphanumeric`. The contract only gives the answer its name:
/// the Unicode tables behind it are not restated here.
#[verifier::external_body]
fn char_is_alphanumeric(c: char) -> (r: bool)
    ensures
        r == is_alphanumeric(c),
{
    c.is_alphanumeric()
}

/// Every character of `s` is a letter or a digit.
pub open spec fn all_alphanumeric(s: Seq<char>) -> bool {
    forall|i: int| 0 <= i < s.len() ==> is_alphanumeric(#[trigger] s[i])
}

/// Tests whether every character of `s` is a letter or a digit.
pub fn is_alphanumeric_text(s: &str) -> (r: bool)
    ensures
        r == all_alphanumeric(s@),
{
    let n: usize = s.unicode_len();
    let mut i: usize = 0;
    while i < n
        invariant
            n == s@.len(),
            i <= n,
            forall|j: int| 0 <= j < i ==> is_alphanumeric(#[trigger] s@[j]),
        decreases n - i,
    {
        let c = s.get_char(i);
        if !char_is_alphanumeric(c) {
            return false;
        }
        i += 1;
    }
    true
}

} // verus!

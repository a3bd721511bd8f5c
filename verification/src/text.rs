//! Operations on text: comparing, prefixes, and writing numbers.

use vstd::prelude::*;

verus! {

/// The upper-case form of a text, as `str::to_uppercase` computes it.
pub uninterp spec fn uppercase_text(s: Seq<char>) -> Seq<char>;

/// The character that stands for a decimal digit.
pub open spec fn digit_char(d: int) -> char {
    "0123456789"@[d]
}

/// The decimal form of a natural number, without leading zeros.
pub open spec fn decimal_text(n: nat) -> Seq<char>
    decreases n,
{
    if n < 10 {
        seq![digit_char(n as int)]
    } else {
        decimal_text(n / 10).push(digit_char((n % 10) as int))
    }
}

/// The decimal form of an unsigned number.
pub open spec fn unsigned_text(n: u64) -> Seq<char> {
    decimal_text(n as nat)
}

/// The decimal form of a signed number: a minus sign stands before a
/// negative one.
pub open spec fn signed_text(n: i64) -> Seq<char> {
    if n < 0 {
        seq!['-'] + decimal_text((-n) as nat)
    } else {
        decimal_text(n as nat)
    }
}

/// `str`'s `==`: two texts are equal when they hold the same characters.
#[verifier::external_body]
pub(crate) fn str_eq(a: &str, b: &str) -> (equal: bool)
    ensures
        equal == (a@ == b@),
{
    a == b
}

/// `str::to_uppercase`: the result is a function of the text alone.
#[verifier::external_body]
pub(crate) fn uppercase(s: &str) -> (upper: String)
    ensures
        upper@ == uppercase_text(s@),
{
    s.to_uppercase()
}

/// The text of one decimal digit.
fn digit_str(d: u8) -> (text: &'static str)
    requires
        d < 10,
    ensures
        text@ == seq![digit_char(d as int)],
{
    proof {
        reveal_strlit("0123456789");
        reveal_strlit("0");
        reveal_strlit("1");
        reveal_strlit("2");
        reveal_strlit("3");
        reveal_strlit("4");
        reveal_strlit("5");
        reveal_strlit("6");
        reveal_strlit("7");
        reveal_strlit("8");
        reveal_strlit("9");
    }
    let text = if d == 0 {
        "0"
    } else if d == 1 {
        "1"
    } else if d == 2 {
        "2"
    } else if d == 3 {
        "3"
    } else if d == 4 {
        "4"
    } else if d == 5 {
        "5"
    } else if d == 6 {
        "6"
    } else if d == 7 {
        "7"
    } else if d == 8 {
        "8"
    } else {
        "9"
    };
    assert(text@ =~= seq![digit_char(d as int)]);
    text
}

/// The digits that are still to be found: those of `rest`, or none once
/// `rest` is zero.
spec fn leading_digits(rest: nat) -> Seq<char> {
    if rest == 0 {
        Seq::empty()
    } else {
        decimal_text(rest)
    }
}

/// The text of digits that were found from the last to the first.
spec fn found_digits(places: Seq<u8>) -> Seq<char> {
    Seq::new(places.len(), |j: int| digit_char(places[places.len() - 1 - j] as int))
}

/// Writes an unsigned number in decimal digits.
pub fn unsigned_to_string(n: u64) -> (text: String)
    ensures
        text@ == unsigned_text(n),
{
    let mut places: Vec<u8> = Vec::new();
    let mut rest: u64 = n;
    places.push((rest % 10) as u8);
    rest = rest / 10;
    assert(decimal_text(n as nat) =~= leading_digits(rest as nat) + found_digits(places@));
    while rest > 0
        invariant
            places@.len() >= 1,
            forall|j: int| 0 <= j < places@.len() ==> #[trigger] places@[j] < 10,
            decimal_text(n as nat) == leading_digits(rest as nat) + found_digits(places@),
        decreases rest,
    {
        let d: u8 = (rest % 10) as u8;
        let ghost before = places@;
        places.push(d);
        assert(found_digits(places@) =~= seq![digit_char(d as int)] + found_digits(before));
        assert(leading_digits(rest as nat) =~= leading_digits((rest / 10) as nat).push(
            digit_char(d as int),
        ));
        rest = rest / 10;
        assert(decimal_text(n as nat) =~= leading_digits(rest as nat) + found_digits(places@));
    }
    let count: usize = places.len();
    let mut text = String::new();
    let mut i: usize = count;
    while i > 0
        invariant
            count == places@.len(),
            i <= count,
            forall|j: int| 0 <= j < places@.len() ==> #[trigger] places@[j] < 10,
            text@ == found_digits(places@).take(count - i),
        decreases i,
    {
        i -= 1;
        text.append(digit_str(places[i]));
        assert(text@ =~= found_digits(places@).take(count - i));
    }
    assert(found_digits(places@).take(count as int) =~= found_digits(places@));
    text
}

/// Writes a signed number in decimal digits, behind a minus sign where it
/// is negative.
pub fn signed_to_string(n: i64) -> (text: String)
    ensures
        text@ == signed_text(n),
{
    if n < 0 {
        let magnitude: u64 = ((-(n + 1)) as u64) + 1;
        let digits = unsigned_to_string(magnitude);
        let mut text = String::from_str("-");
        text.append(digits.as_str());
        proof {
            reveal_strlit("-");
            assert("-"@ =~= seq!['-']);
        }
        text
    } else {
        unsigned_to_string(n as u64)
    }
}

/// The text that stands for a truth value.
pub open spec fn bool_text(b: bool) -> Seq<char> {
    if b {
        "true"@
    } else {
        "false"@
    }
}

/// Writes a truth value as `true` or `false`.
pub fn bool_to_string(b: bool) -> (text: String)
    ensures
        text@ == bool_text(b),
{
    if b {
        String::from_str("true")
    } else {
        String::from_str("false")
    }
}

/// Tells whether `s` begins with `prefix`.
pub fn has_prefix(s: &str, prefix: &str) -> (found: bool)
    ensures
        found == prefix@.is_prefix_of(s@),
{
    let n: usize = prefix.unicode_len();
    if s.unicode_len() < n {
        return false;
    }
    let mut i: usize = 0;
    while i < n
        invariant
            n == prefix@.len(),
            n <= s@.len(),
            i <= n,
            forall|j: int| 0 <= j < i ==> s@[j] == prefix@[j],
        decreases n - i,
    {
        if s.get_char(i) != prefix.get_char(i) {
            return false;
        }
        i += 1;
    }
    assert(s@.subrange(0, n as int) =~= prefix@);
    true
}

/// The text that follows the first `n` characters of `s`.
pub fn skip_chars(s: &str, n: usize) -> (rest: &str)
    requires
        n <= s@.len(),
    ensures
        rest@ == s@.skip(n as int),
{
    let len: usize = s.unicode_len();
    s.substring_char(n, len)
}

} // verus!

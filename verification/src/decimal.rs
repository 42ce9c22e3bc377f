//! Decimal rendering of plane identifiers and the style tags built from it.

use vstd::prelude::*;
use vstd::string::*;

verus! {

/// The character of a single decimal digit.
pub open spec fn digit_char(d: nat) -> char {
    if d == 0 {
        '0'
    } else if d == 1 {
        '1'
    } else if d == 2 {
        '2'
    } else if d == 3 {
        '3'
    } else if d == 4 {
        '4'
    } else if d == 5 {
        '5'
    } else if d == 6 {
        '6'
    } else if d == 7 {
        '7'
    } else if d == 8 {
        '8'
    } else {
        '9'
    }
}

/// The decimal digits of `n`, most significant first, without leading zeros.
pub open spec fn decimal(n: nat) -> Seq<char>
    decreases n,
{
    if n < 10 {
        seq![digit_char(n)]
    } else {
        decimal(n / 10).push(digit_char(n % 10))
    }
}

/// The style tag of a live plane: `plane-` followed by its identifier.
pub open spec fn plane_tag(id: u64) -> Seq<char> {
    "plane-"@ + decimal(id as nat)
}

/// The style tag of a destroyed plane: `plane-killed-` followed by its identifier.
pub open spec fn killed_tag(id: u64) -> Seq<char> {
    "plane-killed-"@ + decimal(id as nat)
}

/// Every number has at least one decimal digit.
pub proof fn lemma_decimal_nonempty(n: nat)
    ensures
        decimal(n).len() >= 1,
    decreases n,
{
    if n >= 10 {
        lemma_decimal_nonempty(n / 10);
    }
}

/// A number has one decimal digit exactly when it is below ten.
pub proof fn lemma_decimal_single_digit(n: nat)
    ensures
        decimal(n).len() == 1 <==> n < 10,
{
    if n >= 10 {
        lemma_decimal_nonempty(n / 10);
    }
}

/// Different numbers have different decimal digits.
pub proof fn lemma_decimal_injective(a: nat, b: nat)
    requires
        decimal(a) == decimal(b),
    ensures
        a == b,
    decreases a,
{
    lemma_decimal_single_digit(a);
    lemma_decimal_single_digit(b);
    if a < 10 {
        assert(decimal(a)[0] == digit_char(a));
        assert(decimal(b)[0] == digit_char(b));
    } else {
        let da = decimal(a / 10);
        let db = decimal(b / 10);
        assert(decimal(a).last() == digit_char(a % 10));
        assert(decimal(b).last() == digit_char(b % 10));
        assert(decimal(a).drop_last() =~= da);
        assert(decimal(b).drop_last() =~= db);
        lemma_decimal_injective(a / 10, b / 10);
    }
}

/// Live planes with different identifiers have different tags.
pub proof fn lemma_plane_tag_injective(a: u64, b: u64)
    requires
        plane_tag(a) == plane_tag(b),
    ensures
        a == b,
{
    let prefix = "plane-"@;
    assert(plane_tag(a).subrange(prefix.len() as int, plane_tag(a).len() as int) =~= decimal(
        a as nat,
    ));
    assert(plane_tag(b).subrange(prefix.len() as int, plane_tag(b).len() as int) =~= decimal(
        b as nat,
    ));
    lemma_decimal_injective(a as nat, b as nat);
}

/// Destroyed planes with different identifiers have different tags.
pub proof fn lemma_killed_tag_injective(a: u64, b: u64)
    requires
        killed_tag(a) == killed_tag(b),
    ensures
        a == b,
{
    let prefix = "plane-killed-"@;
    assert(killed_tag(a).subrange(prefix.len() as int, killed_tag(a).len() as int) =~= decimal(
        a as nat,
    ));
    assert(killed_tag(b).subrange(prefix.len() as int, killed_tag(b).len() as int) =~= decimal(
        b as nat,
    ));
    lemma_decimal_injective(a as nat, b as nat);
}

/// The first decimal digit of a number is not the letter `k`.
proof fn lemma_decimal_starts_with_digit(n: nat)
    ensures
        decimal(n).len() >= 1,
        decimal(n)[0] != 'k',
    decreases n,
{
    if n >= 10 {
        lemma_decimal_starts_with_digit(n / 10);
    }
}

/// The tag of a live plane is never the tag of a destroyed plane, and neither is
/// the empty tag.
pub proof fn lemma_tags_distinct(live: u64, killed: u64)
    ensures
        plane_tag(live) != killed_tag(killed),
        plane_tag(live).len() > 0,
        killed_tag(killed).len() > 0,
{
    reveal_strlit("plane-");
    reveal_strlit("plane-killed-");
    lemma_decimal_starts_with_digit(live as nat);
    lemma_decimal_nonempty(killed as nat);
    assert(plane_tag(live)[6] == decimal(live as nat)[0]);
    assert(killed_tag(killed)[6] == 'k');
}

fn digit_str(d: u64) -> (s: &'static str)
    requires
        d < 10,
    ensures
        s@ == seq![digit_char(d as nat)],
{
    proof {
        reveal_strlit("0");
        reveal_strlit("1");
        reveal_strlit("2");
        reveal_strlit("3");
        reveal_strlit("4");
        reveal_strlit("5");
        reveal_strlit("6");
        reveal_strlit("7");
        reveal_strlit("8");
        reveal_strlit("9");
    }
    let s = if d == 0 {
        "0"
    } else if d == 1 {
        "1"
    } else if d == 2 {
        "2"
    } else if d == 3 {
        "3"
    } else if d == 4 {
        "4"
    } else if d == 5 {
        "5"
    } else if d == 6 {
        "6"
    } else if d == 7 {
        "7"
    } else if d == 8 {
        "8"
    } else {
        "9"
    };
    assert(s@ =~= seq![digit_char(d as nat)]);
    s
}

/// Renders `n` in decimal.
pub fn decimal_string(n: u64) -> (s: String)
    ensures
        s@ == decimal(n as nat),
{
    let mut s = String::from_str(digit_str(n % 10));
    let mut rest: u64 = n / 10;
    while rest > 0
        invariant
            rest > 0 ==> decimal(n as nat) == decimal(rest as nat) + s@,
            rest == 0 ==> decimal(n as nat) == s@,
        decreases rest,
    {
        let ghost tail = s@;
        let ghost prev = rest;
        s = String::from_str(digit_str(rest % 10)).concat(s.as_str());
        rest = rest / 10;
        proof {
            let d = digit_char((prev % 10) as nat);
            assert(s@ =~= seq![d] + tail);
            if prev >= 10 {
                assert(decimal(prev as nat) == decimal(rest as nat).push(d));
                assert(decimal(rest as nat).push(d) + tail =~= decimal(rest as nat) + s@);
            } else {
                assert(decimal(prev as nat) + tail =~= s@);
            }
        }
    }
    s
}

/// Renders the style tag of a live plane.
pub fn plane_tag_string(id: u64) -> (s: String)
    ensures
        s@ == plane_tag(id),
{
    let digits = decimal_string(id);
    String::from_str("plane-").concat(digits.as_str())
}

/// Renders the style tag of a destroyed plane.
pub fn killed_tag_string(id: u64) -> (s: String)
    ensures
        s@ == killed_tag(id),
{
    let digits = decimal_string(id);
    String::from_str("plane-killed-").concat(digits.as_str())
}

} // verus!

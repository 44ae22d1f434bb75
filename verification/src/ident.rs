//! Identity generation: every created bar or item gets a globally unique
//! identity string `"com.trevorbentley.<counter>"`, keyed by a strictly
//! increasing 64-bit serial number.

use vstd::prelude::*;

verus! {

/// The fixed prefix of every generated identity string.
pub open spec fn ident_prefix() -> Seq<char> {
    "com.trevorbentley."@
}

/// The character for a single decimal digit.
pub open spec fn spec_digit(d: nat) -> char {
    if d == 0 {
        '0'
    } else if d == 1 {
        '1'
    } else if d == 2 {
        '2'
    } else if d == 3 {
        '3'
    } else if d == 4 {
        '4'
    } else if d == 5 {
        '5'
    } else if d == 6 {
        '6'
    } else if d == 7 {
        '7'
    } else if d == 8 {
        '8'
    } else {
        '9'
    }
}

/// The decimal rendering of a number, most significant digit first.
pub open spec fn spec_decimal(n: nat) -> Seq<char>
    decreases n,
{
    if n < 10 {
        seq![spec_digit(n)]
    } else {
        spec_decimal(n / 10).push(spec_digit(n % 10))
    }
}

/// The numeric value of a digit character; 10 for anything that is not a
/// decimal digit.
pub open spec fn spec_digit_val(c: char) -> nat {
    if c == '0' {
        0
    } else if c == '1' {
        1
    } else if c == '2' {
        2
    } else if c == '3' {
        3
    } else if c == '4' {
        4
    } else if c == '5' {
        5
    } else if c == '6' {
        6
    } else if c == '7' {
        7
    } else if c == '8' {
        8
    } else if c == '9' {
        9
    } else {
        10
    }
}

/// Reads a digit sequence back into a number.
pub open spec fn spec_parse_decimal(s: Seq<char>) -> nat
    decreases s.len(),
{
    if s.len() <= 1 {
        if s.len() == 1 {
            spec_digit_val(s[0])
        } else {
            0
        }
    } else {
        spec_parse_decimal(s.drop_last()) * 10 + spec_digit_val(s.last())
    }
}

/// The identity string generated for serial number `n`.
pub open spec fn spec_ident(n: nat) -> Seq<char> {
    ident_prefix() + spec_decimal(n)
}

proof fn lemma_digit_val_of_digit(d: nat)
    requires
        d < 10,
    ensures
        spec_digit_val(spec_digit(d)) == d,
{
}

/// Rendering a number in decimal and parsing it back returns the number.
pub proof fn lemma_decimal_round_trip(n: nat)
    ensures
        spec_parse_decimal(spec_decimal(n)) == n,
    decreases n,
{
    if n < 10 {
        lemma_digit_val_of_digit(n);
    } else {
        lemma_decimal_round_trip(n / 10);
        lemma_digit_val_of_digit(n % 10);
        assert(spec_decimal(n).drop_last() =~= spec_decimal(n / 10));
    }
}

/// Distinct numbers have distinct decimal renderings.
pub proof fn lemma_decimal_injective(a: nat, b: nat)
    requires
        a != b,
    ensures
        spec_decimal(a) != spec_decimal(b),
{
    if spec_decimal(a) == spec_decimal(b) {
        lemma_decimal_round_trip(a);
        lemma_decimal_round_trip(b);
    }
}

/// Distinct serial numbers yield distinct identity strings.
pub proof fn lemma_ident_injective(a: nat, b: nat)
    requires
        a != b,
    ensures
        spec_ident(a) != spec_ident(b),
{
    if spec_ident(a) == spec_ident(b) {
        let pl = ident_prefix().len() as int;
        assert(spec_ident(a).subrange(pl, spec_ident(a).len() as int) =~= spec_decimal(a));
        assert(spec_ident(b).subrange(pl, spec_ident(b).len() as int) =~= spec_decimal(b));
        lemma_decimal_injective(a, b);
    }
}

/// One decimal digit as a string slice.
fn digit_str(d: u64) -> (r: &'static str)
    requires
        d < 10,
    ensures
        r@ == seq![spec_digit(d as nat)],
{
    let r: &'static str = if d == 0 {
        proof {
            reveal_strlit("0");
        }
        "0"
    } else if d == 1 {
        proof {
            reveal_strlit("1");
        }
        "1"
    } else if d == 2 {
        proof {
            reveal_strlit("2");
        }
        "2"
    } else if d == 3 {
        proof {
            reveal_strlit("3");
        }
        "3"
    } else if d == 4 {
        proof {
            reveal_strlit("4");
        }
        "4"
    } else if d == 5 {
        proof {
            reveal_strlit("5");
        }
        "5"
    } else if d == 6 {
        proof {
            reveal_strlit("6");
        }
        "6"
    } else if d == 7 {
        proof {
            reveal_strlit("7");
        }
        "7"
    } else if d == 8 {
        proof {
            reveal_strlit("8");
        }
        "8"
    } else {
        proof {
            reveal_strlit("9");
        }
        "9"
    };
    proof {
        assert(r@ =~= seq![spec_digit(d as nat)]);
    }
    r
}

/// Renders a number in decimal.
pub fn u64_to_decimal(n: u64) -> (r: String)
    ensures
        r@ == spec_decimal(n as nat),
    decreases n,
{
    if n < 10 {
        String::from_str(digit_str(n))
    } else {
        let mut s = u64_to_decimal(n / 10);
        s.append(digit_str(n % 10));
        proof {
            assert(s@ =~= spec_decimal(n as nat));
        }
        s
    }
}

/// Builds the identity string for serial number `n`.
pub fn ident_text(n: u64) -> (r: String)
    ensures
        r@ == spec_ident(n as nat),
{
    proof {
        reveal_strlit("com.trevorbentley.");
    }
    let mut s = String::from_str("com.trevorbentley.");
    let d = u64_to_decimal(n);
    s.append(d.as_str());
    proof {
        assert(s@ =~= spec_ident(n as nat));
    }
    s
}

} // verus!

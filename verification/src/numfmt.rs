//! Decimal rendering of the fixed-point quantities: plain integers,
//! load-average hundredths, and CPU percentages in hundredths of a percent.

use vstd::prelude::*;
use vstd::string::StringExecFns;

verus! {

/// The decimal digit character for `d` (meaningful for `d < 10`).
pub open spec fn digit_char(d: nat) -> char {
    if d == 0 {
        '0'
    } else if d == 1 {
        '1'
    } else if d == 2 {
        '2'
    } else if d == 3 {
        '3'
    } else if d == 4 {
        '4'
    } else if d == 5 {
        '5'
    } else if d == 6 {
        '6'
    } else if d == 7 {
        '7'
    } else if d == 8 {
        '8'
    } else {
        '9'
    }
}

pub open spec fn is_digit_char(c: char) -> bool {
    48 <= c as u32 && c as u32 <= 57
}

pub open spec fn digit_val(c: char) -> nat {
    (c as u32 - 48) as nat
}

pub proof fn lemma_digit_char_val(d: nat)
    requires
        d < 10,
    ensures
        is_digit_char(digit_char(d)),
        digit_val(digit_char(d)) == d,
{
}

/// The decimal digit string of `n`, most significant digit first.
pub open spec fn spec_digits(n: nat) -> Seq<char>
    decreases n,
{
    if n < 10 {
        seq![digit_char(n)]
    } else {
        spec_digits(n / 10) + seq![digit_char(n % 10)]
    }
}

pub proof fn lemma_spec_digits_len(n: nat)
    ensures
        spec_digits(n).len() >= 1,
    decreases n,
{
    if n >= 10 {
        lemma_spec_digits_len(n / 10);
    }
}

pub proof fn lemma_spec_digits_all_digits(n: nat)
    ensures
        forall|i: int| 0 <= i < spec_digits(n).len() ==> is_digit_char(#[trigger] spec_digits(n)[i]),
    decreases n,
{
    if n < 10 {
        lemma_digit_char_val(n);
    } else {
        lemma_spec_digits_all_digits(n / 10);
        lemma_digit_char_val(n % 10);
        assert forall|i: int| 0 <= i < spec_digits(n).len() implies is_digit_char(
            spec_digits(n)[i],
        ) by {
            if i < spec_digits(n / 10).len() {
                assert(spec_digits(n)[i] == spec_digits(n / 10)[i]);
            } else {
                assert(spec_digits(n)[i] == digit_char(n % 10));
            }
        }
    }
}

fn digit_str(d: u64) -> (r: &'static str)
    requires
        d < 10,
    ensures
        r@ == seq![digit_char(d as nat)],
{
    proof {
        reveal_strlit("0");
        reveal_strlit("1");
        reveal_strlit("2");
        reveal_strlit("3");
        reveal_strlit("4");
        reveal_strlit("5");
        reveal_strlit("6");
        reveal_strlit("7");
        reveal_strlit("8");
        reveal_strlit("9");
    }
    let r: &'static str = if d == 0 {
        "0"
    } else if d == 1 {
        "1"
    } else if d == 2 {
        "2"
    } else if d == 3 {
        "3"
    } else if d == 4 {
        "4"
    } else if d == 5 {
        "5"
    } else if d == 6 {
        "6"
    } else if d == 7 {
        "7"
    } else if d == 8 {
        "8"
    } else {
        "9"
    };
    proof {
        assert(r@ =~= seq![digit_char(d as nat)]);
    }
    r
}

/// Renders `n` in decimal.
pub fn u64_to_string(n: u64) -> (r: String)
    ensures
        r@ == spec_digits(n as nat),
    decreases n,
{
    if n < 10 {
        String::from_str(digit_str(n))
    } else {
        let mut s = u64_to_string(n / 10);
        s.append(digit_str(n % 10));
        s
    }
}

/// A value in hundredths rendered with its integer part, a point, and one
/// or two fraction digits: 100 is "1.0", 80 is "0.8", 123 is "1.23".
pub open spec fn spec_hundredths(v: nat) -> Seq<char> {
    if v % 10 == 0 {
        spec_digits(v / 100) + seq!['.', digit_char((v / 10) % 10)]
    } else {
        spec_digits(v / 100) + seq!['.', digit_char((v / 10) % 10), digit_char(v % 10)]
    }
}

pub fn hundredths_to_string(v: u64) -> (r: String)
    ensures
        r@ == spec_hundredths(v as nat),
{
    proof {
        reveal_strlit(".");
    }
    let mut s = u64_to_string(v / 100);
    s.append(".");
    s.append(digit_str((v / 10) % 10));
    if v % 10 != 0 {
        s.append(digit_str(v % 10));
        proof {
            assert(s@ =~= spec_hundredths(v as nat));
        }
    } else {
        proof {
            assert(s@ =~= spec_hundredths(v as nat));
        }
    }
    s
}

/// A percentage in hundredths of a percent, rendered the way the snapshot
/// shows it: whole percents bare ("50"), otherwise with one or two fraction
/// digits ("0.5", "33.33").
pub open spec fn spec_percent(bp: nat) -> Seq<char> {
    if bp % 100 == 0 {
        spec_digits(bp / 100)
    } else if bp % 10 == 0 {
        spec_digits(bp / 100) + seq!['.', digit_char((bp / 10) % 10)]
    } else {
        spec_digits(bp / 100) + seq!['.', digit_char((bp / 10) % 10), digit_char(bp % 10)]
    }
}

pub fn percent_to_string(bp: u32) -> (r: String)
    ensures
        r@ == spec_percent(bp as nat),
{
    proof {
        reveal_strlit(".");
    }
    let v: u64 = bp as u64;
    let mut s = u64_to_string(v / 100);
    if v % 100 == 0 {
        return s;
    }
    s.append(".");
    s.append(digit_str((v / 10) % 10));
    if v % 10 != 0 {
        s.append(digit_str(v % 10));
        proof {
            assert(s@ =~= spec_percent(bp as nat));
        }
    } else {
        proof {
            assert(s@ =~= spec_percent(bp as nat));
        }
    }
    s
}

} // verus!

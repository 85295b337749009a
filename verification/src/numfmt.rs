//! Decimal rendering of integers, used to build event identity strings and
//! notification texts.

use vstd::prelude::*;

verus! {

/// The character for one decimal digit value.
pub open spec fn digit_char(d: int) -> char
    recommends
        0 <= d < 10,
{
    if d == 0 {
        '0'
    } else if d == 1 {
        '1'
    } else if d == 2 {
        '2'
    } else if d == 3 {
        '3'
    } else if d == 4 {
        '4'
    } else if d == 5 {
        '5'
    } else if d == 6 {
        '6'
    } else if d == 7 {
        '7'
    } else if d == 8 {
        '8'
    } else {
        '9'
    }
}

/// The decimal digit string of a nonnegative integer, without sign and
/// without leading zeros (except for the single digit of zero itself).
pub open spec fn dec_digits(n: nat) -> Seq<char>
    decreases n,
{
    if n < 10 {
        seq![digit_char(n as int)]
    } else {
        dec_digits(n / 10) + seq![digit_char((n % 10) as int)]
    }
}

/// The decimal string of an integer: a `-` sign for negative values,
/// then the digits of the magnitude.
pub open spec fn dec_int(n: int) -> Seq<char> {
    if n < 0 {
        seq!['-'] + dec_digits((-n) as nat)
    } else {
        dec_digits(n as nat)
    }
}

/// Whether a character is one of the ten decimal digits.
pub open spec fn is_dec_digit(c: char) -> bool {
    48 <= c as u32 <= 57
}

/// The numeric value of a decimal digit character.
pub open spec fn digit_val(c: char) -> int
    recommends
        is_dec_digit(c),
{
    c as u32 - 48
}

fn digit_literal(d: u64) -> (r: &'static str)
    requires
        d < 10,
    ensures
        r@ == seq![digit_char(d as int)],
{
    proof {
        reveal_strlit("0");
        reveal_strlit("1");
        reveal_strlit("2");
        reveal_strlit("3");
        reveal_strlit("4");
        reveal_strlit("5");
        reveal_strlit("6");
        reveal_strlit("7");
        reveal_strlit("8");
        reveal_strlit("9");
    }
    match d {
        0 => "0",
        1 => "1",
        2 => "2",
        3 => "3",
        4 => "4",
        5 => "5",
        6 => "6",
        7 => "7",
        8 => "8",
        _ => "9",
    }
}

/// Renders an unsigned value in decimal.
pub fn u64_to_dec(n: u64) -> (r: String)
    ensures
        r@ == dec_digits(n as nat),
    decreases n,
{
    if n < 10 {
        String::from_str(digit_literal(n))
    } else {
        let mut s = u64_to_dec(n / 10);
        s.append(digit_literal(n % 10));
        s
    }
}

/// Renders a signed value in decimal, as an event's timestamp is rendered
/// when its identity string is formed.
pub fn i64_to_dec(n: i64) -> (r: String)
    ensures
        r@ == dec_int(n as int),
{
    if n >= 0 {
        u64_to_dec(n as u64)
    } else {
        let magnitude: u64 = ((-(n + 1)) as u64) + 1;
        assert(magnitude as int == -(n as int));
        let mut s = String::from_str("-");
        proof {
            reveal_strlit("-");
        }
        s.append(u64_to_dec(magnitude).as_str());
        assert(s@ =~= dec_int(n as int));
        s
    }
}

/// Every character of a decimal digit string is a digit; in particular the
/// string never starts with a sign.
pub proof fn lemma_dec_digits_are_digits(n: nat)
    ensures
        dec_digits(n).len() >= 1,
        forall|i: int| 0 <= i < dec_digits(n).len() ==> is_dec_digit(#[trigger] dec_digits(n)[i]),
    decreases n,
{
    if n >= 10 {
        lemma_dec_digits_are_digits(n / 10);
    }
}

/// Distinct nonnegative integers render to distinct digit strings.
pub proof fn lemma_dec_digits_injective(a: nat, b: nat)
    requires
        dec_digits(a) == dec_digits(b),
    ensures
        a == b,
    decreases a + b,
{
    if a < 10 && b < 10 {
        assert(dec_digits(a)[0] == digit_char(a as int));
        assert(dec_digits(b)[0] == digit_char(b as int));
    } else if a < 10 {
        lemma_dec_digits_are_digits(b / 10);
        assert(dec_digits(b).len() >= 2);
    } else if b < 10 {
        lemma_dec_digits_are_digits(a / 10);
        assert(dec_digits(a).len() >= 2);
    } else {
        let pa = dec_digits(a / 10);
        let pb = dec_digits(b / 10);
        assert(dec_digits(a).len() == pa.len() + 1);
        assert(dec_digits(b).len() == pb.len() + 1);
        assert(pa.len() == pb.len());
        assert(pa =~= pb) by {
            assert forall|i: int| 0 <= i < pa.len() implies pa[i] == pb[i] by {
                assert((pa + seq![digit_char((a % 10) as int)])[i] == pa[i]);
                assert((pb + seq![digit_char((b % 10) as int)])[i] == pb[i]);
            }
        }
        lemma_dec_digits_injective(a / 10, b / 10);
        assert(dec_digits(a).last() == digit_char((a % 10) as int));
        assert(dec_digits(b).last() == digit_char((b % 10) as int));
        assert(a % 10 == b % 10);
    }
}

/// Distinct integers render to distinct decimal strings.
pub proof fn lemma_dec_int_injective(a: int, b: int)
    requires
        dec_int(a) == dec_int(b),
    ensures
        a == b,
{
    if a < 0 && b < 0 {
        let da = dec_digits((-a) as nat);
        let db = dec_digits((-b) as nat);
        assert(dec_int(a) == seq!['-'] + da);
        assert(dec_int(b) == seq!['-'] + db);
        assert((seq!['-'] + da).len() == 1 + da.len());
        assert((seq!['-'] + db).len() == 1 + db.len());
        assert(da =~= db) by {
            assert forall|i: int| 0 <= i < da.len() implies da[i] == db[i] by {
                assert((seq!['-'] + da)[i + 1] == da[i]);
                assert((seq!['-'] + db)[i + 1] == db[i]);
            }
        }
        lemma_dec_digits_injective((-a) as nat, (-b) as nat);
    } else if a < 0 {
        lemma_dec_digits_are_digits(b as nat);
        assert(dec_int(a)[0] == '-');
        assert(is_dec_digit(dec_int(b)[0]));
        assert('-' as u32 == 45);
    } else if b < 0 {
        lemma_dec_digits_are_digits(a as nat);
        assert(dec_int(b)[0] == '-');
        assert(is_dec_digit(dec_int(a)[0]));
        assert('-' as u32 == 45);
    } else {
        lemma_dec_digits_injective(a as nat, b as nat);
    }
}

} // verus!

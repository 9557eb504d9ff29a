//! Text helpers: joining strings and reading and writing integers.
use vstd::prelude::*;

use crate::bindings::names;

verus! {

/// `parts` joined with `sep` between consecutive parts.
pub open spec fn join(parts: Seq<Seq<char>>, sep: Seq<char>) -> Seq<char>
    decreases parts.len(),
{
    if parts.len() == 0 {
        Seq::empty()
    } else if parts.len() == 1 {
        parts[0]
    } else {
        join(parts.drop_last(), sep) + sep + parts.last()
    }
}

/// Joins `parts` with `sep` between consecutive parts.
pub fn join_strings(parts: &Vec<String>, sep: &str) -> (r: String)
    ensures
        r@ == join(names(parts@), sep@),
{
    let mut r = String::new();
    let mut i: usize = 0;
    while i < parts.len()
        invariant
            i <= parts@.len(),
            r@ == join(names(parts@.take(i as int)), sep@),
        decreases parts@.len() - i,
    {
        assert(names(parts@.take(i + 1)).drop_last() =~= names(parts@.take(i as int)));
        if i != 0 {
            r.append(sep);
        }
        r.append(parts[i].as_str());
        i = i + 1;
    }
    assert(parts@.take(parts@.len() as int) =~= parts@);
    r
}

// ---------------------------------------------------------------------------
// Reading integers in a radix
// ---------------------------------------------------------------------------

/// The value of a digit character in radix up to 36 (36 for a non-digit).
pub open spec fn digit_value(c: char) -> int {
    if '0' <= c && c <= '9' {
        c as int - '0' as int
    } else if 'a' <= c && c <= 'z' {
        c as int - 'a' as int + 10
    } else if 'A' <= c && c <= 'Z' {
        c as int - 'A' as int + 10
    } else {
        36
    }
}

/// Every character of `s` is a digit in `radix`.
pub open spec fn digits_valid(s: Seq<char>, radix: int) -> bool {
    forall|i: int| 0 <= i < s.len() ==> #[trigger] digit_value(s[i]) < radix
}

/// The number that the digits `s` denote in `radix`, most significant first.
pub open spec fn digits_value(s: Seq<char>, radix: int) -> int
    decreases s.len(),
{
    if s.len() == 0 {
        0
    } else {
        digits_value(s.drop_last(), radix) * radix + digit_value(s.last())
    }
}

/// The `i64` that `s` denotes in `radix`: an optional sign, then at least one
/// digit; `None` for any other text and for a value outside the `i64` range.
pub open spec fn i64_from_radix(s: Seq<char>, radix: int) -> Option<int> {
    if s.len() == 0 {
        None
    } else if (s[0] == '+' || s[0] == '-') && s.len() == 1 {
        None
    } else {
        let signed = s[0] == '+' || s[0] == '-';
        let digits = if signed {
            s.drop_first()
        } else {
            s
        };
        let v = if s[0] == '-' {
            -digits_value(digits, radix)
        } else {
            digits_value(digits, radix)
        };
        if !digits_valid(digits, radix) {
            None
        } else if i64::MIN <= v <= i64::MAX {
            Some(v)
        } else {
            None
        }
    }
}

proof fn lemma_digits_value_nonneg(s: Seq<char>, radix: int)
    requires
        radix >= 1,
    ensures
        digits_value(s, radix) >= 0,
    decreases s.len(),
{
    if s.len() > 0 {
        lemma_digits_value_nonneg(s.drop_last(), radix);
        assert(digits_value(s.drop_last(), radix) * radix >= 0) by (nonlinear_arith)
            requires
                digits_value(s.drop_last(), radix) >= 0,
                radix >= 1,
        ;
    }
}

/// A longer prefix of digits denotes at least as large a number.
proof fn lemma_digits_value_grows(s: Seq<char>, i: int, j: int, radix: int)
    requires
        radix >= 1,
        0 <= i <= j <= s.len(),
    ensures
        digits_value(s.take(i), radix) <= digits_value(s.take(j), radix),
    decreases j - i,
{
    if i < j {
        lemma_digits_value_grows(s, i, j - 1, radix);
        assert(s.take(j).drop_last() =~= s.take(j - 1));
        let p = digits_value(s.take(j - 1), radix);
        lemma_digits_value_nonneg(s.take(j - 1), radix);
        assert(p <= p * radix) by (nonlinear_arith)
            requires
                p >= 0,
                radix >= 1,
        ;
    }
}

fn char_digit_value(c: char) -> (d: u32)
    ensures
        d == digit_value(c),
{
    if '0' <= c && c <= '9' {
        (c as u32) - ('0' as u32)
    } else if 'a' <= c && c <= 'z' {
        (c as u32) - ('a' as u32) + 10
    } else if 'A' <= c && c <= 'Z' {
        (c as u32) - ('A' as u32) + 10
    } else {
        36
    }
}

/// Reads `s` as a signed 64-bit integer in `radix`, as `i64::from_str_radix` does.
pub fn i64_parse_radix(s: &str, radix: u32) -> (r: Option<i64>)
    requires
        2 <= radix <= 36,
    ensures
        match r {
            Some(v) => i64_from_radix(s@, radix as int) == Some(v as int),
            None => i64_from_radix(s@, radix as int) is None,
        },
{
    let len = s.unicode_len();
    if len == 0 {
        return None;
    }
    let first = s.get_char(0);
    let signed = first == '+' || first == '-';
    if signed && len == 1 {
        return None;
    }
    let start: usize = if signed {
        1
    } else {
        0
    };
    let ghost digits = if signed {
        s@.drop_first()
    } else {
        s@
    };
    assert(digits =~= s@.skip(start as int));
    let limit: u128 = 0x8000_0000_0000_0000;
    let mut acc: u128 = 0;
    let mut i: usize = start;
    while i < len
        invariant
            len == s@.len(),
            len > 0,
            first == s@[0],
            signed == (first == '+' || first == '-'),
            signed ==> len > 1,
            start == (if signed { 1usize } else { 0usize }),
            start <= i <= len,
            start <= 1,
            digits =~= s@.skip(start as int),
            2 <= radix <= 36,
            limit == 0x8000_0000_0000_0000u128,
            acc <= limit,
            acc == digits_value(digits.take(i - start), radix as int),
            digits_valid(digits.take(i - start), radix as int),
        decreases len - i,
    {
        let c = s.get_char(i);
        let d = char_digit_value(c);
        let ghost k = i - start;
        assert(digits[k] == c);
        if d >= radix {
            assert(!digits_valid(digits, radix as int)) by {
                assert(digit_value(digits[k]) >= radix);
            }
            return None;
        }
        assert(digits.take(k + 1).drop_last() =~= digits.take(k));
        assert(acc * (radix as u128) <= limit * 36) by (nonlinear_arith)
            requires
                acc <= limit,
                radix <= 36,
        ;
        acc = acc * (radix as u128) + (d as u128);
        assert(digits_valid(digits.take(k + 1), radix as int)) by {
            assert forall|j: int| 0 <= j < k + 1 implies #[trigger] digit_value(
                digits.take(k + 1)[j],
            ) < radix by {
                if j < k {
                    assert(digits.take(k + 1)[j] == digits.take(k)[j]);
                }
            }
        }
        assert(acc == digits_value(digits.take(k + 1), radix as int));
        if acc > limit {
            proof {
                lemma_digits_value_grows(digits, k + 1, digits.len() as int, radix as int);
                assert(digits.take(digits.len() as int) =~= digits);
                assert(digits_value(digits, radix as int) > 0x8000_0000_0000_0000);
                assert(digits == (if s@[0] == '+' || s@[0] == '-' { s@.drop_first() } else { s@ }));
                assert(i64_from_radix(s@, radix as int) is None);
            }
            return None;
        }
        i = i + 1;
    }
    assert(digits.take(len - start) =~= digits);
    if first == '-' {
        if acc == limit {
            Some(-0x7fff_ffff_ffff_ffff - 1)
        } else {
            Some(-(acc as i64))
        }
    } else {
        if acc == limit {
            None
        } else {
            Some(acc as i64)
        }
    }
}

// ---------------------------------------------------------------------------
// Writing integers in decimal
// ---------------------------------------------------------------------------

/// The decimal digit character for `d < 10`.
pub open spec fn digit_char(d: nat) -> char {
    if d == 0 {
        '0'
    } else if d == 1 {
        '1'
    } else if d == 2 {
        '2'
    } else if d == 3 {
        '3'
    } else if d == 4 {
        '4'
    } else if d == 5 {
        '5'
    } else if d == 6 {
        '6'
    } else if d == 7 {
        '7'
    } else if d == 8 {
        '8'
    } else {
        '9'
    }
}

/// The decimal digits of `n`, with no leading zero.
pub open spec fn nat_decimal(n: nat) -> Seq<char>
    decreases n,
{
    if n < 10 {
        seq![digit_char(n)]
    } else {
        nat_decimal(n / 10).push(digit_char(n % 10))
    }
}

/// The decimal text of `v`, with a leading `-` when negative.
pub open spec fn int_decimal(v: int) -> Seq<char> {
    if v < 0 {
        seq!['-'] + nat_decimal((-v) as nat)
    } else {
        nat_decimal(v as nat)
    }
}

fn digit_str(d: u64) -> (r: &'static str)
    requires
        d < 10,
    ensures
        r@ == seq![digit_char(d as nat)],
{
    if d == 0 {
        proof {
            reveal_strlit("0");
        }
        "0"
    } else if d == 1 {
        proof {
            reveal_strlit("1");
        }
        "1"
    } else if d == 2 {
        proof {
            reveal_strlit("2");
        }
        "2"
    } else if d == 3 {
        proof {
            reveal_strlit("3");
        }
        "3"
    } else if d == 4 {
        proof {
            reveal_strlit("4");
        }
        "4"
    } else if d == 5 {
        proof {
            reveal_strlit("5");
        }
        "5"
    } else if d == 6 {
        proof {
            reveal_strlit("6");
        }
        "6"
    } else if d == 7 {
        proof {
            reveal_strlit("7");
        }
        "7"
    } else if d == 8 {
        proof {
            reveal_strlit("8");
        }
        "8"
    } else {
        proof {
            reveal_strlit("9");
        }
        "9"
    }
}

fn append_decimal(out: &mut String, n: u64)
    ensures
        final(out)@ == old(out)@ + nat_decimal(n as nat),
    decreases n,
{
    if n >= 10 {
        append_decimal(out, n / 10);
    }
    out.append(digit_str(n % 10));
    assert(final(out)@ =~= old(out)@ + nat_decimal(n as nat));
}

/// The decimal text of `v`, as `i64::to_string` writes it.
pub fn i64_to_decimal(v: i64) -> (r: String)
    ensures
        r@ == int_decimal(v as int),
{
    let mut r = String::new();
    if v < 0 {
        proof {
            reveal_strlit("-");
        }
        r.append("-");
        let magnitude: u64 = ((-(v + 1)) as u64) + 1;
        append_decimal(&mut r, magnitude);
    } else {
        append_decimal(&mut r, v as u64);
    }
    r
}

// ---------------------------------------------------------------------------
// Reading back what was written
// ---------------------------------------------------------------------------

proof fn lemma_digit_char(d: nat)
    requires
        d < 10,
    ensures
        digit_value(digit_char(d)) == d,
        digit_char(d) != '+' && digit_char(d) != '-',
{
}

proof fn lemma_nat_decimal_digits(n: nat)
    ensures
        nat_decimal(n).len() > 0,
        digits_valid(nat_decimal(n), 10),
        digits_value(nat_decimal(n), 10) == n,
        nat_decimal(n)[0] != '+' && nat_decimal(n)[0] != '-',
    decreases n,
{
    if n < 10 {
        lemma_digit_char(n);
        let s = nat_decimal(n);
        assert(s.drop_last() =~= Seq::<char>::empty());
        assert(digits_value(s.drop_last(), 10) == 0);
    } else {
        let q = n / 10;
        let d = n % 10;
        lemma_nat_decimal_digits(q);
        lemma_digit_char(d);
        let s = nat_decimal(n);
        assert(s == nat_decimal(q).push(digit_char(d)));
        assert(s.drop_last() =~= nat_decimal(q));
        assert(digits_valid(s, 10)) by {
            assert forall|i: int| 0 <= i < s.len() implies #[trigger] digit_value(s[i]) < 10 by {
                if i < s.len() - 1 {
                    assert(s[i] == nat_decimal(q)[i]);
                }
            }
        }
        assert(n == q * 10 + d) by (nonlinear_arith)
            requires
                q == n / 10,
                d == n % 10,
        ;
        assert(s[0] == nat_decimal(q)[0]);
    }
}

/// The decimal text written for a 64-bit integer reads back, in radix 10, as
/// that integer.
pub proof fn law_decimal_read_back(v: i64)
    ensures
        i64_from_radix(int_decimal(v as int), 10) == Some(v as int),
{
    let s = int_decimal(v as int);
    if v < 0 {
        let m = (-(v as int)) as nat;
        lemma_nat_decimal_digits(m);
        assert(s[0] == '-');
        assert(s.drop_first() =~= nat_decimal(m));
    } else {
        lemma_nat_decimal_digits(v as nat);
    }
}

} // verus!

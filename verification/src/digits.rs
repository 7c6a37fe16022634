//! Decimal text for the integer ids and prices the bot prints and reads.
//! Formatting and parsing are specified against each other over `Seq<char>`.

use vstd::prelude::*;

verus! {

/// The character for one decimal digit value in 0..10.
pub open spec fn digit_char(d: int) -> char {
    if d == 0 {
        '0'
    } else if d == 1 {
        '1'
    } else if d == 2 {
        '2'
    } else if d == 3 {
        '3'
    } else if d == 4 {
        '4'
    } else if d == 5 {
        '5'
    } else if d == 6 {
        '6'
    } else if d == 7 {
        '7'
    } else if d == 8 {
        '8'
    } else {
        '9'
    }
}

/// Decimal digits of a non-negative integer, most significant first.
pub open spec fn dec_digits(n: int) -> Seq<char>
    decreases n,
{
    if n < 10 {
        seq![digit_char(n)]
    } else {
        dec_digits(n / 10) + seq![digit_char(n % 10)]
    }
}

/// Decimal form of a signed integer, as Rust's formatter prints it.
pub open spec fn dec_int(n: int) -> Seq<char> {
    if n < 0 {
        seq!['-'] + dec_digits(-n)
    } else {
        dec_digits(n)
    }
}

/// Whether `c` is an ASCII decimal digit.
pub open spec fn is_digit(c: char) -> bool {
    c == '0' || c == '1' || c == '2' || c == '3' || c == '4' || c == '5' || c == '6' || c == '7'
        || c == '8' || c == '9'
}

/// The value of a digit character; meaningful only under `is_digit`.
pub open spec fn digit_val(c: char) -> int {
    if c == '0' {
        0
    } else if c == '1' {
        1
    } else if c == '2' {
        2
    } else if c == '3' {
        3
    } else if c == '4' {
        4
    } else if c == '5' {
        5
    } else if c == '6' {
        6
    } else if c == '7' {
        7
    } else if c == '8' {
        8
    } else {
        9
    }
}

/// Whether every character of `s` is an ASCII decimal digit.
pub open spec fn all_digits(s: Seq<char>) -> bool {
    forall|i: int| 0 <= i < s.len() ==> is_digit(#[trigger] s[i])
}

/// The non-negative value written by a digit string, most significant first.
pub open spec fn digits_val(s: Seq<char>) -> int
    decreases s.len(),
{
    if s.len() == 0 {
        0
    } else {
        digits_val(s.drop_last()) * 10 + digit_val(s.last())
    }
}

/// The integer written by `s` under Rust's `i32::from_str` grammar (an
/// optional sign, then one or more ASCII digits), before any range check.
pub open spec fn int_str_value(s: Seq<char>) -> Option<int> {
    if s.len() > 0 && (s[0] == '-' || s[0] == '+') {
        if s.len() > 1 && all_digits(s.subrange(1, s.len() as int)) {
            let m = digits_val(s.subrange(1, s.len() as int));
            Some(if s[0] == '-' { -m } else { m })
        } else {
            None
        }
    } else if s.len() > 0 && all_digits(s) {
        Some(digits_val(s))
    } else {
        None
    }
}

/// What Rust's `str::parse::<i32>` returns on `s`: the written value when the
/// text is well formed and in range, nothing otherwise.
pub open spec fn parse_i32_spec(s: Seq<char>) -> Option<int> {
    match int_str_value(s) {
        Some(v) => if i32::MIN <= v <= i32::MAX {
            Some(v)
        } else {
            None
        },
        None => None,
    }
}

/// The parse result with failures defaulted to zero, the convention every
/// command argument of the bot follows.
pub open spec fn parse_or_zero_spec(s: Seq<char>) -> int {
    match parse_i32_spec(s) {
        Some(v) => v,
        None => 0,
    }
}

pub proof fn lemma_digits_val_nonneg(s: Seq<char>)
    requires
        all_digits(s),
    ensures
        digits_val(s) >= 0,
    decreases s.len(),
{
    if s.len() > 0 {
        assert(all_digits(s.drop_last())) by {
            assert(forall|i: int|
                0 <= i < s.drop_last().len() ==> s.drop_last()[i] == #[trigger] s[i]);
        }
        lemma_digits_val_nonneg(s.drop_last());
    }
}

fn digit_str(d: u32) -> (r: &'static str)
    requires
        d < 10,
    ensures
        r@ =~= seq![digit_char(d as int)],
{
    proof {
        reveal_strlit("0");
        reveal_strlit("1");
        reveal_strlit("2");
        reveal_strlit("3");
        reveal_strlit("4");
        reveal_strlit("5");
        reveal_strlit("6");
        reveal_strlit("7");
        reveal_strlit("8");
        reveal_strlit("9");
    }
    match d {
        0 => "0",
        1 => "1",
        2 => "2",
        3 => "3",
        4 => "4",
        5 => "5",
        6 => "6",
        7 => "7",
        8 => "8",
        _ => "9",
    }
}

/// The value of a digit character, or nothing for any other character.
fn digit_of(c: char) -> (r: Option<u32>)
    ensures
        r is Some <==> is_digit(c),
        r is Some ==> r->0 as int == digit_val(c),
{
    match c {
        '0' => Some(0),
        '1' => Some(1),
        '2' => Some(2),
        '3' => Some(3),
        '4' => Some(4),
        '5' => Some(5),
        '6' => Some(6),
        '7' => Some(7),
        '8' => Some(8),
        '9' => Some(9),
        _ => None,
    }
}

/// Prints `n` in decimal.
pub fn u32_to_string(n: u32) -> (r: String)
    ensures
        r@ == dec_digits(n as int),
    decreases n,
{
    if n < 10 {
        let r = String::from_str(digit_str(n));
        proof {
            assert(dec_digits(n as int) =~= seq![digit_char(n as int)]);
        }
        r
    } else {
        let prefix = u32_to_string(n / 10);
        let r = prefix.concat(digit_str(n % 10));
        proof {
            assert(dec_digits(n as int) =~= dec_digits(n as int / 10) + seq![
                digit_char(n as int % 10),
            ]);
        }
        r
    }
}

/// Prints `n` in decimal, with a leading minus sign when negative.
pub fn i32_to_string(n: i32) -> (r: String)
    ensures
        r@ == dec_int(n as int),
{
    if n >= 0 {
        u32_to_string(n as u32)
    } else {
        let mag: u32 = (-(n as i64)) as u32;
        let r = String::from_str("-").concat(u32_to_string(mag).as_str());
        proof {
            reveal_strlit("-");
        }
        r
    }
}

/// Prints `n` in decimal.
pub fn u64_to_string(n: u64) -> (r: String)
    ensures
        r@ == dec_digits(n as int),
    decreases n,
{
    if n < 10 {
        let r = String::from_str(digit_str(n as u32));
        proof {
            assert(dec_digits(n as int) =~= seq![digit_char(n as int)]);
        }
        r
    } else {
        let prefix = u64_to_string(n / 10);
        let r = prefix.concat(digit_str((n % 10) as u32));
        proof {
            assert(dec_digits(n as int) =~= dec_digits(n as int / 10) + seq![
                digit_char(n as int % 10),
            ]);
        }
        r
    }
}

/// Prints `n` in decimal, with a leading minus sign when negative.
pub fn i64_to_string(n: i64) -> (r: String)
    ensures
        r@ == dec_int(n as int),
{
    if n >= 0 {
        u64_to_string(n as u64)
    } else {
        let mag: u64 = (-(n as i128)) as u64;
        let r = String::from_str("-").concat(u64_to_string(mag).as_str());
        proof {
            reveal_strlit("-");
        }
        r
    }
}

/// Parses `s` as Rust's `i32::from_str` does.
pub fn parse_i32(s: &str) -> (r: Option<i32>)
    ensures
        r is Some <==> parse_i32_spec(s@) is Some,
        r is Some ==> r->0 as int == parse_i32_spec(s@)->0,
{
    let n = s.unicode_len();
    if n == 0 {
        return None;
    }
    let first = s.get_char(0);
    let (negative, start): (bool, usize) = if first == '-' {
        (true, 1)
    } else if first == '+' {
        (false, 1)
    } else {
        (false, 0)
    };
    if start >= n {
        // a bare sign
        return None;
    }
    let ghost digits = s@.subrange(start as int, n as int);
    // the magnitude, saturated just above what any i32 can reach
    let cap: u64 = 0x8000_0000;
    let mut acc: u64 = 0;
    let mut big = false;
    let mut i: usize = start;
    while i < n
        invariant
            start <= i <= n,
            n == s@.len(),
            start == 0 || start == 1,
            start == 1 ==> s@[0] == '-' || s@[0] == '+',
            start == 0 ==> !(s@[0] == '-' || s@[0] == '+'),
            all_digits(s@.subrange(start as int, i as int)),
            !big ==> acc as int == digits_val(s@.subrange(start as int, i as int)) && acc <= cap,
            big ==> digits_val(s@.subrange(start as int, i as int)) > cap,
            cap == 0x8000_0000,
        decreases n - i,
    {
        let c = s.get_char(i);
        let ghost pre = s@.subrange(start as int, i as int);
        let ghost cur = s@.subrange(start as int, i as int + 1);
        match digit_of(c) {
            None => {
                proof {
                    if start == 1 {
                        let rest = s@.subrange(1, s@.len() as int);
                        assert(rest[i - 1] == s@[i as int]);
                        assert(!all_digits(rest));
                    } else {
                        assert(!all_digits(s@));
                    }
                }
                return None;
            },
            Some(d) => {
                proof {
                    assert(cur.drop_last() =~= pre);
                    assert(all_digits(cur));
                }
                if big {
                    proof {
                        lemma_digits_val_nonneg(pre);
                    }
                } else {
                    let next = acc * 10 + (d as u64);
                    if next > cap {
                        big = true;
                    } else {
                        acc = next;
                    }
                }
            },
        }
        i += 1;
    }
    proof {
        assert(s@.subrange(start as int, n as int) =~= digits);
        if start == 1 {
            assert(s@.subrange(1, s@.len() as int) =~= digits);
        } else {
            assert(s@.subrange(0, s@.len() as int) =~= s@);
            assert(digits =~= s@);
        }
        lemma_digits_val_nonneg(digits);
    }
    if big {
        return None;
    }
    if negative {
        if acc > cap {
            None
        } else {
            Some((-(acc as i64)) as i32)
        }
    } else {
        if acc >= cap {
            None
        } else {
            Some(acc as i32)
        }
    }
}

/// Parses `s` as an `i32`, with every failure defaulted to zero, as the
/// command grammar requires of numeric arguments.
pub fn parse_i32_or_zero(s: &str) -> (r: i32)
    ensures
        r as int == parse_or_zero_spec(s@),
{
    match parse_i32(s) {
        Some(v) => v,
        None => 0,
    }
}


pub proof fn lemma_dec_digits_are_digits(n: int)
    requires
        n >= 0,
    ensures
        all_digits(dec_digits(n)),
        dec_digits(n).len() >= 1,
    decreases n,
{
    if n < 10 {
        assert(is_digit(digit_char(n)));
        assert(forall|i: int|
            0 <= i < dec_digits(n).len() ==> is_digit(#[trigger] dec_digits(n)[i]));
    } else {
        lemma_dec_digits_are_digits(n / 10);
        assert(is_digit(digit_char(n % 10)));
        assert forall|i: int|
            0 <= i < dec_digits(n).len() implies is_digit(#[trigger] dec_digits(n)[i]) by {
            if i < dec_digits(n / 10).len() {
                assert(dec_digits(n)[i] == dec_digits(n / 10)[i]);
            } else {
                assert(dec_digits(n)[i] == digit_char(n % 10));
            }
        }
    }
}

pub proof fn lemma_dec_digits_value(n: int)
    requires
        n >= 0,
    ensures
        digits_val(dec_digits(n)) == n,
    decreases n,
{
    if n < 10 {
        let s = dec_digits(n);
        assert(s =~= seq![digit_char(n)]);
        assert(s.drop_last() =~= Seq::<char>::empty());
        assert(digits_val(s.drop_last()) == 0);
        assert(digits_val(s) == digits_val(s.drop_last()) * 10 + digit_val(s.last()));
        assert(s.last() == digit_char(n));
        assert(digit_val(digit_char(n)) == n);
    } else {
        lemma_dec_digits_value(n / 10);
        let s = dec_digits(n);
        assert(s =~= dec_digits(n / 10) + seq![digit_char(n % 10)]);
        assert(s.drop_last() =~= dec_digits(n / 10));
        assert(s.last() == digit_char(n % 10));
        assert(s.len() >= 1);
        assert(digits_val(s) == digits_val(s.drop_last()) * 10 + digit_val(s.last()));
        assert(digit_val(digit_char(n % 10)) == n % 10);
        assert((n / 10) * 10 + n % 10 == n);
    }
}

/// Printing an `i32` and parsing the text back yields the same value: the
/// decimal writer and the parser are mutual inverses on the type's range.
pub proof fn lemma_parse_of_print(v: int)
    requires
        i32::MIN <= v <= i32::MAX,
    ensures
        parse_i32_spec(dec_int(v)) == Some(v),
{
    if v >= 0 {
        lemma_dec_digits_are_digits(v);
        lemma_dec_digits_value(v);
        let s = dec_int(v);
        assert(s == dec_digits(v));
        assert(is_digit(s[0]));
        assert(s[0] != '-' && s[0] != '+');
        assert(int_str_value(s) == Some(v));
    } else {
        lemma_dec_digits_are_digits(-v);
        lemma_dec_digits_value(-v);
        let s = dec_int(v);
        assert(s =~= seq!['-'] + dec_digits(-v));
        assert(s[0] == '-');
        assert(s.len() > 1);
        assert(s.subrange(1, s.len() as int) =~= dec_digits(-v));
        assert(int_str_value(s) == Some(v));
    }
}

} // verus!

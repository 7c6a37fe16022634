//! The three-integer keys that callback payloads and commands carry, written
//! `A_B_C`; the triple is always present, unused positions are zero-filled.

use vstd::prelude::*;
use crate::digits::{
    dec_int, parse_i32_spec, i32_to_string, parse_i32,
};

verus! {

/// The text of the key for the triple `(a, b, c)`.
pub open spec fn key3_str(a: int, b: int, c: int) -> Seq<char> {
    dec_int(a) + seq!['_'] + dec_int(b) + seq!['_'] + dec_int(c)
}

/// The least position of `c` in `s` at or after `from`, if any.
pub open spec fn find_char(s: Seq<char>, c: char, from: int) -> Option<int>
    decreases s.len() - from,
    when 0 <= from <= s.len()
{
    if from >= s.len() {
        None
    } else if s[from] == c {
        Some(from)
    } else {
        find_char(s, c, from + 1)
    }
}

/// The three fields of a key: the text before the first underscore, between
/// it and the next one, and everything after that.
pub open spec fn key3_parts(s: Seq<char>) -> Option<(Seq<char>, Seq<char>, Seq<char>)> {
    match find_char(s, '_', 0) {
        None => None,
        Some(i) => match find_char(s, '_', i + 1) {
            None => None,
            Some(j) => Some(
                (s.subrange(0, i), s.subrange(i + 1, j), s.subrange(j + 1, s.len() as int)),
            ),
        },
    }
}

/// The triple a key text stands for: all three fields must parse as `i32`.
pub open spec fn parse_key3_spec(s: Seq<char>) -> Option<(int, int, int)> {
    match key3_parts(s) {
        None => None,
        Some((a, b, c)) => match (parse_i32_spec(a), parse_i32_spec(b), parse_i32_spec(c)) {
            (Some(x), Some(y), Some(z)) => Some((x, y, z)),
            _ => None,
        },
    }
}

/// A key text that does not name a triple of integers.
#[derive(Clone, Copy, PartialEq, Eq, Structural, Debug)]
pub struct KeyError;

/// Builds the key text for a dish or ticket triple.
pub fn make_key_3_int(first: i32, second: i32, third: i32) -> (r: String)
    ensures
        r@ == key3_str(first as int, second as int, third as int),
{
    let mut r = i32_to_string(first);
    r.append("_");
    r.append(i32_to_string(second).as_str());
    r.append("_");
    r.append(i32_to_string(third).as_str());
    proof {
        reveal_strlit("_");
        assert(r@ =~= key3_str(first as int, second as int, third as int));
    }
    r
}

/// The position of the first `c` in `s` at or after `from`, if any.
pub fn find_char_position(s: &str, c: char, from: usize) -> (r: Option<usize>)
    requires
        from <= s@.len(),
    ensures
        match r {
            Some(i) => find_char(s@, c, from as int) == Some(i as int) && from <= i < s@.len(),
            None => find_char(s@, c, from as int) is None,
        },
{
    let n = s.unicode_len();
    let mut i: usize = from;
    while i < n
        invariant
            from <= i <= n,
            n == s@.len(),
            find_char(s@, c, from as int) == find_char(s@, c, i as int),
        decreases n - i,
    {
        if s.get_char(i) == c {
            return Some(i);
        }
        i += 1;
    }
    None
}

/// Splits a key text at its first two underscores and parses the three
/// fields as integers; any malformed field refuses the whole key.
pub fn parse_key_3_int(text: &str) -> (r: Result<(i32, i32, i32), KeyError>)
    ensures
        r is Ok <==> parse_key3_spec(text@) is Some,
        r is Ok ==> {
            let (x, y, z) = parse_key3_spec(text@)->0;
            r->Ok_0.0 as int == x && r->Ok_0.1 as int == y && r->Ok_0.2 as int == z
        },
{
    let n = text.unicode_len();
    let i = match find_char_position(text, '_', 0) {
        None => {
            return Err(KeyError);
        },
        Some(i) => i,
    };
    let j = match find_char_position(text, '_', i + 1) {
        None => {
            return Err(KeyError);
        },
        Some(j) => j,
    };
    let first = parse_i32(text.substring_char(0, i));
    let second = parse_i32(text.substring_char(i + 1, j));
    let third = parse_i32(text.substring_char(j + 1, n));
    match (first, second, third) {
        (Some(a), Some(b), Some(c)) => Ok((a, b, c)),
        _ => Err(KeyError),
    }
}


proof fn lemma_find_char_from(s: Seq<char>, c: char, i: int, k: int)
    requires
        0 <= i <= k < s.len(),
        forall|j: int| i <= j < k ==> s[j] != c,
        s[k] == c,
    ensures
        find_char(s, c, i) == Some(k),
    decreases k - i,
{
    if i < k {
        lemma_find_char_from(s, c, i + 1, k);
    }
}

proof fn lemma_dec_int_no_underscore(v: int)
    requires
        i32::MIN <= v <= i32::MAX,
    ensures
        forall|j: int| 0 <= j < dec_int(v).len() ==> dec_int(v)[j] != '_',
        dec_int(v).len() >= 1,
{
    if v >= 0 {
        crate::digits::lemma_dec_digits_are_digits(v);
        assert forall|j: int| 0 <= j < dec_int(v).len() implies dec_int(v)[j] != '_' by {
            assert(crate::digits::is_digit(dec_int(v)[j]));
        }
    } else {
        crate::digits::lemma_dec_digits_are_digits(-v);
        assert(dec_int(v) =~= seq!['-'] + crate::digits::dec_digits(-v));
        assert forall|j: int| 0 <= j < dec_int(v).len() implies dec_int(v)[j] != '_' by {
            if j > 0 {
                assert(dec_int(v)[j] == crate::digits::dec_digits(-v)[j - 1]);
                assert(crate::digits::is_digit(dec_int(v)[j]));
            }
        }
    }
}

/// A key printed for a button or a command is read back as the same triple:
/// the key writer and the key parser are mutual inverses.
pub proof fn lemma_key3_round_trip(a: int, b: int, c: int)
    requires
        i32::MIN <= a <= i32::MAX,
        i32::MIN <= b <= i32::MAX,
        i32::MIN <= c <= i32::MAX,
    ensures
        parse_key3_spec(key3_str(a, b, c)) == Some((a, b, c)),
{
    let sa = dec_int(a);
    let sb = dec_int(b);
    let sc = dec_int(c);
    let s = key3_str(a, b, c);
    lemma_dec_int_no_underscore(a);
    lemma_dec_int_no_underscore(b);
    lemma_dec_int_no_underscore(c);
    let i1 = sa.len() as int;
    let i2 = sa.len() as int + 1 + sb.len() as int;
    assert(s.len() == sa.len() + 1 + sb.len() + 1 + sc.len());
    assert(s[i1] == '_');
    assert forall|j: int| 0 <= j < i1 implies s[j] != '_' by {
        assert(s[j] == sa[j]);
    }
    lemma_find_char_from(s, '_', 0, i1);
    assert(s[i2 as int] == '_');
    assert forall|j: int| i1 + 1 <= j < i2 implies s[j] != '_' by {
        assert(s[j] == sb[j - i1 - 1]);
    }
    lemma_find_char_from(s, '_', i1 + 1, i2 as int);
    assert(key3_parts(s) == Some(
        (s.subrange(0, i1), s.subrange(i1 + 1, i2 as int), s.subrange(i2 + 1, s.len() as int)),
    ));
    assert(s.subrange(0, i1) =~= sa);
    assert(s.subrange(i1 + 1, i2 as int) =~= sb);
    assert(s.subrange(i2 + 1, s.len() as int) =~= sc);
    crate::digits::lemma_parse_of_print(a);
    crate::digits::lemma_parse_of_print(b);
    crate::digits::lemma_parse_of_print(c);
}

} // verus!

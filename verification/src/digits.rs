//! Decimal digits: specs and helpers for rendering small numbers as text.

use vstd::prelude::*;

verus! {

/// Whether a character is a decimal digit.
pub open spec fn is_digit(c: char) -> bool {
    '0' <= c && c <= '9'
}

/// The numeric value of a decimal digit character.
pub open spec fn digit_val(c: char) -> int {
    c as int - '0' as int
}

/// The character for a single decimal digit.
pub open spec fn digit_char(v: int) -> char {
    if v == 0 {
        '0'
    } else if v == 1 {
        '1'
    } else if v == 2 {
        '2'
    } else if v == 3 {
        '3'
    } else if v == 4 {
        '4'
    } else if v == 5 {
        '5'
    } else if v == 6 {
        '6'
    } else if v == 7 {
        '7'
    } else if v == 8 {
        '8'
    } else {
        '9'
    }
}

/// Two characters, zero padded, for a value below 100.
pub open spec fn spec_two_digits(v: int) -> Seq<char> {
    seq![digit_char(v / 10), digit_char(v % 10)]
}

/// Four characters, zero padded, for a value below 10000.
pub open spec fn spec_four_digits(v: int) -> Seq<char> {
    seq![
        digit_char(v / 1000),
        digit_char((v / 100) % 10),
        digit_char((v / 10) % 10),
        digit_char(v % 10),
    ]
}

pub proof fn lemma_digit_char_is_digit(v: int)
    requires
        0 <= v < 10,
    ensures
        is_digit(digit_char(v)),
        digit_val(digit_char(v)) == v,
        digit_char(v) != ':',
        digit_char(v) != '+',
        digit_char(v) != '-',
{
}

/// The one-character string for a decimal digit.
pub fn digit_str(v: u8) -> (r: &'static str)
    requires
        v < 10,
    ensures
        r@ =~= seq![digit_char(v as int)],
        r@.len() == 1,
{
    proof {
        reveal_strlit("0");
        reveal_strlit("1");
        reveal_strlit("2");
        reveal_strlit("3");
        reveal_strlit("4");
        reveal_strlit("5");
        reveal_strlit("6");
        reveal_strlit("7");
        reveal_strlit("8");
        reveal_strlit("9");
    }
    match v {
        0 => "0",
        1 => "1",
        2 => "2",
        3 => "3",
        4 => "4",
        5 => "5",
        6 => "6",
        7 => "7",
        8 => "8",
        _ => "9",
    }
}

/// The value of one decimal digit character, or nothing.
pub fn digit_value(c: char) -> (r: Option<u8>)
    ensures
        match r {
            Some(v) => is_digit(c) && v == digit_val(c) && v < 10,
            None => !is_digit(c),
        },
{
    match c {
        '0' => Some(0),
        '1' => Some(1),
        '2' => Some(2),
        '3' => Some(3),
        '4' => Some(4),
        '5' => Some(5),
        '6' => Some(6),
        '7' => Some(7),
        '8' => Some(8),
        '9' => Some(9),
        _ => None,
    }
}

/// Append a value below 100 as exactly two digits.
pub fn push_two_digits(out: &mut String, v: u8)
    requires
        v < 100,
    ensures
        final(out)@ == old(out)@ + spec_two_digits(v as int),
{
    out.append(digit_str(v / 10));
    out.append(digit_str(v % 10));
    assert(out@ =~= old(out)@ + spec_two_digits(v as int));
}

/// Append a value below 10000 as exactly four digits.
pub fn push_four_digits(out: &mut String, v: u16)
    requires
        v < 10000,
    ensures
        final(out)@ == old(out)@ + spec_four_digits(v as int),
{
    out.append(digit_str((v / 1000) as u8));
    out.append(digit_str(((v / 100) % 10) as u8));
    out.append(digit_str(((v / 10) % 10) as u8));
    out.append(digit_str((v % 10) as u8));
    assert(out@ =~= old(out)@ + spec_four_digits(v as int));
}

/// Append a value below 100 with no padding: one digit, or two.
pub fn push_unpadded(out: &mut String, v: u8)
    requires
        v < 100,
    ensures
        final(out)@ == old(out)@ + spec_unpadded(v as int),
{
    if v < 10 {
        out.append(digit_str(v));
        assert(out@ =~= old(out)@ + spec_unpadded(v as int));
    } else {
        out.append(digit_str(v / 10));
        out.append(digit_str(v % 10));
        assert(out@ =~= old(out)@ + spec_unpadded(v as int));
    }
}

/// One digit for a value below 10, two otherwise.
pub open spec fn spec_unpadded(v: int) -> Seq<char> {
    if v < 10 {
        seq![digit_char(v)]
    } else {
        spec_two_digits(v)
    }
}

/// Whether every character of a sequence is a decimal digit.
pub open spec fn all_digits(s: Seq<char>) -> bool {
    forall|i: int| 0 <= i < s.len() ==> is_digit(#[trigger] s[i])
}

/// The value of a sequence of decimal digits, most significant first.
pub open spec fn digits_val(s: Seq<char>) -> int
    decreases s.len(),
{
    if s.len() == 0 {
        0
    } else {
        digits_val(s.drop_last()) * 10 + digit_val(s.last())
    }
}

/// A digit string's value never shrinks as more digits are appended.
pub proof fn lemma_digits_val_bounds(s: Seq<char>)
    requires
        all_digits(s),
    ensures
        digits_val(s) >= 0,
        s.len() > 0 ==> digits_val(s) >= digits_val(s.drop_last()),
    decreases s.len(),
{
    if s.len() > 0 {
        assert(all_digits(s.drop_last()));
        lemma_digits_val_bounds(s.drop_last());
        assert(digit_val(s.last()) >= 0);
    }
}

/// The value of a prefix never exceeds the value of the whole.
pub proof fn lemma_digits_val_prefix(s: Seq<char>, k: int)
    requires
        all_digits(s),
        0 <= k <= s.len(),
    ensures
        digits_val(s) >= digits_val(s.subrange(0, k)),
    decreases s.len() - k,
{
    if k < s.len() {
        lemma_digits_val_prefix(s, k + 1);
        let p = s.subrange(0, k + 1);
        assert(p.drop_last() =~= s.subrange(0, k));
        assert(all_digits(p));
        lemma_digits_val_bounds(p);
    } else {
        assert(s.subrange(0, k) =~= s);
    }
}

/// What `u8::from_str` accepts: an optional leading plus sign, then one
/// or more decimal digits, with a value that fits in eight bits.
pub open spec fn spec_parse_u8(s: Seq<char>) -> Option<u8> {
    let t = if s.len() > 0 && s[0] == '+' {
        s.subrange(1, s.len() as int)
    } else {
        s
    };
    if t.len() > 0 && all_digits(t) && digits_val(t) <= 255 {
        Some(digits_val(t) as u8)
    } else {
        None
    }
}

/// Read an unsigned eight-bit value from decimal text, as `str::parse`
/// does: an optional `+`, then digits; anything else, or a value above
/// 255, is rejected.
pub fn parse_u8(s: &str) -> (r: Option<u8>)
    ensures
        r == spec_parse_u8(s@),
{
    let ghost orig = s@;
    let len = s.unicode_len();
    let mut i: usize = 0;
    if len > 0 && s.get_char(0) == '+' {
        i = 1;
    }
    let ghost t = if orig.len() > 0 && orig[0] == '+' {
        orig.subrange(1, orig.len() as int)
    } else {
        orig
    };
    if i >= len {
        // empty input, or a bare sign
        assert(t.len() == 0);
        return None;
    }
    let start = i;
    proof {
        assert(t =~= orig.subrange(start as int, orig.len() as int));
    }
    let mut acc: u32 = 0;
    while i < len
        invariant
            start <= i <= len,
            start == if orig.len() > 0 && orig[0] == '+' {
                1int
            } else {
                0int
            },
            len == orig.len(),
            t == orig.subrange(start as int, orig.len() as int),
            acc == digits_val(t.subrange(0, (i - start) as int)),
            acc <= 255,
            all_digits(t.subrange(0, (i - start) as int)),
            s@ == orig,
        decreases len - i,
    {
        let c = s.get_char(i);
        let d: u8 = match c {
            '0' => 0,
            '1' => 1,
            '2' => 2,
            '3' => 3,
            '4' => 4,
            '5' => 5,
            '6' => 6,
            '7' => 7,
            '8' => 8,
            '9' => 9,
            _ => {
                proof {
                    assert(!is_digit(orig[i as int]));
                    assert(t[(i - start) as int] == orig[i as int]);
                    assert(!all_digits(t));
                    if start == 0 {
                        assert(orig.subrange(0, orig.len() as int) =~= orig);
                    }
                }
                return None;
            }
        };
        assert(is_digit(orig[i as int]) && digit_val(orig[i as int]) == d);
        let ghost prev = t.subrange(0, (i - start) as int);
        let ghost cur = t.subrange(0, (i + 1 - start) as int);
        assert(cur.drop_last() =~= prev);
        assert(cur.last() == orig[i as int]);
        let next = acc * 10 + d as u32;
        if next > 255 {
            proof {
                assert(digits_val(cur) == next);
                assert(all_digits(cur));
                if all_digits(t) {
                    lemma_digits_val_prefix(t, (i + 1 - start) as int);
                    assert(digits_val(t) >= next);
                }
                if start == 0 {
                    assert(orig.subrange(0, orig.len() as int) =~= orig);
                }
            }
            return None;
        }
        acc = next;
        i = i + 1;
    }
    assert(t.subrange(0, (i - start) as int) =~= t);
    assert(t.len() > 0);
    Some(acc as u8)
}

} // verus!

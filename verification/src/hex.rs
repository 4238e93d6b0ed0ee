//! Hexadecimal text: what a string of digits denotes, how a natural number is
//! written, and padding to a fixed number of digits.

use vstd::prelude::*;
use vstd::string::*;

verus! {

/// True for the decimal digits and for the letters `a` to `f` in either case.
pub open spec fn is_hex_digit(c: char) -> bool {
    ('0' <= c <= '9') || ('a' <= c <= 'f') || ('A' <= c <= 'F')
}

/// True for the decimal digits and for the lower-case letters `a` to `f`.
pub open spec fn is_lower_hex_digit(c: char) -> bool {
    ('0' <= c <= '9') || ('a' <= c <= 'f')
}

/// The number from 0 to 15 that a hexadecimal digit stands for.
pub open spec fn hex_digit_value(c: char) -> int
    recommends
        is_hex_digit(c),
{
    if '0' <= c <= '9' {
        c as int - '0' as int
    } else if 'a' <= c <= 'f' {
        c as int - 'a' as int + 10
    } else {
        c as int - 'A' as int + 10
    }
}

/// True when every character of `s` is a hexadecimal digit.
pub open spec fn is_hex_text(s: Seq<char>) -> bool {
    forall|i: int| 0 <= i < s.len() ==> is_hex_digit(#[trigger] s[i])
}

/// True when every character of `s` is a lower-case hexadecimal digit.
pub open spec fn is_lower_hex_text(s: Seq<char>) -> bool {
    forall|i: int| 0 <= i < s.len() ==> is_lower_hex_digit(#[trigger] s[i])
}

/// The natural number that the digits of `s` denote in base 16, most
/// significant digit first; the empty text denotes zero.
pub open spec fn hex_value(s: Seq<char>) -> int
    recommends
        is_hex_text(s),
    decreases s.len(),
{
    if s.len() == 0 {
        0
    } else {
        16 * hex_value(s.drop_last()) + hex_digit_value(s.last())
    }
}

/// The lower-case digit for a number from 0 to 15.
pub open spec fn hex_char(d: int) -> char
    recommends
        0 <= d < 16,
{
    if d == 0 {
        '0'
    } else if d == 1 {
        '1'
    } else if d == 2 {
        '2'
    } else if d == 3 {
        '3'
    } else if d == 4 {
        '4'
    } else if d == 5 {
        '5'
    } else if d == 6 {
        '6'
    } else if d == 7 {
        '7'
    } else if d == 8 {
        '8'
    } else if d == 9 {
        '9'
    } else if d == 10 {
        'a'
    } else if d == 11 {
        'b'
    } else if d == 12 {
        'c'
    } else if d == 13 {
        'd'
    } else if d == 14 {
        'e'
    } else {
        'f'
    }
}

/// The shortest lower-case hexadecimal numeral of a natural number: no
/// leading zero, and the single digit `0` for zero.
pub open spec fn hex_digits(n: int) -> Seq<char>
    recommends
        n >= 0,
    decreases n,
{
    if n < 16 {
        seq![hex_char(n)]
    } else {
        hex_digits(n / 16).push(hex_char(n % 16))
    }
}

/// The hexadecimal numeral of any integer: a minus sign before the numeral of
/// the magnitude when the integer is negative.
pub open spec fn signed_hex(v: int) -> Seq<char> {
    if v < 0 {
        seq!['-'] + hex_digits(-v)
    } else {
        hex_digits(v)
    }
}

/// `n` times the digit `0`.
pub open spec fn zeros(n: nat) -> Seq<char> {
    Seq::new(n, |i: int| '0')
}

/// `s` with zeros in front until it has `width` characters; `s` itself when it
/// is that long already, or longer.
pub open spec fn pad_left(s: Seq<char>, width: nat) -> Seq<char> {
    if s.len() >= width {
        s
    } else {
        zeros((width - s.len()) as nat) + s
    }
}

/// Tells whether a byte is the ASCII code of a hexadecimal digit.
pub fn is_hex_byte(b: u8) -> (ok: bool)
    ensures
        ok == is_hex_digit(b as char),
{
    (48 <= b && b <= 57) || (97 <= b && b <= 102) || (65 <= b && b <= 70)
}

/// Tells whether a string consists of hexadecimal digits only.
pub fn is_hex_string(text: &str) -> (ok: bool)
    ensures
        ok == is_hex_text(text@),
{
    if !text.is_ascii() {
        proof {
            let i = choose|i: int| 0 <= i < text@.len() && !('\0' <= #[trigger] text@[i] <= '\u{7f}');
            assert(!is_hex_digit(text@[i]));
        }
        return false;
    }
    let n: usize = text.unicode_len();
    let mut i: usize = 0;
    while i < n
        invariant
            text.is_ascii(),
            n == text@.len(),
            i <= n,
            forall|j: int| 0 <= j < i ==> is_hex_digit(#[trigger] text@[j]),
        decreases n - i,
    {
        let b: u8 = text.get_ascii(i);
        assert(text@[i as int] == b as char);
        if !is_hex_byte(b) {
            return false;
        }
        i += 1;
    }
    true
}

/// Puts zeros in front of `digits` until the text has `width` characters.
/// A text that is longer than `width` comes back unshortened.
pub fn pad_with_zeros(digits: &str, width: u64) -> (out: String)
    ensures
        out@ == pad_left(digits@, width as nat),
{
    let len: u64 = digits.unicode_len() as u64;
    let mut out = String::new();
    let mut i: u64 = len;
    while i < width
        invariant
            len == digits@.len(),
            i >= len,
            i <= width || i == len,
            out@ == zeros((i - len) as nat),
        decreases width - i,
    {
        proof {
            reveal_strlit("0");
        }
        out.append("0");
        i += 1;
        assert(out@ =~= zeros((i - len) as nat));
    }
    out.append(digits);
    assert(out@ =~= pad_left(digits@, width as nat));
    out
}

/// A lower-case digit is the digit of its own value.
pub proof fn lemma_lower_digit_round_trip(c: char)
    requires
        is_lower_hex_digit(c),
    ensures
        0 <= hex_digit_value(c) < 16,
        hex_char(hex_digit_value(c)) == c,
{
}

/// The numeral of the number that a non-empty lower-case text denotes,
/// padded to the length of the text, is the text.
pub proof fn lemma_hex_round_trip(s: Seq<char>)
    requires
        s.len() > 0,
        is_lower_hex_text(s),
    ensures
        hex_value(s) >= 0,
        pad_left(hex_digits(hex_value(s)), s.len()) == s,
    decreases s.len(),
{
    let t = s.drop_last();
    let c = s.last();
    let d = hex_digit_value(c);
    lemma_lower_digit_round_trip(c);
    assert(s =~= t.push(c));
    if t.len() == 0 {
        assert(hex_value(t) == 0);
        assert(pad_left(hex_digits(d), 1) =~= s);
    } else {
        lemma_hex_round_trip(t);
        let vt = hex_value(t);
        let v = hex_value(s);
        let x = hex_digits(vt);
        assert(v == 16 * vt + d);
        if vt == 0 {
            assert(t =~= zeros(t.len()));
            assert(hex_digits(v) =~= seq![c]);
            assert(pad_left(hex_digits(v), s.len()) =~= s);
        } else {
            assert(v / 16 == vt && v % 16 == d);
            assert(hex_digits(v) == x.push(c));
            assert(pad_left(x.push(c), s.len()) =~= t.push(c));
        }
    }
}

} // verus!

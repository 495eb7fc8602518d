//! Exact IEEE storage of floating-point constants, read and written as hexadecimal text.
use vstd::prelude::*;
use vstd::string::*;
use crate::ir::types::FloatBits;
use crate::text::{hex_char, hex_char_value, hex_text, is_hex_char, hex_value, pow16, push_hex,
    lemma_hex_round_trip};

verus! {

/// Storage width in bits.
pub open spec fn float_width(f: FloatBits) -> u16 {
    match f {
        FloatBits::F16(_) => 16,
        FloatBits::F32(_) => 32,
        FloatBits::F64(_) => 64,
    }
}

/// Storage bits, zero-extended.
pub open spec fn float_bits(f: FloatBits) -> u64 {
    match f {
        FloatBits::F16(x) => x as u64,
        FloatBits::F32(x) => x as u64,
        FloatBits::F64(x) => x,
    }
}

/// Number of hexadecimal digits that a width is written with.
pub open spec fn float_digits(width: u16) -> Option<nat> {
    if width == 16 {
        Some(4nat)
    } else if width == 32 {
        Some(8nat)
    } else if width == 64 {
        Some(16nat)
    } else {
        None
    }
}

/// The storage of a width holding `bits` (truncated to the width).
pub open spec fn float_of(width: u16, bits: nat) -> FloatBits {
    if width == 16 {
        FloatBits::F16(bits as u16)
    } else if width == 32 {
        FloatBits::F32(bits as u32)
    } else {
        FloatBits::F64(bits as u64)
    }
}

/// The message of a text that does not have exactly the digits of its width.
pub open spec fn digits_message(width: u16) -> Seq<char> {
    if width == 16 {
        "f16 requires exactly 4 hexadecimal digits"@
    } else if width == 32 {
        "f32 requires exactly 8 hexadecimal digits"@
    } else {
        "f64 requires exactly 16 hexadecimal digits"@
    }
}

/// What reading `text` as storage of `width` gives: `0x` and exactly the
/// width's number of hexadecimal digits, or the message that rejects it.
pub open spec fn parse_float_spec(width: u16, text: Seq<char>) -> Result<FloatBits, Seq<char>> {
    match float_digits(width) {
        None => Err("float width must be 16, 32 or 64"@),
        Some(d) => if !(text.len() >= 2 && text[0] == '0' && text[1] == 'x') {
            Err("float value must start with 0x"@)
        } else if text.len() - 2 != d || !(forall|i: int|
            2 <= i < text.len() ==> is_hex_char(#[trigger] text[i])) {
            Err(digits_message(width))
        } else {
            Ok(float_of(width, hex_value(text.skip(2))))
        },
    }
}

/// The text of a storage value: `0x` and the width's number of lower-case digits.
pub open spec fn float_text(f: FloatBits) -> Seq<char> {
    "0x"@ + hex_text(float_bits(f) as nat, float_digits(float_width(f)).unwrap())
}

impl FloatBits {
    pub fn width(self) -> (r: u16)
        ensures
            r == float_width(self),
    {
        match self {
            Self::F16(_) => 16,
            Self::F32(_) => 32,
            Self::F64(_) => 64,
        }
    }

    pub fn bits(self) -> (r: u64)
        ensures
            r == float_bits(self),
    {
        match self {
            Self::F16(x) => x as u64,
            Self::F32(x) => x as u64,
            Self::F64(x) => x,
        }
    }

    /// Exact-width hexadecimal storage, not a decimal floating-point number.
    pub fn parse(width: u16, text: &str) -> (r: Result<Self, String>)
        ensures
            match parse_float_spec(width, text@) {
                Ok(v) => r == Ok::<FloatBits, String>(v),
                Err(m) => r matches Err(e) && e@ == m,
            },
    {
        let digits: usize = if width == 16 {
            4
        } else if width == 32 {
            8
        } else if width == 64 {
            16
        } else {
            return Err(String::from_str("float width must be 16, 32 or 64"));
        };
        let n = text.unicode_len();
        if n < 2 || text.get_char(0) != '0' || text.get_char(1) != 'x' {
            return Err(String::from_str("float value must start with 0x"));
        }
        let ghost hex = text@.skip(2);
        if n - 2 != digits {
            return Err(digits_error(width));
        }
        let mut value: u64 = 0;
        let mut i: usize = 2;
        while i < n
            invariant
                n == text@.len(),
                n == digits + 2,
                digits <= 16,
                float_digits(width) == Some(digits as nat),
                text@[0] == '0',
                text@[1] == 'x',
                hex == text@.skip(2),
                2 <= i <= n,
                forall|j: int| 2 <= j < i ==> is_hex_char(#[trigger] text@[j]),
                value as nat == hex_value(hex.take(i - 2)),
                hex_value(hex.take(i - 2)) < pow16((i - 2) as nat),
            decreases n - i,
        {
            let c = text.get_char(i);
            if !is_hex_digit(c) {
                proof {
                    assert(!is_hex_char(text@[i as int]));
                }
                return Err(digits_error(width));
            }
            let d = hex_digit_value(c);
            proof {
                assert(hex.take(i - 1).drop_last() =~= hex.take(i - 2));
                assert(hex.take(i - 1).last() == c);
                crate::text::lemma_pow16_step((i - 2) as nat);
                crate::text::lemma_pow16_le((i - 1) as nat, 16);
                crate::text::lemma_pow16_64();
                assert(value * 16 + d < pow16((i - 1) as nat)) by (nonlinear_arith)
                    requires
                        value < pow16((i - 2) as nat),
                        d < 16,
                        pow16((i - 1) as nat) == 16 * pow16((i - 2) as nat),
                ;
            }
            value = value * 16 + d;
            i += 1;
        }
        proof {
            assert(hex.take(i - 2) =~= hex);
        }
        Ok(
            if width == 16 {
                Self::F16(value as u16)
            } else if width == 32 {
                Self::F32(value as u32)
            } else {
                Self::F64(value)
            },
        )
    }

    /// Lower-case exact-width hexadecimal storage, as [`FloatBits::parse`] reads it.
    pub fn to_string(&self) -> (r: String)
        ensures
            r@ == float_text(*self),
    {
        let mut out = String::from_str("0x");
        proof {
            reveal_strlit("0x");
        }
        let digits: u32 = match self {
            Self::F16(_) => 4,
            Self::F32(_) => 8,
            Self::F64(_) => 16,
        };
        push_hex(&mut out, self.bits(), digits);
        out
    }
}

fn digits_error(width: u16) -> (r: String)
    ensures
        r@ == digits_message(width),
{
    if width == 16 {
        String::from_str("f16 requires exactly 4 hexadecimal digits")
    } else if width == 32 {
        String::from_str("f32 requires exactly 8 hexadecimal digits")
    } else {
        String::from_str("f64 requires exactly 16 hexadecimal digits")
    }
}

fn is_hex_digit(c: char) -> (r: bool)
    ensures
        r == is_hex_char(c),
{
    ('0' <= c && c <= '9') || ('a' <= c && c <= 'f') || ('A' <= c && c <= 'F')
}

fn hex_digit_value(c: char) -> (r: u64)
    requires
        is_hex_char(c),
    ensures
        r == hex_char_value(c),
        r < 16,
{
    if '0' <= c && c <= '9' {
        (c as u64) - ('0' as u64)
    } else if 'a' <= c && c <= 'f' {
        (c as u64) - ('a' as u64) + 10
    } else {
        (c as u64) - ('A' as u64) + 10
    }
}

/// Reading the text of a storage value at its width gives the value back.
pub proof fn lemma_float_text_round_trip(f: FloatBits)
    ensures
        parse_float_spec(float_width(f), float_text(f)) == Ok::<FloatBits, Seq<char>>(f),
{
    let d = float_digits(float_width(f)).unwrap();
    let t = float_text(f);
    let bits = float_bits(f) as nat;
    crate::text::lemma_pow16_64();
    assert(bits < pow16(d));
    lemma_hex_round_trip(bits, d);
    reveal_strlit("0x");
    assert(t.skip(2) =~= hex_text(bits, d));
    assert forall|i: int| 2 <= i < t.len() implies is_hex_char(#[trigger] t[i]) by {
        assert(t[i] == hex_text(bits, d)[i - 2]);
    }
}

/// A hexadecimal letter written in lower case; any other character as it is.
pub open spec fn lower_hex(c: char) -> char {
    if 'A' <= c && c <= 'F' {
        ((c as u32) + 32) as char
    } else {
        c
    }
}

/// A text with its hexadecimal letters written in lower case.
pub open spec fn lower_hex_text(t: Seq<char>) -> Seq<char> {
    t.map_values(|c: char| lower_hex(c))
}

proof fn lemma_lower_hex_digit(c: char)
    ensures
        is_hex_char(lower_hex(c)) == is_hex_char(c),
        is_hex_char(c) ==> hex_char_value(lower_hex(c)) == hex_char_value(c),
{
}

proof fn lemma_lower_hex_value(s: Seq<char>)
    requires
        forall|i: int| 0 <= i < s.len() ==> is_hex_char(#[trigger] s[i]),
    ensures
        hex_value(lower_hex_text(s)) == hex_value(s),
    decreases s.len(),
{
    if s.len() > 0 {
        lemma_lower_hex_value(s.drop_last());
        assert(lower_hex_text(s).drop_last() =~= lower_hex_text(s.drop_last()));
        lemma_lower_hex_digit(s.last());
    }
}

/// Digit case law: reading storage text does not depend on the case of its
/// hexadecimal letters; `A`..`F` read as `a`..`f` do.
pub proof fn lemma_parse_ignores_letter_case(width: u16, text: Seq<char>)
    ensures
        parse_float_spec(width, text) == parse_float_spec(width, lower_hex_text(text)),
{
    let l = lower_hex_text(text);
    assert(l.len() == text.len());
    if text.len() >= 2 {
        assert(l[0] == lower_hex(text[0]) && l[1] == lower_hex(text[1]));
    }
    assert forall|i: int| 2 <= i < text.len() implies is_hex_char(#[trigger] l[i]) == is_hex_char(text[i]) by {
        lemma_lower_hex_digit(text[i]);
    }
    if text.len() >= 2 && (forall|i: int| 2 <= i < text.len() ==> is_hex_char(#[trigger] text[i])) {
        assert(l.skip(2) =~= lower_hex_text(text.skip(2)));
        assert forall|i: int| 0 <= i < text.skip(2).len() implies is_hex_char(#[trigger] text.skip(2)[i]) by {
            assert(text.skip(2)[i] == text[i + 2]);
        }
        lemma_lower_hex_value(text.skip(2));
    }
    if text.len() >= 2 && !(forall|i: int| 2 <= i < text.len() ==> is_hex_char(#[trigger] text[i])) {
        let j = choose|j: int| 2 <= j < text.len() && !is_hex_char(#[trigger] text[j]);
        lemma_lower_hex_digit(text[j]);
        assert(!is_hex_char(l[j]));
    }
}

} // verus!

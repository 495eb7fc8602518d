//! The versioned envelope of the AST interchange format, and the decimal text
//! of its integer literals.
use vstd::prelude::*;

verus! {

/// Version of the AST interchange format.
pub const AST_FORMAT_VERSION: u32 = 1;

/// Version of the source semantics, shared with printed IR.
pub const SEMANTICS_VERSION: u32 = 1;

/// Default input budget of the raw JSON entry point: 8 MiB.
pub const DEFAULT_MAX_INPUT_BYTES: usize = 8388608;

/// Why an envelope is refused.
#[derive(Clone, Copy, Debug, PartialEq, Eq, Structural)]
pub enum EnvelopeError {
    TooLarge,
    FormatVersion(u32),
    SemanticsVersion(u32),
    Features,
}

/// Input of `len` bytes fits a budget of `max` bytes.
pub fn within_limit(len: usize, max: usize) -> (r: Result<(), EnvelopeError>)
    ensures
        r is Ok <==> len <= max,
        r matches Err(e) ==> e == EnvelopeError::TooLarge,
{
    if len > max {
        Err(EnvelopeError::TooLarge)
    } else {
        Ok(())
    }
}

/// The envelope's versions are the supported ones and it asks for no
/// features; the format version is checked first, then semantics, then features.
pub fn check_envelope(format_version: u32, semantics_version: u32, feature_count: usize) -> (r: Result<
    (),
    EnvelopeError,
>)
    ensures
        r == if format_version != AST_FORMAT_VERSION {
            Err::<(), EnvelopeError>(EnvelopeError::FormatVersion(format_version))
        } else if semantics_version != SEMANTICS_VERSION {
            Err(EnvelopeError::SemanticsVersion(semantics_version))
        } else if feature_count != 0 {
            Err(EnvelopeError::Features)
        } else {
            Ok(())
        },
{
    if format_version != AST_FORMAT_VERSION {
        return Err(EnvelopeError::FormatVersion(format_version));
    }
    if semantics_version != SEMANTICS_VERSION {
        return Err(EnvelopeError::SemanticsVersion(semantics_version));
    }
    if feature_count != 0 {
        return Err(EnvelopeError::Features);
    }
    Ok(())
}

pub open spec fn is_digit(c: char) -> bool {
    '0' <= c && c <= '9'
}

/// The value of a string of decimal digits.
pub open spec fn digits_value(s: Seq<char>) -> nat
    decreases s.len(),
{
    if s.len() == 0 {
        0
    } else {
        digits_value(s.drop_last()) * 10 + (s.last() as nat - '0' as nat) as nat
    }
}

pub open spec fn all_digits(d: Seq<char>) -> bool {
    forall|i: int| 0 <= i < d.len() ==> is_digit(#[trigger] d[i])
}

pub open spec fn negative_literal(s: Seq<char>) -> bool {
    s.len() > 0 && s[0] == '-'
}

/// The digits of a decimal literal, after its sign.
pub open spec fn literal_digits(s: Seq<char>) -> Seq<char> {
    if negative_literal(s) {
        s.skip(1)
    } else {
        s
    }
}

/// The integer a decimal literal writes: an optional minus sign, then one or
/// more digits; no plus sign, blanks, fraction or exponent; within `i128`.
pub open spec fn decimal_spec(s: Seq<char>) -> Option<int> {
    let d = literal_digits(s);
    if d.len() == 0 || !all_digits(d) {
        None
    } else {
        let v = if negative_literal(s) {
            -(digits_value(d) as int)
        } else {
            digits_value(d) as int
        };
        if i128::MIN <= v <= i128::MAX {
            Some(v)
        } else {
            None
        }
    }
}

proof fn lemma_digits_prefix(s: Seq<char>, k: int)
    requires
        0 <= k <= s.len(),
        forall|i: int| 0 <= i < s.len() ==> is_digit(#[trigger] s[i]),
    ensures
        digits_value(s.take(k)) <= digits_value(s),
    decreases s.len() - k,
{
    if k < s.len() {
        lemma_digits_prefix(s, k + 1);
        assert(s.take(k + 1).drop_last() =~= s.take(k));
    } else {
        assert(s.take(k) =~= s);
    }
}

/// Why a text is not a decimal literal within `i128`.
pub open spec fn decimal_error(s: Seq<char>) -> Seq<char> {
    let d = literal_digits(s);
    if d.len() == 0 || !all_digits(d) {
        "integer value must be a decimal string"@
    } else {
        "integer value is out of range"@
    }
}

/// The integer that a decimal literal writes.
pub fn parse_decimal(text: &str) -> (r: Result<i128, String>)
    ensures
        match decimal_spec(text@) {
            Some(v) => r == Ok::<i128, String>(v as i128),
            None => r matches Err(e) && e@ == decimal_error(text@),
        },
{
    let n = text.unicode_len();
    let negative = n > 0 && text.get_char(0) == '-';
    let start: usize = if negative {
        1
    } else {
        0
    };
    let ghost d = if negative {
        text@.skip(1)
    } else {
        text@
    };
    assert(!negative ==> text@.skip(0) =~= text@);
    if start == n {
        return Err(String::from_str("integer value must be a decimal string"));
    }
    let mut j: usize = start;
    while j < n
        invariant
            n == text@.len(),
            start <= j <= n,
            start == (if negative { 1usize } else { 0usize }),
            negative == (n > 0 && text@[0] == '-'),
            d == text@.skip(start as int),
            d == literal_digits(text@),
            forall|k: int| 0 <= k < j - start ==> is_digit(#[trigger] d[k]),
        decreases n - j,
    {
        let c = text.get_char(j);
        if !('0' <= c && c <= '9') {
            proof {
                assert(!is_digit(d[j - start]));
                assert(!all_digits(d));
            }
            return Err(String::from_str("integer value must be a decimal string"));
        }
        j += 1;
    }
    assert(all_digits(d));
    let mut magnitude: u128 = 0;
    let mut i: usize = start;
    while i < n
        invariant
            n == text@.len(),
            start <= i <= n,
            start == (if negative { 1usize } else { 0usize }),
            negative == (n > 0 && text@[0] == '-'),
            d == text@.skip(start as int),
            d == literal_digits(text@),
            all_digits(d),
            d.len() > 0,
            magnitude as nat == digits_value(d.take(i - start)),
        decreases n - i,
    {
        let c = text.get_char(i);
        assert(is_digit(d[i - start]));
        let digit = (c as u32 - '0' as u32) as u128;
        proof {
            assert(d.take(i - start + 1).drop_last() =~= d.take(i - start));
            assert(d.take(i - start + 1).last() == c);
        }
        let next = match magnitude.checked_mul(10) {
            Some(m) => m.checked_add(digit),
            None => None,
        };
        match next {
            Some(m) => {
                magnitude = m;
            },
            None => {
                proof {
                    let k = i - start + 1;
                    assert(digits_value(d.take(k)) > u128::MAX);
                    lemma_digits_prefix(d, k);
                }
                return Err(String::from_str("integer value is out of range"));
            },
        }
        i += 1;
    }
    proof {
        assert(d.take(i - start) =~= d);
    }
    if negative {
        if magnitude > 0x8000_0000_0000_0000_0000_0000_0000_0000u128 {
            return Err(String::from_str("integer value is out of range"));
        }
        if magnitude == 0x8000_0000_0000_0000_0000_0000_0000_0000u128 {
            return Ok(i128::MIN);
        }
        Ok(-(magnitude as i128))
    } else {
        if magnitude > 0x7fff_ffff_ffff_ffff_ffff_ffff_ffff_ffffu128 {
            return Err(String::from_str("integer value is out of range"));
        }
        Ok(magnitude as i128)
    }
}

} // verus!

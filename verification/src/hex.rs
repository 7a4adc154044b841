//! Hexadecimal text: parsing a `"0x"`-prefixed numeral into a 64-bit
//! value, and rendering the low 40 bits of a value as the canonical
//! ten-digit lowercase form.

use vstd::prelude::*;

use crate::errors::{NumParseError, ParseHashError};

verus! {

use vstd::string::StringExecFns;

/// Whether a byte is the code of a hexadecimal digit.
pub open spec fn is_hex_digit(b: u8) -> bool {
    (0x30 <= b && b <= 0x39) || (0x61 <= b && b <= 0x66) || (0x41 <= b && b <= 0x46)
}

/// The numeric value of a hexadecimal digit byte (zero for other bytes).
pub open spec fn hex_digit_val(b: u8) -> int {
    if 0x30 <= b && b <= 0x39 {
        b - 0x30
    } else if 0x61 <= b && b <= 0x66 {
        b - 0x61 + 10
    } else if 0x41 <= b && b <= 0x46 {
        b - 0x41 + 10
    } else {
        0
    }
}

/// The unbounded value denoted by a sequence of hexadecimal digit bytes.
pub open spec fn hex_value(bs: Seq<u8>) -> int
    decreases bs.len(),
{
    if bs.len() == 0 {
        0
    } else {
        hex_value(bs.drop_last()) * 16 + hex_digit_val(bs.last())
    }
}

/// The number of leading hexadecimal digit bytes of a sequence.
pub open spec fn hex_prefix_len(bs: Seq<u8>) -> int
    decreases bs.len(),
{
    if bs.len() == 0 || !is_hex_digit(bs[0]) {
        0
    } else {
        1 + hex_prefix_len(bs.drop_first())
    }
}

/// What parsing a sequence of bytes as a hexadecimal numeral yields: the
/// denoted value, or the first failure met scanning left to right.
pub open spec fn spec_parse_hex(bs: Seq<u8>) -> Result<u64, NumParseError> {
    if bs.len() == 0 {
        Err(NumParseError::Empty)
    } else if hex_value(bs.take(hex_prefix_len(bs))) > u64::MAX {
        Err(NumParseError::PosOverflow)
    } else if hex_prefix_len(bs) < bs.len() {
        Err(NumParseError::InvalidDigit)
    } else {
        Ok(hex_value(bs) as u64)
    }
}

/// Whether a byte sequence begins with the two characters `"0x"`.
pub open spec fn has_hex_prefix(bs: Seq<u8>) -> bool {
    bs.len() >= 2 && bs[0] == 0x30 && bs[1] == 0x78
}

/// What converting a whole string's bytes to a hash value yields: the
/// prefix is required, then the remainder is parsed as a numeral.
pub open spec fn spec_from_hex_str(bs: Seq<u8>) -> Result<u64, ParseHashError> {
    if !has_hex_prefix(bs) {
        Err(ParseHashError::MissingPrefix)
    } else {
        match spec_parse_hex(bs.skip(2)) {
            Ok(v) => Ok(v),
            Err(k) => Err(ParseHashError::ParseError(k)),
        }
    }
}

/// The value of a digit sequence never shrinks as digits are appended.
proof fn lemma_hex_value_extend(bs: Seq<u8>, i: int, j: int)
    requires
        0 <= i <= j <= bs.len(),
        hex_value(bs.take(i)) >= 0,
    ensures
        hex_value(bs.take(j)) >= hex_value(bs.take(i)),
    decreases j - i,
{
    if i < j {
        assert(bs.take(i + 1).drop_last() =~= bs.take(i));
        assert(hex_value(bs.take(i + 1)) == hex_value(bs.take(i)) * 16 + hex_digit_val(
            bs.take(i + 1).last(),
        ));
        assert(hex_digit_val(bs.take(i + 1).last()) >= 0);
        assert(hex_value(bs.take(i + 1)) >= hex_value(bs.take(i)));
        lemma_hex_value_extend(bs, i + 1, j);
    } else {
        assert(bs.take(j) =~= bs.take(i));
    }
}

/// The value of any digit sequence is nonnegative.
proof fn lemma_hex_value_nonneg(bs: Seq<u8>)
    ensures
        hex_value(bs) >= 0,
    decreases bs.len(),
{
    if bs.len() > 0 {
        lemma_hex_value_nonneg(bs.drop_last());
    }
}

/// Every byte before the end of the digit prefix is a digit, and the byte
/// at its end, if any, is not.
proof fn lemma_hex_prefix_facts(bs: Seq<u8>)
    ensures
        0 <= hex_prefix_len(bs) <= bs.len(),
        forall|i: int| 0 <= i < hex_prefix_len(bs) ==> is_hex_digit(bs[i]),
        hex_prefix_len(bs) < bs.len() ==> !is_hex_digit(bs[hex_prefix_len(bs)]),
    decreases bs.len(),
{
    if bs.len() > 0 && is_hex_digit(bs[0]) {
        lemma_hex_prefix_facts(bs.drop_first());
        assert forall|i: int| 0 <= i < hex_prefix_len(bs) implies is_hex_digit(bs[i]) by {
            if i >= 1 {
                assert(bs.drop_first()[i - 1] == bs[i]);
                assert(is_hex_digit(bs.drop_first()[i - 1]));
            }
        }
    }
}

/// The numeric value of one hexadecimal digit byte.
fn hex_digit_val_exec(b: u8) -> (r: Option<u8>)
    ensures
        match r {
            Some(v) => is_hex_digit(b) && v == hex_digit_val(b),
            None => !is_hex_digit(b),
        },
{
    if 0x30 <= b && b <= 0x39 {
        Some(b - 0x30)
    } else if 0x61 <= b && b <= 0x66 {
        Some(b - 0x61 + 10)
    } else if 0x41 <= b && b <= 0x46 {
        Some(b - 0x41 + 10)
    } else {
        None
    }
}

/// Parses `bytes[start..]` as a hexadecimal numeral, scanning left to
/// right and reporting the first failure met, exactly as
/// `spec_parse_hex` describes.
pub fn parse_hex_bytes(bytes: &[u8], start: usize) -> (r: Result<u64, NumParseError>)
    requires
        start <= bytes@.len(),
    ensures
        r == spec_parse_hex(bytes@.skip(start as int)),
{
    let ghost bs = bytes@.skip(start as int);
    let n = bytes.len();
    if start == n {
        return Err(NumParseError::Empty);
    }
    let mut acc: u64 = 0;
    let mut i: usize = start;
    proof {
        assert(bs.take(0) =~= Seq::<u8>::empty());
        lemma_hex_prefix_facts(bs);
    }
    while i < n
        invariant
            start <= i <= n,
            n == bytes@.len(),
            start < n,
            bs == bytes@.skip(start as int),
            i - start <= hex_prefix_len(bs),
            acc == hex_value(bs.take(i - start)),
        decreases n - i,
    {
        let ghost k = i - start;
        proof {
            lemma_hex_prefix_facts(bs);
            assert(bs.take(k + 1).drop_last() =~= bs.take(k));
            assert(bs.take(k + 1).last() == bs[k]);
        }
        match hex_digit_val_exec(bytes[i]) {
            None => {
                // A byte that is not a digit: the digit prefix ends here,
                // before any overflow, so this is the first failure.
                proof {
                    assert(bs[k] == bytes@[i as int]);
                    assert(hex_prefix_len(bs) == k) by {
                        if hex_prefix_len(bs) > k {
                            assert(is_hex_digit(bs[k]));
                        }
                    };
                }
                return Err(NumParseError::InvalidDigit);
            },
            Some(d) => {
                proof {
                    assert(bs[k] == bytes@[i as int]);
                }
                if acc > (u64::MAX - (d as u64)) / 16 {
                    // The accumulated value exceeds 64 bits: by
                    // monotonicity the whole digit prefix does too.
                    proof {
                        assert(hex_value(bs.take(k + 1)) == acc * 16 + d);
                        assert(acc * 16 + d > u64::MAX) by (nonlinear_arith)
                            requires
                                acc > (u64::MAX - (d as u64)) / 16,
                                d < 16,
                        ;
                        lemma_hex_value_nonneg(bs.take(k + 1));
                        lemma_hex_value_extend(bs, k + 1, hex_prefix_len(bs));
                    }
                    return Err(NumParseError::PosOverflow);
                }
                proof {
                    assert(acc * 16 + d <= u64::MAX) by (nonlinear_arith)
                        requires
                            acc <= (u64::MAX - (d as u64)) / 16,
                            d < 16,
                    ;
                }
                acc = acc * 16 + (d as u64);
                i = i + 1;
            },
        }
    }
    proof {
        assert(bs.take(n - start) =~= bs);
        assert(hex_prefix_len(bs) == bs.len());
        lemma_hex_value_nonneg(bs);
    }
    Ok(acc)
}

/// The canonical rendering of the low 40 bits of a value: `"0x"` followed
/// by exactly ten lowercase hexadecimal digits, most significant first.
pub open spec fn spec_hex_label(v: u64) -> Seq<char> {
    seq!['0', 'x'] + Seq::new(10, |i: int| hex_char_of(spec_nibble(v, i)))
}

/// The `i`-th four-bit group of the low 40 bits, counted from the most
/// significant.
pub open spec fn spec_nibble(v: u64, i: int) -> u8 {
    ((v >> ((36 - 4 * i) as u64)) & 0xF) as u8
}

/// The lowercase hexadecimal digit character for a four-bit value.
pub open spec fn hex_char_of(n: u8) -> char {
    if n < 10 {
        ((0x30 + n) as u8) as char
    } else {
        ((0x57 + n) as u8) as char
    }
}

/// Relies on String::push: appends one character to the string.
#[verifier::external_body]
pub(crate) fn push_char(s: &mut String, c: char)
    ensures
        final(s)@ == old(s)@ + seq![c],
{
    s.push(c);
}

/// Renders the low 40 bits of a value in the canonical hexadecimal form.
pub fn hex_label_exec(v: u64) -> (r: String)
    ensures
        r@ == spec_hex_label(v % 0x100_0000_0000),
{
    let low: u64 = v & 0xFF_FFFF_FFFF;
    proof {
        assert(v & 0xFF_FFFF_FFFF == v % 0x100_0000_0000u64) by (bit_vector);
        reveal_strlit("0x");
        assert(("0x")@ =~= seq!['0', 'x']);
    }
    let mut s = String::from_str("0x");
    let mut i: usize = 0;
    while i < 10
        invariant
            i <= 10,
            low == v % 0x100_0000_0000u64,
            s@ == seq!['0', 'x'] + Seq::new(i as nat, |j: int| hex_char_of(spec_nibble(low, j))),
        decreases 10 - i,
    {
        let shift: u64 = 36 - 4 * (i as u64);
        let nib: u8 = ((low >> shift) & 0xF) as u8;
        let c: u8 = if nib < 10 {
            0x30 + nib
        } else {
            proof {
                let l = low;
                let sh = shift;
                assert(((l >> sh) & 0xF) < 16u64) by (bit_vector);
            }
            0x57 + nib
        };
        push_char(&mut s, c as char);
        proof {
            assert(nib == spec_nibble(low, i as int));
            assert(c as char == hex_char_of(nib));
            assert(seq!['0', 'x'] + Seq::new((i + 1) as nat, |j: int| hex_char_of(spec_nibble(low, j)))
                =~= (seq!['0', 'x'] + Seq::new(i as nat, |j: int| hex_char_of(spec_nibble(low, j))))
                + seq![hex_char_of(spec_nibble(low, i as int))]);
        }
        i = i + 1;
    }
    proof {
        assert(s@ =~= spec_hex_label(low));
    }
    s
}

} // verus!

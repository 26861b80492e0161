//! Base-62 codec between non-negative 63-bit integers and short codes.
use vstd::prelude::*;
use vstd::utf8::{encode_utf8, is_ascii_chars_encode_utf8};
use crate::text::{ascii_chars, ascii_text, char_text};

verus! {

/// The symbol that stands for digit value `d`; the alphabet is
/// `hNzYdDs6xriR7elMCZIAq1BtwHjQXSOup2FEn8cJfo4Gyk0W3bPULva5K9VgmT`.
pub open spec fn symbol(d: int) -> u8 {
    if d == 0 {
        104u8
    } else if d == 1 {
        78u8
    } else if d == 2 {
        122u8
    } else if d == 3 {
        89u8
    } else if d == 4 {
        100u8
    } else if d == 5 {
        68u8
    } else if d == 6 {
        115u8
    } else if d == 7 {
        54u8
    } else if d == 8 {
        120u8
    } else if d == 9 {
        114u8
    } else if d == 10 {
        105u8
    } else if d == 11 {
        82u8
    } else if d == 12 {
        55u8
    } else if d == 13 {
        101u8
    } else if d == 14 {
        108u8
    } else if d == 15 {
        77u8
    } else if d == 16 {
        67u8
    } else if d == 17 {
        90u8
    } else if d == 18 {
        73u8
    } else if d == 19 {
        65u8
    } else if d == 20 {
        113u8
    } else if d == 21 {
        49u8
    } else if d == 22 {
        66u8
    } else if d == 23 {
        116u8
    } else if d == 24 {
        119u8
    } else if d == 25 {
        72u8
    } else if d == 26 {
        106u8
    } else if d == 27 {
        81u8
    } else if d == 28 {
        88u8
    } else if d == 29 {
        83u8
    } else if d == 30 {
        79u8
    } else if d == 31 {
        117u8
    } else if d == 32 {
        112u8
    } else if d == 33 {
        50u8
    } else if d == 34 {
        70u8
    } else if d == 35 {
        69u8
    } else if d == 36 {
        110u8
    } else if d == 37 {
        56u8
    } else if d == 38 {
        99u8
    } else if d == 39 {
        74u8
    } else if d == 40 {
        102u8
    } else if d == 41 {
        111u8
    } else if d == 42 {
        52u8
    } else if d == 43 {
        71u8
    } else if d == 44 {
        121u8
    } else if d == 45 {
        107u8
    } else if d == 46 {
        48u8
    } else if d == 47 {
        87u8
    } else if d == 48 {
        51u8
    } else if d == 49 {
        98u8
    } else if d == 50 {
        80u8
    } else if d == 51 {
        85u8
    } else if d == 52 {
        76u8
    } else if d == 53 {
        118u8
    } else if d == 54 {
        97u8
    } else if d == 55 {
        53u8
    } else if d == 56 {
        75u8
    } else if d == 57 {
        57u8
    } else if d == 58 {
        86u8
    } else if d == 59 {
        103u8
    } else if d == 60 {
        109u8
    } else if d == 61 {
        84u8
    } else {
        0u8
    }
}

/// The digit value of a byte, or `None` when the byte is not in the alphabet.
pub open spec fn digit_of(b: u8) -> Option<u8> {
    match b {
        104u8 => Some(0u8),
        78u8 => Some(1u8),
        122u8 => Some(2u8),
        89u8 => Some(3u8),
        100u8 => Some(4u8),
        68u8 => Some(5u8),
        115u8 => Some(6u8),
        54u8 => Some(7u8),
        120u8 => Some(8u8),
        114u8 => Some(9u8),
        105u8 => Some(10u8),
        82u8 => Some(11u8),
        55u8 => Some(12u8),
        101u8 => Some(13u8),
        108u8 => Some(14u8),
        77u8 => Some(15u8),
        67u8 => Some(16u8),
        90u8 => Some(17u8),
        73u8 => Some(18u8),
        65u8 => Some(19u8),
        113u8 => Some(20u8),
        49u8 => Some(21u8),
        66u8 => Some(22u8),
        116u8 => Some(23u8),
        119u8 => Some(24u8),
        72u8 => Some(25u8),
        106u8 => Some(26u8),
        81u8 => Some(27u8),
        88u8 => Some(28u8),
        83u8 => Some(29u8),
        79u8 => Some(30u8),
        117u8 => Some(31u8),
        112u8 => Some(32u8),
        50u8 => Some(33u8),
        70u8 => Some(34u8),
        69u8 => Some(35u8),
        110u8 => Some(36u8),
        56u8 => Some(37u8),
        99u8 => Some(38u8),
        74u8 => Some(39u8),
        102u8 => Some(40u8),
        111u8 => Some(41u8),
        52u8 => Some(42u8),
        71u8 => Some(43u8),
        121u8 => Some(44u8),
        107u8 => Some(45u8),
        48u8 => Some(46u8),
        87u8 => Some(47u8),
        51u8 => Some(48u8),
        98u8 => Some(49u8),
        80u8 => Some(50u8),
        85u8 => Some(51u8),
        76u8 => Some(52u8),
        118u8 => Some(53u8),
        97u8 => Some(54u8),
        53u8 => Some(55u8),
        75u8 => Some(56u8),
        57u8 => Some(57u8),
        86u8 => Some(58u8),
        103u8 => Some(59u8),
        109u8 => Some(60u8),
        84u8 => Some(61u8),
        _ => None,
    }
}

/// Every symbol decodes to its own digit value and is an ASCII byte.
pub proof fn lemma_symbol_digit(d: int)
    requires
        0 <= d < 62,
    ensures
        digit_of(symbol(d)) == Some(d as u8),
        symbol(d) < 128,
{
}

/// The digits of `n`, most significant first, without leading zeros; empty for zero.
pub open spec fn digits(n: nat) -> Seq<u8>
    decreases n,
{
    if n == 0 {
        Seq::empty()
    } else {
        digits(n / 62).push(symbol((n % 62) as int))
    }
}

/// The code of `num`: its digits, or the single symbol of digit zero when `num <= 0`.
pub open spec fn encode_value(num: i64) -> Seq<u8> {
    if num <= 0 {
        seq![symbol(0)]
    } else {
        digits(num as nat)
    }
}

/// Why a code could not be decoded.
#[derive(Debug, Clone, Copy, PartialEq, Eq, Structural)]
pub enum DecodeError {
    Empty,
    InvalidCharacter(u8),
    Overflow,
}

/// Reads a sequence of symbols left to right: the first byte outside the
/// alphabet, or the first step past `i64::MAX`, is the error.
pub open spec fn decode_prefix(b: Seq<u8>) -> Result<i64, DecodeError>
    decreases b.len(),
{
    if b.len() == 0 {
        Ok(0)
    } else {
        match decode_prefix(b.drop_last()) {
            Err(e) => Err(e),
            Ok(v) => match digit_of(b.last()) {
                None => Err(DecodeError::InvalidCharacter(b.last())),
                Some(d) => if v * 62 + d > i64::MAX {
                    Err(DecodeError::Overflow)
                } else {
                    Ok((v * 62 + d) as i64)
                },
            },
        }
    }
}

/// The value of a code given as bytes; an empty code is an error of its own.
pub open spec fn decode_value(b: Seq<u8>) -> Result<i64, DecodeError> {
    if b.len() == 0 {
        Err(DecodeError::Empty)
    } else {
        decode_prefix(b)
    }
}

/// The text of a decoding error.
pub open spec fn error_message(e: DecodeError) -> Seq<char> {
    match e {
        DecodeError::Empty => "base62 input is empty"@,
        DecodeError::InvalidCharacter(b) => "invalid base62 character: "@.push(b as char),
        DecodeError::Overflow => "base62 value overflow"@,
    }
}

impl DecodeError {
    pub fn message(&self) -> (r: String)
        ensures
            r@ == error_message(*self),
    {
        match self {
            DecodeError::Empty => "base62 input is empty".to_owned(),
            DecodeError::InvalidCharacter(b) => {
                let mut s = "invalid base62 character: ".to_owned();
                let c = char_text(*b as char);
                s.append(c.as_str());
                s
            },
            DecodeError::Overflow => "base62 value overflow".to_owned(),
        }
    }
}

fn symbol_byte(d: u8) -> (r: u8)
    requires
        d < 62,
    ensures
        r == symbol(d as int),
{
    match d {
        0u8 => 104u8,
        1u8 => 78u8,
        2u8 => 122u8,
        3u8 => 89u8,
        4u8 => 100u8,
        5u8 => 68u8,
        6u8 => 115u8,
        7u8 => 54u8,
        8u8 => 120u8,
        9u8 => 114u8,
        10u8 => 105u8,
        11u8 => 82u8,
        12u8 => 55u8,
        13u8 => 101u8,
        14u8 => 108u8,
        15u8 => 77u8,
        16u8 => 67u8,
        17u8 => 90u8,
        18u8 => 73u8,
        19u8 => 65u8,
        20u8 => 113u8,
        21u8 => 49u8,
        22u8 => 66u8,
        23u8 => 116u8,
        24u8 => 119u8,
        25u8 => 72u8,
        26u8 => 106u8,
        27u8 => 81u8,
        28u8 => 88u8,
        29u8 => 83u8,
        30u8 => 79u8,
        31u8 => 117u8,
        32u8 => 112u8,
        33u8 => 50u8,
        34u8 => 70u8,
        35u8 => 69u8,
        36u8 => 110u8,
        37u8 => 56u8,
        38u8 => 99u8,
        39u8 => 74u8,
        40u8 => 102u8,
        41u8 => 111u8,
        42u8 => 52u8,
        43u8 => 71u8,
        44u8 => 121u8,
        45u8 => 107u8,
        46u8 => 48u8,
        47u8 => 87u8,
        48u8 => 51u8,
        49u8 => 98u8,
        50u8 => 80u8,
        51u8 => 85u8,
        52u8 => 76u8,
        53u8 => 118u8,
        54u8 => 97u8,
        55u8 => 53u8,
        56u8 => 75u8,
        57u8 => 57u8,
        58u8 => 86u8,
        59u8 => 103u8,
        60u8 => 109u8,
        61u8 => 84u8,
        _ => 0u8,
    }
}

fn lookup_table(b: u8) -> (r: Option<u8>)
    ensures
        r == digit_of(b),
{
    match b {
        104u8 => Some(0u8),
        78u8 => Some(1u8),
        122u8 => Some(2u8),
        89u8 => Some(3u8),
        100u8 => Some(4u8),
        68u8 => Some(5u8),
        115u8 => Some(6u8),
        54u8 => Some(7u8),
        120u8 => Some(8u8),
        114u8 => Some(9u8),
        105u8 => Some(10u8),
        82u8 => Some(11u8),
        55u8 => Some(12u8),
        101u8 => Some(13u8),
        108u8 => Some(14u8),
        77u8 => Some(15u8),
        67u8 => Some(16u8),
        90u8 => Some(17u8),
        73u8 => Some(18u8),
        65u8 => Some(19u8),
        113u8 => Some(20u8),
        49u8 => Some(21u8),
        66u8 => Some(22u8),
        116u8 => Some(23u8),
        119u8 => Some(24u8),
        72u8 => Some(25u8),
        106u8 => Some(26u8),
        81u8 => Some(27u8),
        88u8 => Some(28u8),
        83u8 => Some(29u8),
        79u8 => Some(30u8),
        117u8 => Some(31u8),
        112u8 => Some(32u8),
        50u8 => Some(33u8),
        70u8 => Some(34u8),
        69u8 => Some(35u8),
        110u8 => Some(36u8),
        56u8 => Some(37u8),
        99u8 => Some(38u8),
        74u8 => Some(39u8),
        102u8 => Some(40u8),
        111u8 => Some(41u8),
        52u8 => Some(42u8),
        71u8 => Some(43u8),
        121u8 => Some(44u8),
        107u8 => Some(45u8),
        48u8 => Some(46u8),
        87u8 => Some(47u8),
        51u8 => Some(48u8),
        98u8 => Some(49u8),
        80u8 => Some(50u8),
        85u8 => Some(51u8),
        76u8 => Some(52u8),
        118u8 => Some(53u8),
        97u8 => Some(54u8),
        53u8 => Some(55u8),
        75u8 => Some(56u8),
        57u8 => Some(57u8),
        86u8 => Some(58u8),
        103u8 => Some(59u8),
        109u8 => Some(60u8),
        84u8 => Some(61u8),
        _ => None,
    }
}

/// Writes `num` in base 62, most significant digit first.
pub fn encode(num: i64) -> (r: String)
    ensures
        r@ == ascii_chars(encode_value(num)),
{
    let mut buf: Vec<u8> = Vec::new();
    if num <= 0 {
        let s = symbol_byte(0);
        buf.push(s);
        proof {
            lemma_symbol_digit(0);
            assert(buf@ =~= encode_value(num));
        }
    } else {
        let mut n: u64 = num as u64;
        while n > 0
            invariant
                digits(num as nat) == digits(n as nat) + buf@,
                forall|i: int| 0 <= i < buf@.len() ==> #[trigger] buf@[i] < 128,
            decreases n,
        {
            let rem: u8 = (n % 62) as u8;
            let s = symbol_byte(rem);
            proof {
                lemma_symbol_digit(rem as int);
            }
            let ghost old_buf = buf@;
            buf.insert(0, s);
            proof {
                assert(digits(n as nat) == digits((n / 62) as nat).push(s));
                assert(buf@ =~= seq![s] + old_buf);
                assert(digits(n as nat) + old_buf =~= digits((n / 62) as nat) + buf@);
            }
            n = n / 62;
        }
        proof {
            assert(buf@ =~= digits(num as nat));
        }
    }
    ascii_text(buf)
}

proof fn lemma_error_persists(s: Seq<u8>, i: int)
    requires
        0 <= i <= s.len(),
        decode_prefix(s.subrange(0, i)) is Err,
    ensures
        decode_prefix(s) == decode_prefix(s.subrange(0, i)),
    decreases s.len(),
{
    if i == s.len() {
        assert(s.subrange(0, i) =~= s);
    } else {
        assert(s.drop_last().subrange(0, i) =~= s.subrange(0, i));
        lemma_error_persists(s.drop_last(), i);
    }
}

/// Decodes a code given as bytes.
pub fn decode_bytes(b: &[u8]) -> (r: Result<i64, DecodeError>)
    ensures
        r == decode_value(b@),
{
    if b.len() == 0 {
        return Err(DecodeError::Empty);
    }
    let mut value: i64 = 0;
    let mut i: usize = 0;
    proof {
        assert(b@.subrange(0, 0).len() == 0);
    }
    while i < b.len()
        invariant
            0 <= i <= b@.len(),
            b@.len() > 0,
            decode_prefix(b@.subrange(0, i as int)) == Ok::<i64, DecodeError>(value),
            value >= 0,
        decreases b@.len() - i,
    {
        let ch = b[i];
        proof {
            assert(b@.subrange(0, i + 1).drop_last() =~= b@.subrange(0, i as int));
            assert(b@.subrange(0, i + 1).last() == ch);
        }
        match lookup_table(ch) {
            None => {
                proof {
                    lemma_error_persists(b@, i + 1);
                }
                return Err(DecodeError::InvalidCharacter(ch));
            },
            Some(d) => {
                if value > (i64::MAX - d as i64) / 62 {
                    proof {
                        lemma_error_persists(b@, i + 1);
                    }
                    return Err(DecodeError::Overflow);
                }
                value = value * 62 + d as i64;
            },
        }
        i = i + 1;
    }
    proof {
        assert(b@.subrange(0, b@.len() as int) =~= b@);
    }
    Ok(value)
}

/// Decodes a code given as text, every character of which must be a symbol
/// of the alphabet; an error is reported by its message.
pub fn decode(input: &str) -> (r: Result<i64, String>)
    ensures
        match decode_value(encode_utf8(input@)) {
            Ok(v) => r == Ok::<i64, String>(v),
            Err(e) => r is Err && r->Err_0@ == error_message(e),
        },
{
    let b = input.as_bytes();
    match decode_bytes(b) {
        Ok(v) => Ok(v),
        Err(e) => Err(e.message()),
    }
}

/// Decoding the code of any non-negative `n` gives back `n`.
pub proof fn lemma_round_trip(n: i64)
    requires
        n >= 0,
    ensures
        decode_value(encode_value(n)) == Ok::<i64, DecodeError>(n),
{
    if n == 0 {
        lemma_symbol_digit(0);
        assert(seq![symbol(0)].drop_last() =~= Seq::<u8>::empty());
    } else {
        lemma_digits_round_trip(n as nat);
    }
}

/// A code with a byte outside the alphabet is rejected as an invalid
/// character, naming the first such byte, unless the digits before it
/// already overflow.
pub proof fn lemma_foreign_byte_rejected(b: Seq<u8>, k: int)
    requires
        0 <= k < b.len(),
        digit_of(b[k]) is None,
        decode_prefix(b.subrange(0, k)) is Ok,
    ensures
        decode_value(b) == Err::<i64, DecodeError>(DecodeError::InvalidCharacter(b[k])),
{
    assert(b.subrange(0, k + 1).drop_last() =~= b.subrange(0, k));
    assert(b.subrange(0, k + 1).last() == b[k]);
    lemma_error_persists(b, k + 1);
}

/// Every byte of a code is an ASCII symbol of the alphabet.
proof fn lemma_digits_ascii(n: nat)
    ensures
        forall|i: int| 0 <= i < digits(n).len() ==> #[trigger] digits(n)[i] < 128,
    decreases n,
{
    if n > 0 {
        lemma_digits_ascii(n / 62);
        lemma_symbol_digit((n % 62) as int);
        assert forall|i: int| 0 <= i < digits(n).len() implies #[trigger] digits(n)[i] < 128 by {
            if i < digits(n / 62).len() {
                assert(digits(n)[i] == digits(n / 62)[i]);
            }
        }
    }
}

/// Decoding the text that `encode` gives for any non-negative `n` gives back `n`.
pub proof fn lemma_text_round_trip(n: i64)
    requires
        n >= 0,
    ensures
        decode_value(encode_utf8(ascii_chars(encode_value(n)))) == Ok::<i64, DecodeError>(n),
{
    let e = encode_value(n);
    if n <= 0 {
        lemma_symbol_digit(0);
    } else {
        lemma_digits_ascii(n as nat);
    }
    assert(forall|i: int| 0 <= i < e.len() ==> #[trigger] e[i] < 128);
    let c = ascii_chars(e);
    assert forall|i: int| 0 <= i < c.len() implies '\0' <= #[trigger] c[i] <= '\u{7f}' by {
        assert(c[i] == e[i] as char);
        assert(e[i] < 128);
    }
    is_ascii_chars_encode_utf8(c);
    assert forall|i: int| 0 <= i < e.len() implies encode_utf8(c)[i] == e[i] by {
        assert(c[i] == e[i] as char);
        assert((e[i] as char) as u32 == e[i] as u32);
    }
    assert(encode_utf8(c) =~= e);
    lemma_round_trip(n);
}

proof fn lemma_digits_round_trip(n: nat)
    requires
        n <= i64::MAX,
    ensures
        decode_prefix(digits(n)) == Ok::<i64, DecodeError>(n as i64),
    decreases n,
{
    if n > 0 {
        lemma_digits_round_trip(n / 62);
        lemma_symbol_digit((n % 62) as int);
        assert(digits(n).drop_last() =~= digits(n / 62));
    }
}

} // verus!

//! Hexadecimal encoding and decoding of byte strings.
//!
//! The command line hands the virtual machine its bytecode as a hex string:
//! two digits per byte, no prefix.  Decoding rejects strings of odd length
//! and strings holding a non-digit; encoding produces lowercase digits.

use vstd::prelude::*;
use vstd::string::{StringExecFns, StringSliceAdditionalSpecFns};

verus! {

/// Why a hexadecimal string was rejected.
#[derive(Copy, Clone, Debug, PartialEq, Eq, Structural)]
pub enum HexError {
    /// The length is odd: a trailing half byte.
    OddLength,
    /// A character is no hexadecimal digit.
    InvalidDigit,
}

/// The value of an ASCII hexadecimal digit byte, upper or lower case.
pub open spec fn spec_hex_digit(b: u8) -> Option<u8> {
    if 0x30 <= b <= 0x39 {
        Some((b - 0x30) as u8)
    } else if 0x61 <= b <= 0x66 {
        Some((b - 0x61 + 10) as u8)
    } else if 0x41 <= b <= 0x46 {
        Some((b - 0x41 + 10) as u8)
    } else {
        None
    }
}

/// True when the UTF-8 bytes of a string form a decodable hex string:
/// even length, every byte a digit.
pub open spec fn spec_hex_ok(s: Seq<u8>) -> bool {
    s.len() % 2 == 0 && (forall|i: int| 0 <= i < s.len() ==> spec_hex_digit(#[trigger] s[i]) is Some)
}

/// The byte encoded by the digit pair at positions `2 i` and `2 i + 1`.
pub open spec fn spec_hex_pair(s: Seq<u8>, i: int) -> u8 {
    (spec_hex_digit(s[2 * i]).unwrap() * 16 + spec_hex_digit(s[2 * i + 1]).unwrap()) as u8
}

/// The value of one digit byte, or `None` where the byte is no digit.
fn hex_digit(b: u8) -> (r: Option<u8>)
    ensures
        r == spec_hex_digit(b),
{
    if 0x30 <= b && b <= 0x39 {
        Some(b - 0x30)
    } else if 0x61 <= b && b <= 0x66 {
        Some(b - 0x61 + 10)
    } else if 0x41 <= b && b <= 0x46 {
        Some(b - 0x41 + 10)
    } else {
        None
    }
}

/// Decodes a hex string into bytes: two digits per byte, most significant
/// digit first.  Fails on odd length or on any non-digit character, and
/// only then.
pub fn decode_hex(s: &str) -> (r: Result<Vec<u8>, HexError>)
    ensures
        r is Ok <==> spec_hex_ok(s.spec_bytes()),
        r == Err::<Vec<u8>, HexError>(HexError::OddLength) <==> s.spec_bytes().len() % 2 != 0,
        match r {
            Ok(v) => {
                &&& v@.len() == s.spec_bytes().len() / 2
                &&& forall|i: int| 0 <= i < v@.len() ==> v@[i] == spec_hex_pair(s.spec_bytes(), i)
            },
            Err(_) => true,
        },
{
    let bytes = s.as_bytes();
    let n = bytes.len();
    if n % 2 != 0 {
        return Err(HexError::OddLength);
    }
    let mut v: Vec<u8> = Vec::new();
    let mut i: usize = 0;
    while i < n
        invariant
            i <= n,
            i % 2 == 0,
            n % 2 == 0,
            n == bytes@.len(),
            bytes@ == s.spec_bytes(),
            v@.len() == i / 2,
            forall|t: int| 0 <= t < i ==> spec_hex_digit(#[trigger] bytes@[t]) is Some,
            forall|t: int| 0 <= t < i / 2 ==> v@[t] == spec_hex_pair(bytes@, t),
        decreases n - i,
    {
        let hi = match hex_digit(bytes[i]) {
            Some(d) => d,
            None => {
                return Err(HexError::InvalidDigit);
            },
        };
        let lo = match hex_digit(bytes[i + 1]) {
            Some(d) => d,
            None => {
                return Err(HexError::InvalidDigit);
            },
        };
        v.push(hi * 16 + lo);
        proof {
            assert(v@[i as int / 2] == spec_hex_pair(bytes@, i as int / 2));
        }
        i = i + 2;
    }
    Ok(v)
}

/// The lowercase hexadecimal digit character for a value below 16.
pub open spec fn spec_hex_char(d: u8) -> char {
    if d == 0 {
        '0'
    } else if d == 1 {
        '1'
    } else if d == 2 {
        '2'
    } else if d == 3 {
        '3'
    } else if d == 4 {
        '4'
    } else if d == 5 {
        '5'
    } else if d == 6 {
        '6'
    } else if d == 7 {
        '7'
    } else if d == 8 {
        '8'
    } else if d == 9 {
        '9'
    } else if d == 10 {
        'a'
    } else if d == 11 {
        'b'
    } else if d == 12 {
        'c'
    } else if d == 13 {
        'd'
    } else if d == 14 {
        'e'
    } else {
        'f'
    }
}

/// The digit character for a value below 16, as a one-character string.
fn hex_char_str(d: u8) -> (r: &'static str)
    requires
        d < 16,
    ensures
        r@.len() == 1,
        r@[0] == spec_hex_char(d),
{
    proof {
        reveal_strlit("0");
        reveal_strlit("1");
        reveal_strlit("2");
        reveal_strlit("3");
        reveal_strlit("4");
        reveal_strlit("5");
        reveal_strlit("6");
        reveal_strlit("7");
        reveal_strlit("8");
        reveal_strlit("9");
        reveal_strlit("a");
        reveal_strlit("b");
        reveal_strlit("c");
        reveal_strlit("d");
        reveal_strlit("e");
        reveal_strlit("f");
    }
    match d {
        0 => "0",
        1 => "1",
        2 => "2",
        3 => "3",
        4 => "4",
        5 => "5",
        6 => "6",
        7 => "7",
        8 => "8",
        9 => "9",
        10 => "a",
        11 => "b",
        12 => "c",
        13 => "d",
        14 => "e",
        _ => "f",
    }
}

/// Encodes bytes as lowercase hex, two digits per byte, most significant
/// digit first.
pub fn encode_hex(bytes: &[u8]) -> (r: String)
    ensures
        r@.len() == 2 * bytes@.len(),
        forall|i: int|
            0 <= i < bytes@.len() ==> r@[2 * i] == spec_hex_char(
                (#[trigger] bytes@[i] / 16) as u8,
            ) && r@[2 * i + 1] == spec_hex_char((bytes@[i] % 16) as u8),
{
    let n = bytes.len();
    let mut r = String::new();
    let mut i: usize = 0;
    while i < n
        invariant
            i <= n,
            n == bytes@.len(),
            r@.len() == 2 * i,
            forall|t: int|
                0 <= t < i ==> r@[2 * t] == spec_hex_char((#[trigger] bytes@[t] / 16) as u8)
                    && r@[2 * t + 1] == spec_hex_char((bytes@[t] % 16) as u8),
        decreases n - i,
    {
        let b = bytes[i];
        r.append(hex_char_str(b / 16));
        r.append(hex_char_str(b % 16));
        i = i + 1;
    }
    r
}

} // verus!

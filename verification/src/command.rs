use vstd::prelude::*;
use vstd::string::StringSliceAdditionalSpecFns;

verus! {

/// Command that starts a measurement on the scanner.
pub const START_MEASUREMENT_COMMAND: &'static str = "5A29";

/// Command that stops a measurement on the scanner.
pub const STOP_MEASUREMENT_COMMAND: &'static str = "5A30";

/// Why a command's hex text could not be decoded.
#[derive(PartialEq, Eq, Structural, Clone, Copy, Debug)]
pub enum HexError {
    /// The byte at `index` is not a hex digit; `c` is that byte as a char.
    InvalidCharacter { c: char, index: usize },
    /// The number of hex digits is odd.
    OddLength,
    /// The text does not fit the requested length.
    InvalidStringLength,
}

/// Whether a byte is an ASCII hex digit (either case).
pub open spec fn is_hex_digit(b: u8) -> bool {
    (0x30 <= b <= 0x39) || (0x41 <= b <= 0x46) || (0x61 <= b <= 0x66)
}

/// The value of a hex digit.
pub open spec fn hex_value(b: u8) -> int {
    if 0x30 <= b <= 0x39 {
        b - 0x30
    } else if 0x41 <= b <= 0x46 {
        b - 0x41 + 10
    } else {
        b - 0x61 + 10
    }
}

/// The bytes that pairs of hex digits stand for, high digit first.
pub open spec fn hex_bytes(data: Seq<u8>) -> Seq<u8> {
    Seq::new(
        data.len() / 2,
        |i: int| (hex_value(data[2 * i]) * 16 + hex_value(data[2 * i + 1])) as u8,
    )
}

/// The position of the first byte that is not a hex digit, if any.
pub open spec fn first_non_hex(data: Seq<u8>) -> Option<int> {
    if exists|i: int| 0 <= i < data.len() && !is_hex_digit(#[trigger] data[i]) {
        Some(
            choose|i: int|
                0 <= i < data.len() && !is_hex_digit(#[trigger] data[i]) && forall|j: int|
                    0 <= j < i ==> is_hex_digit(#[trigger] data[j]),
        )
    } else {
        None
    }
}

/// Hex decoding: an odd number of digits is refused first, then the first
/// byte that is not a hex digit; otherwise each pair of digits is a byte.
pub open spec fn spec_hex_decode(data: Seq<u8>) -> Result<Seq<u8>, HexError> {
    if data.len() % 2 != 0 {
        Err(HexError::OddLength)
    } else {
        match first_non_hex(data) {
            Some(i) => Err(HexError::InvalidCharacter { c: data[i] as char, index: i as usize }),
            None => Ok(hex_bytes(data)),
        }
    }
}

/// `hex::decode`: decodes hex text (digits in either case) into bytes.  Its
/// source checks the length first, then reads the digits two by two and
/// stops at the first byte that is not a hex digit; the contract states
/// exactly that.  The crate's error is converted variant by variant.
#[verifier::external_body]
fn hex_decode(data: &[u8]) -> (r: Result<Vec<u8>, HexError>)
    ensures
        match r {
            Ok(v) => spec_hex_decode(data@) == Ok::<Seq<u8>, HexError>(v@),
            Err(e) => spec_hex_decode(data@) == Err::<Seq<u8>, HexError>(e),
        },
{
    match hex::decode(data) {
        Ok(v) => Ok(v),
        Err(hex::FromHexError::InvalidHexCharacter { c, index }) => Err(
            HexError::InvalidCharacter { c, index },
        ),
        Err(hex::FromHexError::OddLength) => Err(HexError::OddLength),
        Err(hex::FromHexError::InvalidStringLength) => Err(HexError::InvalidStringLength),
    }
}

/// The bytes without their spaces.
pub open spec fn without_spaces(s: Seq<u8>) -> Seq<u8>
    decreases s.len(),
{
    if s.len() == 0 {
        s
    } else {
        let prev = without_spaces(s.drop_last());
        if s.last() == 0x20 {
            prev
        } else {
            prev.push(s.last())
        }
    }
}

/// The bytes without their "0x" prefixes: occurrences of "0x" are removed
/// from left to right, without overlap.
pub open spec fn without_hex_prefixes(s: Seq<u8>) -> Seq<u8>
    decreases s.len(),
{
    if s.len() < 2 {
        s
    } else if s[0] == 0x30 && s[1] == 0x78 {
        without_hex_prefixes(s.skip(2))
    } else {
        seq![s[0]] + without_hex_prefixes(s.skip(1))
    }
}

/// The hex text of a command as it is decoded: its UTF-8 bytes without
/// spaces, then without "0x".
pub open spec fn normalized_command(command: &str) -> Seq<u8> {
    without_hex_prefixes(without_spaces(command.spec_bytes()))
}

fn remove_spaces(s: &[u8]) -> (r: Vec<u8>)
    ensures
        r@ == without_spaces(s@),
{
    let mut out: Vec<u8> = Vec::new();
    let mut i: usize = 0;
    while i < s.len()
        invariant
            i <= s@.len(),
            out@ == without_spaces(s@.subrange(0, i as int)),
        decreases s@.len() - i,
    {
        assert(s@.subrange(0, i + 1).drop_last() =~= s@.subrange(0, i as int));
        if s[i] != 0x20 {
            out.push(s[i]);
        }
        i = i + 1;
    }
    assert(s@.subrange(0, s@.len() as int) =~= s@);
    out
}

fn remove_hex_prefixes(s: &Vec<u8>) -> (r: Vec<u8>)
    ensures
        r@ == without_hex_prefixes(s@),
{
    let mut out: Vec<u8> = Vec::new();
    let mut i: usize = 0;
    assert(s@.skip(0) =~= s@);
    while i < s.len()
        invariant
            i <= s@.len(),
            out@ + without_hex_prefixes(s@.skip(i as int)) == without_hex_prefixes(s@),
        decreases s@.len() - i,
    {
        let ghost rest = s@.skip(i as int);
        if i + 1 < s.len() && s[i] == 0x30 && s[i + 1] == 0x78 {
            assert(rest.skip(2) =~= s@.skip(i + 2));
            i = i + 2;
        } else {
            assert(rest.skip(1) =~= s@.skip(i + 1));
            assert(rest[0] == s@[i as int]);
            assert(out@.push(s@[i as int]) + without_hex_prefixes(s@.skip(i + 1)) =~= out@ + (seq![
                rest[0],
            ] + without_hex_prefixes(rest.skip(1))));
            out.push(s[i]);
            i = i + 1;
        }
    }
    assert(s@.skip(i as int) =~= Seq::<u8>::empty());
    assert(out@ + Seq::<u8>::empty() =~= out@);
    out
}

/// The bytes of a command given as hex text, as they are sent to the
/// scanner: spaces and "0x" prefixes are dropped, then the text is decoded.
pub fn encode_command(command: &str) -> (r: Result<Vec<u8>, HexError>)
    ensures
        match r {
            Ok(v) => spec_hex_decode(normalized_command(command)) == Ok::<Seq<u8>, HexError>(v@),
            Err(e) => spec_hex_decode(normalized_command(command)) == Err::<Seq<u8>, HexError>(e),
        },
{
    let spaced = remove_spaces(command.as_bytes());
    let text = remove_hex_prefixes(&spaced);
    hex_decode(text.as_slice())
}

} // verus!

//! Parsers for the basic data types of the SOME/IP on-the-wire format.
//!
//! A parser takes the bytes that are left of a message and returns the value
//! at their front together with the bytes behind it. Where the bytes do not
//! hold a value the parser says why, and at which input.
use vstd::prelude::*;
use vstd::slice::slice_to_vec;
use vstd::utf8::{decode_utf8, valid_utf8};

verus! {

/// Byte order of a byte sequence.
#[derive(Clone, Copy, Debug, PartialEq, Eq, Structural)]
pub enum ByteOrder {
    /// Byte order with least significant byte coming first.
    LittleEndian,
    /// Byte order with most significant byte coming first.
    BigEndian,
}

/// Encoding of text into SOME/IP string on-the-wire format.
#[derive(Clone, Copy, Debug, PartialEq, Eq, Structural)]
pub enum StringEncoding {
    Utf8,
    Utf16LE,
    Utf16BE,
}

/// Size of length indicators in SOME/IP on-the-wire format
#[derive(Clone, Copy, Debug, PartialEq, Eq, Structural)]
pub enum LengthSize {
    /// Length field with 1 byte size.
    Length1,
    /// Length field with 2 byte size.
    Length2,
    /// Length field with 4 byte size.
    Length4,
}

/// Why a parser found no value.
#[derive(Clone, Copy, Debug, PartialEq, Eq, Structural)]
pub enum ParseErrorKind {
    /// The input ends before the value does.
    Eof,
    /// A length field holds a length that is not allowed.
    LengthValue,
    /// The value is not terminated as it has to be.
    Verify,
    /// The bytes of the value do not encode text.
    Fail,
}

/// The failure of a parser: the input that it was given, and the reason.
#[derive(Clone, Copy, Debug, PartialEq, Eq)]
pub struct ParseError<'a> {
    pub input: &'a [u8],
    pub code: ParseErrorKind,
}

/// The number that `bytes` holds with the most significant byte first.
pub open spec fn be_value(bytes: Seq<u8>) -> nat
    decreases bytes.len(),
{
    if bytes.len() == 0 {
        0
    } else {
        256 * be_value(bytes.drop_last()) + bytes.last() as nat
    }
}

/// The number that `bytes` holds with the least significant byte first.
pub open spec fn le_value(bytes: Seq<u8>) -> nat
    decreases bytes.len(),
{
    if bytes.len() == 0 {
        0
    } else {
        bytes.first() as nat + 256 * le_value(bytes.drop_first())
    }
}

/// The unsigned number that `bytes` holds in the given byte order.
pub open spec fn unsigned(order: ByteOrder, bytes: Seq<u8>) -> nat {
    match order {
        ByteOrder::BigEndian => be_value(bytes),
        ByteOrder::LittleEndian => le_value(bytes),
    }
}

/// The number of values that `n` bytes can tell apart: 256 to the power of
/// `n`.
pub open spec fn radix(n: nat) -> nat
    decreases n,
{
    if n == 0 {
        1
    } else {
        256 * radix((n - 1) as nat)
    }
}

/// The signed number that `bytes` holds in two's complement in the given
/// byte order.
pub open spec fn signed(order: ByteOrder, bytes: Seq<u8>) -> int {
    let value = unsigned(order, bytes);
    if 2 * value >= radix(bytes.len()) {
        value - radix(bytes.len())
    } else {
        value as int
    }
}

/// A number of `n` bytes is below 256 to the power of `n`.
pub proof fn lemma_value_below_radix(order: ByteOrder, bytes: Seq<u8>)
    ensures
        unsigned(order, bytes) < radix(bytes.len()),
    decreases bytes.len(),
{
    if bytes.len() > 0 {
        lemma_value_below_radix(order, bytes.drop_last());
        lemma_value_below_radix(order, bytes.drop_first());
    }
}

/// The first powers of 256.
pub proof fn lemma_radix_values()
    ensures
        radix(0) == 1,
        radix(1) == 0x100,
        radix(2) == 0x1_0000,
        radix(3) == 0x100_0000,
        radix(4) == 0x1_0000_0000,
        radix(5) == 0x100_0000_0000,
        radix(6) == 0x1_0000_0000_0000,
        radix(7) == 0x100_0000_0000_0000,
        radix(8) == 0x1_0000_0000_0000_0000,
{
    reveal_with_fuel(radix, 9);
}

impl LengthSize {
    /// The number of bytes of the length field.
    pub open spec fn spec_size(&self) -> usize {
        match *self {
            LengthSize::Length1 => 1,
            LengthSize::Length2 => 2,
            LengthSize::Length4 => 4,
        }
    }

    #[verifier::when_used_as_spec(spec_size)]
    pub fn size(&self) -> (n: usize)
        ensures
            n == self.spec_size(),
    {
        match self {
            LengthSize::Length1 => 1,
            LengthSize::Length2 => 2,
            LengthSize::Length4 => 4,
        }
    }
}

/// Splits `count` bytes off the front of the input. The result holds the
/// bytes behind them first, then the bytes taken.
pub fn take<'a>(count: usize, i: &'a [u8]) -> (result: Result<(&'a [u8], &'a [u8]), ParseError<'a>>)
    ensures
        result is Ok <==> count <= i@.len(),
        match result {
            Ok((rem, taken)) => {
                &&& count <= i@.len()
                &&& taken@ == i@.subrange(0, count as int)
                &&& rem@ == i@.subrange(count as int, i@.len() as int)
            },
            Err(e) => i@.len() < count && e.input@ == i@ && e.code == ParseErrorKind::Eof,
        },
{
    if i.len() < count {
        Err(ParseError { input: i, code: ParseErrorKind::Eof })
    } else {
        let (taken, rem) = i.split_at(count);
        Ok((rem, taken))
    }
}

/// Reads up to eight bytes as one unsigned number.
fn read_unsigned(order: ByteOrder, bytes: &[u8]) -> (value: u64)
    requires
        bytes@.len() <= 8,
    ensures
        value == unsigned(order, bytes@),
        value < radix(bytes@.len()),
{
    let n = bytes.len();
    let mut value: u64 = 0;
    let mut k: usize = 0;
    proof {
        lemma_radix_values();
    }
    match order {
        ByteOrder::BigEndian => {
            while k < n
                invariant
                    k <= n,
                    n == bytes@.len(),
                    n <= 8,
                    value == be_value(bytes@.subrange(0, k as int)),
                    value < radix(k as nat),
                decreases n - k,
            {
                proof {
                    let next = bytes@.subrange(0, k + 1);
                    assert(next.drop_last() =~= bytes@.subrange(0, k as int));
                    assert(next.last() == bytes@[k as int]);
                    lemma_radix_grows(k as nat + 1, 8);
                    lemma_radix_values();
                    assert(radix(k as nat + 1) == 256 * radix(k as nat));
                }
                value = value * 256 + bytes[k] as u64;
                k += 1;
            }
            proof {
                assert(bytes@.subrange(0, n as int) =~= bytes@);
            }
        },
        ByteOrder::LittleEndian => {
            while k < n
                invariant
                    k <= n,
                    n == bytes@.len(),
                    n <= 8,
                    value == le_value(bytes@.subrange(n - k, n as int)),
                    value < radix(k as nat),
                decreases n - k,
            {
                proof {
                    let next = bytes@.subrange(n - k - 1, n as int);
                    assert(next.drop_first() =~= bytes@.subrange(n - k, n as int));
                    assert(next.first() == bytes@[n - k - 1]);
                    lemma_radix_grows(k as nat + 1, 8);
                    lemma_radix_values();
                    assert(radix(k as nat + 1) == 256 * radix(k as nat));
                }
                value = value * 256 + bytes[n - k - 1] as u64;
                k += 1;
            }
            proof {
                assert(bytes@.subrange(0, n as int) =~= bytes@);
            }
        },
    }
    value
}

/// More bytes tell more values apart.
proof fn lemma_radix_grows(a: nat, b: nat)
    requires
        a <= b,
    ensures
        radix(a) <= radix(b),
        radix(a) >= 1,
    decreases b,
{
    if a < b {
        lemma_radix_grows(a, (b - 1) as nat);
    } else if a > 0 {
        lemma_radix_grows((a - 1) as nat, (a - 1) as nat);
    }
}

/// True if the input `i` holds at least `width` bytes and `rem` is what
/// follows them.
pub open spec fn parses_integer(i: Seq<u8>, width: nat, rem: Seq<u8>) -> bool {
    width <= i.len() && rem == i.subrange(width as int, i.len() as int)
}

/// Parses a single byte from the input as SOME/IP boolean value.
/// SOME/IP booleans are encoding its true value in the lowest bit as 0 = false and 1 = true.
/// The remaining bits must be ignored.
pub fn boolean<'a>(i: &'a [u8]) -> (result: Result<(&'a [u8], bool), ParseError<'a>>)
    ensures
        result is Ok <==> i@.len() >= 1,
        match result {
            Ok((rem, value)) => {
                &&& parses_integer(i@, 1, rem@)
                &&& value == (i@[0] % 2 == 1)
            },
            Err(e) => i@.len() < 1 && e.input@ == i@ && e.code == ParseErrorKind::Eof,
        },
{
    match uint8(i) {
        Ok((rem, val)) => {
            assert((val & 0x01) != 0 <==> val % 2 == 1) by (bit_vector);
            Ok((rem, (val & 0x01) != 0))
        },
        Err(e) => Err(e),
    }
}

/// Parses a single byte from the input as SOME/IP uint8 value.
pub fn uint8<'a>(i: &'a [u8]) -> (result: Result<(&'a [u8], u8), ParseError<'a>>)
    ensures
        result is Ok <==> i@.len() >= 1,
        match result {
            Ok((rem, value)) => parses_integer(i@, 1, rem@) && value == i@[0],
            Err(e) => i@.len() < 1 && e.input@ == i@ && e.code == ParseErrorKind::Eof,
        },
{
    match take(1usize, i) {
        Ok((rem, val)) => Ok((rem, val[0])),
        Err(e) => Err(e),
    }
}

/// Parses a single byte from the input as SOME/IP sint8 value.
pub fn sint8<'a>(i: &'a [u8]) -> (result: Result<(&'a [u8], i8), ParseError<'a>>)
    ensures
        result is Ok <==> i@.len() >= 1,
        match result {
            Ok((rem, value)) => {
                &&& parses_integer(i@, 1, rem@)
                &&& value == signed(ByteOrder::BigEndian, i@.subrange(0, 1))
            },
            Err(e) => i@.len() < 1 && e.input@ == i@ && e.code == ParseErrorKind::Eof,
        },
{
    match take(1usize, i) {
        Ok((rem, val)) => {
            let raw = read_unsigned(ByteOrder::BigEndian, val);
            proof {
                lemma_radix_values();
            }
            let value: i8 = if raw >= 0x80 {
                (raw as i64 - 0x100) as i8
            } else {
                raw as i8
            };
            Ok((rem, value))
        },
        Err(e) => Err(e),
    }
}

/// Parses 2 bytes from the input as SOME/IP uint16 value
pub fn uint16<'a>(data_byte_order: ByteOrder, i: &'a [u8]) -> (result: Result<
    (&'a [u8], u16),
    ParseError<'a>,
>)
    ensures
        result is Ok <==> i@.len() >= 2,
        match result {
            Ok((rem, value)) => {
                &&& parses_integer(i@, 2, rem@)
                &&& value == unsigned(data_byte_order, i@.subrange(0, 2))
            },
            Err(e) => i@.len() < 2 && e.input@ == i@ && e.code == ParseErrorKind::Eof,
        },
{
    match take(2usize, i) {
        Ok((rem, val)) => {
            let raw = read_unsigned(data_byte_order, val);
            proof {
                lemma_radix_values();
            }
            Ok((rem, raw as u16))
        },
        Err(e) => Err(e),
    }
}

/// Parses 2 bytes from the input as SOME/IP sint16 value
pub fn sint16<'a>(data_byte_order: ByteOrder, i: &'a [u8]) -> (result: Result<
    (&'a [u8], i16),
    ParseError<'a>,
>)
    ensures
        result is Ok <==> i@.len() >= 2,
        match result {
            Ok((rem, value)) => {
                &&& parses_integer(i@, 2, rem@)
                &&& value == signed(data_byte_order, i@.subrange(0, 2))
            },
            Err(e) => i@.len() < 2 && e.input@ == i@ && e.code == ParseErrorKind::Eof,
        },
{
    match take(2usize, i) {
        Ok((rem, val)) => {
            let raw = read_unsigned(data_byte_order, val);
            proof {
                lemma_radix_values();
            }
            let value: i16 = if raw >= 0x8000 {
                (raw as i64 - 0x1_0000) as i16
            } else {
                raw as i16
            };
            Ok((rem, value))
        },
        Err(e) => Err(e),
    }
}

/// Parses 4 bytes from the input as SOME/IP uint32 value
pub fn uint32<'a>(data_byte_order: ByteOrder, i: &'a [u8]) -> (result: Result<
    (&'a [u8], u32),
    ParseError<'a>,
>)
    ensures
        result is Ok <==> i@.len() >= 4,
        match result {
            Ok((rem, value)) => {
                &&& parses_integer(i@, 4, rem@)
                &&& value == unsigned(data_byte_order, i@.subrange(0, 4))
            },
            Err(e) => i@.len() < 4 && e.input@ == i@ && e.code == ParseErrorKind::Eof,
        },
{
    match take(4usize, i) {
        Ok((rem, val)) => {
            let raw = read_unsigned(data_byte_order, val);
            proof {
                lemma_radix_values();
            }
            Ok((rem, raw as u32))
        },
        Err(e) => Err(e),
    }
}

/// Parses 4 bytes from the input as SOME/IP sint32 value
pub fn sint32<'a>(data_byte_order: ByteOrder, i: &'a [u8]) -> (result: Result<
    (&'a [u8], i32),
    ParseError<'a>,
>)
    ensures
        result is Ok <==> i@.len() >= 4,
        match result {
            Ok((rem, value)) => {
                &&& parses_integer(i@, 4, rem@)
                &&& value == signed(data_byte_order, i@.subrange(0, 4))
            },
            Err(e) => i@.len() < 4 && e.input@ == i@ && e.code == ParseErrorKind::Eof,
        },
{
    match take(4usize, i) {
        Ok((rem, val)) => {
            let raw = read_unsigned(data_byte_order, val);
            proof {
                lemma_radix_values();
            }
            let value: i32 = if raw >= 0x8000_0000 {
                (raw as i64 - 0x1_0000_0000) as i32
            } else {
                raw as i32
            };
            Ok((rem, value))
        },
        Err(e) => Err(e),
    }
}

/// Parses 8 bytes from the input as SOME/IP uint64 value
pub fn uint64<'a>(data_byte_order: ByteOrder, i: &'a [u8]) -> (result: Result<
    (&'a [u8], u64),
    ParseError<'a>,
>)
    ensures
        result is Ok <==> i@.len() >= 8,
        match result {
            Ok((rem, value)) => {
                &&& parses_integer(i@, 8, rem@)
                &&& value == unsigned(data_byte_order, i@.subrange(0, 8))
            },
            Err(e) => i@.len() < 8 && e.input@ == i@ && e.code == ParseErrorKind::Eof,
        },
{
    match take(8usize, i) {
        Ok((rem, val)) => {
            let raw = read_unsigned(data_byte_order, val);
            Ok((rem, raw))
        },
        Err(e) => Err(e),
    }
}

/// Parses 8 bytes from the input as SOME/IP sint64 value
pub fn sint64<'a>(data_byte_order: ByteOrder, i: &'a [u8]) -> (result: Result<
    (&'a [u8], i64),
    ParseError<'a>,
>)
    ensures
        result is Ok <==> i@.len() >= 8,
        match result {
            Ok((rem, value)) => {
                &&& parses_integer(i@, 8, rem@)
                &&& value == signed(data_byte_order, i@.subrange(0, 8))
            },
            Err(e) => i@.len() < 8 && e.input@ == i@ && e.code == ParseErrorKind::Eof,
        },
{
    match take(8usize, i) {
        Ok((rem, val)) => {
            let raw = read_unsigned(data_byte_order, val);
            proof {
                lemma_radix_values();
            }
            let value: i64 = if raw >= 0x8000_0000_0000_0000 {
                ((raw - 0x8000_0000_0000_0000) as i64) + i64::MIN
            } else {
                raw as i64
            };
            Ok((rem, value))
        },
        Err(e) => Err(e),
    }
}

/// `String::from_utf8`: the text that `bytes` encode in UTF-8. There is
/// none if, and only if, the bytes are not valid UTF-8.
#[verifier::external_body]
fn text_from_utf8(bytes: Vec<u8>) -> (text: Option<String>)
    ensures
        text is Some <==> valid_utf8(bytes@),
        text matches Some(s) ==> s@ == decode_utf8(bytes@),
{
    String::from_utf8(bytes).ok()
}

/// What the string parser makes of the input `i`.
///
/// The input starts with a length field of `length_size` bytes in the byte
/// order `endian`. It is followed by as many bytes of data as the field
/// says: the text in UTF-8 and a terminating zero byte.
pub open spec fn string_parse(
    endian: ByteOrder,
    length_size: LengthSize,
    max_length: usize,
    i: Seq<u8>,
) -> Result<(Seq<u8>, Seq<char>), (Seq<u8>, ParseErrorKind)> {
    let n = length_size.spec_size() as int;
    if i.len() < n {
        Err((i, ParseErrorKind::Eof))
    } else {
        let length = unsigned(endian, i.subrange(0, n)) as int;
        let rem = i.subrange(n, i.len() as int);
        if length > max_length {
            Err((i, ParseErrorKind::LengthValue))
        } else if rem.len() < length {
            Err((rem, ParseErrorKind::Eof))
        } else {
            match utf8_text(rem.subrange(0, length)) {
                Ok(text) => Ok((rem.subrange(length, rem.len() as int), text)),
                Err(code) => Err((i, code)),
            }
        }
    }
}

/// The text that the data of a string holds: the data without its
/// terminating zero byte, decoded as UTF-8.
pub open spec fn utf8_text(data: Seq<u8>) -> Result<Seq<char>, ParseErrorKind> {
    if data.len() == 0 {
        Err(ParseErrorKind::LengthValue)
    } else if data.last() != 0 {
        Err(ParseErrorKind::Verify)
    } else if !valid_utf8(data.drop_last()) {
        Err(ParseErrorKind::Fail)
    } else {
        Ok(decode_utf8(data.drop_last()))
    }
}

/// Parses a variably sized string from the input bytes.
/// PRS_SOMEIP_00089, PRS_SOMEIP_00090, PRS_SOMEIP_00091, PRS_SOMEIP_00092
///
/// Only UTF-8 is decoded; there is no decoder for the other encodings.
pub fn string<'a>(
    endian: ByteOrder,
    encoding: StringEncoding,
    length_size: LengthSize,
    max_length: usize,
    i: &'a [u8],
) -> (result: Result<(&'a [u8], String), ParseError<'a>>)
    requires
        encoding is Utf8,
    ensures
        match result {
            Ok((rem, text)) => string_parse(endian, length_size, max_length, i@) == Ok::<
                (Seq<u8>, Seq<char>),
                (Seq<u8>, ParseErrorKind),
            >((rem@, text@)),
            Err(e) => string_parse(endian, length_size, max_length, i@) == Err::<
                (Seq<u8>, Seq<char>),
                (Seq<u8>, ParseErrorKind),
            >((e.input@, e.code)),
        },
{
    let (rem, length): (&[u8], usize) = match length_size {
        LengthSize::Length1 => {
            match uint8(i) {
                Ok((r, v)) => {
                    proof {
                        lemma_one_byte(endian, i@.subrange(0, 1));
                    }
                    (r, v as usize)
                },
                Err(e) => {
                    return Err(e);
                },
            }
        },
        LengthSize::Length2 => {
            match uint16(endian, i) {
                Ok((r, v)) => (r, v as usize),
                Err(e) => {
                    return Err(e);
                },
            }
        },
        LengthSize::Length4 => {
            match uint32(endian, i) {
                Ok((r, v)) => (r, v as usize),
                Err(e) => {
                    return Err(e);
                },
            }
        },
    };
    if length > max_length {
        return Err(ParseError { input: i, code: ParseErrorKind::LengthValue });
    }
    match take(length, rem) {
        Ok((rem2, data)) => decode_utf8_data(data, i, rem2),
        Err(e) => Err(e),
    }
}

/// A number of one byte is that byte, in either byte order.
proof fn lemma_one_byte(order: ByteOrder, bytes: Seq<u8>)
    requires
        bytes.len() == 1,
    ensures
        unsigned(order, bytes) == bytes[0],
{
    reveal_with_fuel(be_value, 2);
    reveal_with_fuel(le_value, 2);
}

/// Decodes the data of a string: `orig` is the input that an error is
/// reported at, `remains` what follows the data.
pub fn decode_utf8_data<'a>(data: &'a [u8], orig: &'a [u8], remains: &'a [u8]) -> (result: Result<
    (&'a [u8], String),
    ParseError<'a>,
>)
    ensures
        match result {
            Ok((rem, text)) => rem@ == remains@ && utf8_text(data@) == Ok::<
                Seq<char>,
                ParseErrorKind,
            >(text@),
            Err(e) => e.input@ == orig@ && utf8_text(data@) == Err::<Seq<char>, ParseErrorKind>(
                e.code,
            ),
        },
{
    let mut raw_str = slice_to_vec(data);
    if raw_str.len() == 0 {
        return Err(ParseError { input: orig, code: ParseErrorKind::LengthValue });
    }
    if raw_str[raw_str.len() - 1] != 0x00 {
        return Err(ParseError { input: orig, code: ParseErrorKind::Verify });
    }
    // remove trailing terminator 0x00 - otherwise the result string will have it appended
    let _ = raw_str.pop();
    match text_from_utf8(raw_str) {
        Some(s) => Ok((remains, s)),
        None => Err(ParseError { input: orig, code: ParseErrorKind::Fail }),
    }
}

} // verus!

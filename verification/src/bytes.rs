//! Reading little-endian fields and fixed-size text fields out of a byte
//! buffer, with the reading position allowed to lie beyond its end.
use byteorder::{ByteOrder, LittleEndian};
use vstd::prelude::*;
use vstd::utf8::*;

verus! {

broadcast use vstd::string::group_string_axioms;

/// Why reading a model file stopped.
#[derive(Clone, Copy, Debug, PartialEq, Eq, Structural)]
pub enum ParseFail {
    /// A field reaches past the end of the data.
    Truncated,
    /// A byte count of the file does not fit in 32 bits.
    SizeOverflow,
    /// A record of zero length would be read again and again without end.
    Stalled,
}

/// The little-endian 16-bit value of the two bytes at `p`.
pub open spec fn u16_at(s: Seq<u8>, p: int) -> u16 {
    (s[p] as int + 256 * s[p + 1] as int) as u16
}

/// The little-endian 32-bit value of the four bytes at `p`.
pub open spec fn u32_at(s: Seq<u8>, p: int) -> u32 {
    (s[p] as int + 256 * s[p + 1] as int + 65536 * s[p + 2] as int + 16777216 * s[p
        + 3] as int) as u32
}

/// The little-endian signed 32-bit value of the four bytes at `p`.
pub open spec fn i32_at(s: Seq<u8>, p: int) -> i32 {
    u32_at(s, p) as i32
}

/// Whether `n` bytes can be read at position `p`.
pub open spec fn fits(s: Seq<u8>, p: int, n: int) -> bool {
    0 <= p && p + n <= s.len()
}

/// `byteorder`'s `LittleEndian::read_u16`, which decodes the first two bytes
/// of a slice as a little-endian number; here applied to the two bytes at `pos`.
#[verifier::external_body]
pub(crate) fn le_u16(data: &[u8], pos: usize) -> (r: u16)
    requires
        pos + 2 <= data.len(),
    ensures
        r == u16_at(data@, pos as int),
{
    LittleEndian::read_u16(&data[pos..pos + 2])
}

/// `byteorder`'s `LittleEndian::read_u32`, which decodes the first four bytes
/// of a slice as a little-endian number; here applied to the four bytes at `pos`.
#[verifier::external_body]
pub(crate) fn le_u32(data: &[u8], pos: usize) -> (r: u32)
    requires
        pos + 4 <= data.len(),
    ensures
        r == u32_at(data@, pos as int),
{
    LittleEndian::read_u32(&data[pos..pos + 4])
}

/// The byte at `pos`, or `Truncated` when `pos` lies at or past the end.
pub fn read_u8(data: &[u8], pos: u64) -> (r: Result<u8, ParseFail>)
    ensures
        r == (if fits(data@, pos as int, 1) {
            Ok::<u8, ParseFail>(data@[pos as int])
        } else {
            Err(ParseFail::Truncated)
        }),
{
    if pos < data.len() as u64 {
        Ok(data[pos as usize])
    } else {
        Err(ParseFail::Truncated)
    }
}

/// The little-endian `u16` at `pos`, or `Truncated`.
pub fn read_u16(data: &[u8], pos: u64) -> (r: Result<u16, ParseFail>)
    ensures
        r == (if fits(data@, pos as int, 2) {
            Ok::<u16, ParseFail>(u16_at(data@, pos as int))
        } else {
            Err(ParseFail::Truncated)
        }),
{
    let len = data.len() as u64;
    if pos <= len && len - pos >= 2 {
        Ok(le_u16(data, pos as usize))
    } else {
        Err(ParseFail::Truncated)
    }
}

/// The little-endian `u32` at `pos`, or `Truncated`.
pub fn read_u32(data: &[u8], pos: u64) -> (r: Result<u32, ParseFail>)
    ensures
        r == (if fits(data@, pos as int, 4) {
            Ok::<u32, ParseFail>(u32_at(data@, pos as int))
        } else {
            Err(ParseFail::Truncated)
        }),
{
    let len = data.len() as u64;
    if pos <= len && len - pos >= 4 {
        Ok(le_u32(data, pos as usize))
    } else {
        Err(ParseFail::Truncated)
    }
}

/// The little-endian `i32` at `pos`, or `Truncated`.
pub fn read_i32(data: &[u8], pos: u64) -> (r: Result<i32, ParseFail>)
    ensures
        r == (if fits(data@, pos as int, 4) {
            Ok::<i32, ParseFail>(i32_at(data@, pos as int))
        } else {
            Err(ParseFail::Truncated)
        }),
{
    match read_u32(data, pos) {
        Ok(v) => Ok(#[verifier::truncate] (v as i32)),
        Err(e) => Err(e),
    }
}

/// Number of bytes before the first zero byte (all of them when there is none).
pub open spec fn text_len(field: Seq<u8>) -> nat
    decreases field.len(),
{
    if field.len() == 0 || field[0] == 0 {
        0
    } else {
        1 + text_len(field.drop_first())
    }
}

/// The bytes of a zero-terminated text field up to its terminator.
pub open spec fn c_str(field: Seq<u8>) -> Seq<u8> {
    field.take(text_len(field) as int)
}

/// The text of a fixed-size field: its bytes up to the first zero byte,
/// decoded as UTF-8, or `Unknown` when they are not valid UTF-8.
pub open spec fn field_text(field: Seq<u8>) -> Seq<char> {
    if valid_utf8(c_str(field)) {
        decode_utf8(c_str(field))
    } else {
        "Unknown"@
    }
}

proof fn lemma_text_len(field: Seq<u8>, i: int)
    requires
        0 <= i <= field.len(),
        forall|j: int| 0 <= j < i ==> field[j] != 0,
        i == field.len() || field[i] == 0,
    ensures
        text_len(field) == i,
    decreases i,
{
    if i > 0 {
        let rest = field.drop_first();
        assert forall|j: int| 0 <= j < i - 1 implies rest[j] != 0 by {
            assert(rest[j] == field[j + 1]);
        }
        if i < field.len() {
            assert(rest[i - 1] == field[i]);
        }
        lemma_text_len(rest, i - 1);
    }
}

/// The bytes of the `n`-byte text field at `pos` up to its first zero byte.
fn c_str_bytes(data: &[u8], pos: usize, n: usize) -> (r: Vec<u8>)
    requires
        pos + n <= data.len(),
    ensures
        r@ == c_str(data@.subrange(pos as int, pos + n)),
{
    let ghost field = data@.subrange(pos as int, pos + n);
    let mut out: Vec<u8> = Vec::new();
    let mut i: usize = 0;
    while i < n && data[pos + i] != 0
        invariant
            i <= n,
            pos + n <= data.len(),
            field == data@.subrange(pos as int, pos + n),
            out@ == field.take(i as int),
            forall|j: int| 0 <= j < i ==> field[j] != 0,
        decreases n - i,
    {
        out.push(data[pos + i]);
        i = i + 1;
        assert(out@ =~= field.take(i as int));
    }
    proof {
        lemma_text_len(field, i as int);
    }
    out
}

/// `String::from_utf8` of the standard library: the bytes as a string when
/// they are valid UTF-8, nothing otherwise.
#[verifier::external_body]
fn utf8_string(bytes: Vec<u8>) -> (r: Option<String>)
    ensures
        r is Some <==> valid_utf8(bytes@),
        r matches Some(s) ==> s@ == decode_utf8(bytes@),
{
    String::from_utf8(bytes).ok()
}

/// The text of the `n`-byte field at `pos` (see [`field_text`]).
pub fn read_field_text(data: &[u8], pos: usize, n: usize) -> (r: String)
    requires
        pos + n <= data.len(),
    ensures
        r@ == field_text(data@.subrange(pos as int, pos + n)),
{
    let bytes = c_str_bytes(data, pos, n);
    match utf8_string(bytes) {
        Some(s) => s,
        None => "Unknown".to_string(),
    }
}

/// Characters with the Unicode `White_Space` property.
pub open spec fn is_white_space(c: char) -> bool {
    let v = c as u32;
    (0x9 <= v <= 0xD) || v == 0x20 || v == 0x85 || v == 0xA0 || v == 0x1680 || (0x2000 <= v
        <= 0x200A) || v == 0x2028 || v == 0x2029 || v == 0x202F || v == 0x205F || v == 0x3000
}

/// The text without its leading white space.
pub open spec fn trim_start_ws(s: Seq<char>) -> Seq<char>
    decreases s.len(),
{
    if s.len() > 0 && is_white_space(s[0]) {
        trim_start_ws(s.drop_first())
    } else {
        s
    }
}

/// The text without its trailing white space.
pub open spec fn trim_end_ws(s: Seq<char>) -> Seq<char>
    decreases s.len(),
{
    if s.len() > 0 && is_white_space(s.last()) {
        trim_end_ws(s.drop_last())
    } else {
        s
    }
}

/// The text without leading and trailing white space.
pub open spec fn trim_ws(s: Seq<char>) -> Seq<char> {
    trim_end_ws(trim_start_ws(s))
}

/// `str::trim` of the standard library, which removes leading and trailing
/// characters with the Unicode `White_Space` property, copied into a `String`.
#[verifier::external_body]
fn trim_whitespace(s: &str) -> (r: String)
    ensures
        r@ == trim_ws(s@),
{
    s.trim().to_string()
}

/// The text of the field at `pos` without leading and trailing white space.
pub fn read_trimmed_text(data: &[u8], pos: usize, n: usize) -> (r: String)
    requires
        pos + n <= data.len(),
    ensures
        r@ == trim_ws(field_text(data@.subrange(pos as int, pos + n))),
{
    let t = read_field_text(data, pos, n);
    trim_whitespace(t.as_str())
}

/// What `f as u32` gives for the single-precision float with bit pattern
/// `bits`: the value rounded toward zero, negative values and NaN give 0,
/// values too large for 32 bits give `u32::MAX`.
pub open spec fn float_bits_to_u32(bits: u32) -> u32 {
    let negative = (bits >> 31u32) != 0;
    let exp = (bits >> 23u32) & 0xffu32;
    let mant = bits & 0x7f_ffffu32;
    if exp == 0xff {
        if mant != 0 || negative {
            0
        } else {
            u32::MAX
        }
    } else if negative || exp < 127 {
        0
    } else if exp >= 159 {
        u32::MAX
    } else if exp >= 150 {
        (mant | 0x80_0000u32) << ((exp - 150) as u32)
    } else {
        (mant | 0x80_0000u32) >> ((150 - exp) as u32)
    }
}

/// Converts the float with bit pattern `bits` to `u32` as `as` does.
pub fn float_bits_to_u32_exec(bits: u32) -> (r: u32)
    ensures
        r == float_bits_to_u32(bits),
{
    let negative = (bits >> 31u32) != 0;
    let exp = (bits >> 23u32) & 0xffu32;
    let mant = bits & 0x7f_ffffu32;
    if exp == 0xff {
        if mant != 0 || negative {
            0
        } else {
            u32::MAX
        }
    } else if negative || exp < 127 {
        0
    } else if exp >= 159 {
        u32::MAX
    } else if exp >= 150 {
        (mant | 0x80_0000u32) << (exp - 150)
    } else {
        (mant | 0x80_0000u32) >> (150 - exp)
    }
}

} // verus!

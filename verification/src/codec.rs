//! Decoding of the stored encodings of message content: brotli-compressed
//! UTF-8 blobs, and base64-wrapped zlib streams of UTF-16LE text.

use crate::text::{chars_of, string_of, trim, trim_chars};
use base64::Engine;
use std::io::Read;
use vstd::prelude::*;

verus! {

/// How many bytes the decompressor of blobs reads at a time.
pub const BROTLI_BUFFER_SIZE: usize = 4096;

/// Why a stored payload could not be decoded.
#[derive(Clone, Copy, Debug, PartialEq, Eq, Structural)]
pub enum DecodeError {
    /// The payload is not valid standard base64.
    Base64,
    /// The bytes are not a complete zlib stream.
    Inflate,
    /// The inflated bytes cannot be UTF-16: their number is odd.
    OddLength,
    /// The code units hold an unpaired surrogate.
    Utf16,
    /// The bytes are not a complete brotli stream.
    Brotli,
}

/// What `base64::Engine::decode` of the standard engine makes of `text`:
/// the decoded bytes, or `None` where it reports an error.
pub uninterp spec fn base64_decoded(text: Seq<char>) -> Option<Seq<u8>>;

/// What reading a `flate2::read::ZlibDecoder` over `data` to its end gives:
/// the inflated bytes, or `None` where the read fails.
pub uninterp spec fn zlib_inflated(data: Seq<u8>) -> Option<Seq<u8>>;

/// What reading a `brotli::Decompressor` over `data`, made with a buffer of
/// `buffer_size` bytes, to its end gives: the decompressed bytes, or `None`
/// where the read fails.
pub uninterp spec fn brotli_decompressed(data: Seq<u8>, buffer_size: usize) -> Option<Seq<u8>>;

/// What `String::from_utf8_lossy` makes of `bytes`.
pub uninterp spec fn utf8_lossy(bytes: Seq<u8>) -> Seq<char>;

/// `decode` of `base64::engine::general_purpose::STANDARD` on the bytes of
/// `text`. The result depends on `text` alone.
#[verifier::external_body]
fn base64_decode(text: &str) -> (r: Option<Vec<u8>>)
    ensures
        match r {
            Some(bytes) => base64_decoded(text@) == Some(bytes@),
            None => base64_decoded(text@) is None,
        },
{
    base64::engine::general_purpose::STANDARD.decode(text).ok()
}

/// `read_to_end` on a `flate2::read::ZlibDecoder` that reads from `data`. The
/// result depends on `data` alone; what was inflated before a failure is
/// dropped.
#[verifier::external_body]
fn zlib_inflate(data: &[u8]) -> (r: Option<Vec<u8>>)
    ensures
        match r {
            Some(bytes) => zlib_inflated(data@) == Some(bytes@),
            None => zlib_inflated(data@) is None,
        },
{
    let mut out: Vec<u8> = Vec::new();
    match flate2::read::ZlibDecoder::new(data).read_to_end(&mut out) {
        Ok(_) => Some(out),
        Err(_) => None,
    }
}

/// `read_to_end` on a `brotli::Decompressor` that reads from `data` through a
/// buffer of `buffer_size` bytes. The result depends on the two arguments
/// alone; what was decompressed before a failure is dropped. The buffer is
/// set up at once, so a size beyond what can be set up is left out.
#[verifier::external_body]
fn brotli_decompress(data: &[u8], buffer_size: usize) -> (r: Option<Vec<u8>>)
    requires
        0 < buffer_size <= 0xffff,
    ensures
        match r {
            Some(bytes) => brotli_decompressed(data@, buffer_size) == Some(bytes@),
            None => brotli_decompressed(data@, buffer_size) is None,
        },
{
    let mut out: Vec<u8> = Vec::new();
    match brotli::Decompressor::new(data, buffer_size).read_to_end(&mut out) {
        Ok(_) => Some(out),
        Err(_) => None,
    }
}

/// `String::from_utf8_lossy`: the text of `bytes`, with U+FFFD in place of
/// what is not UTF-8. The result depends on `bytes` alone.
#[verifier::external_body]
fn text_of_utf8_lossy(bytes: &[u8]) -> (r: String)
    ensures
        r@ == utf8_lossy(bytes@),
{
    String::from_utf8_lossy(bytes).into_owned()
}

/// `char::from_u32`: the character whose scalar value is `n`, or `None` where
/// `n` is no Unicode scalar value.
#[verifier::external_body]
fn char_from_u32(n: u32) -> (r: Option<char>)
    ensures
        match r {
            Some(c) => vstd::utf8::is_scalar(n) && c as u32 == n,
            None => !vstd::utf8::is_scalar(n),
        },
{
    char::from_u32(n)
}

/// Whether `u` is the first code unit of a surrogate pair.
pub open spec fn is_high_surrogate(u: u16) -> bool {
    0xD800 <= u <= 0xDBFF
}

/// Whether `u` is the second code unit of a surrogate pair.
pub open spec fn is_low_surrogate(u: u16) -> bool {
    0xDC00 <= u <= 0xDFFF
}

/// The scalar value that the surrogate pair `hi`, `lo` encodes.
pub open spec fn surrogate_pair_scalar(hi: u16, lo: u16) -> u32 {
    (0x10000 + (hi - 0xD800) * 0x400 + (lo - 0xDC00)) as u32
}

/// `head` followed by `tail`, where there is a tail.
pub open spec fn with_head(head: Seq<char>, tail: Option<Seq<char>>) -> Option<Seq<char>> {
    match tail {
        Some(t) => Some(head + t),
        None => None,
    }
}

/// The text that the UTF-16 code units encode, or `None` where a surrogate
/// stands without its partner.
pub open spec fn utf16_text(units: Seq<u16>) -> Option<Seq<char>>
    decreases units.len(),
{
    if units.len() == 0 {
        Some(Seq::empty())
    } else if is_high_surrogate(units[0]) {
        if units.len() >= 2 && is_low_surrogate(units[1]) {
            with_head(
                seq![surrogate_pair_scalar(units[0], units[1]) as char],
                utf16_text(units.skip(2)),
            )
        } else {
            None
        }
    } else if is_low_surrogate(units[0]) {
        None
    } else {
        with_head(seq![units[0] as u32 as char], utf16_text(units.skip(1)))
    }
}

/// The 16-bit value whose little-endian bytes are `lo`, `hi`.
pub open spec fn le_unit(lo: u8, hi: u8) -> u16 {
    (lo + 256 * hi) as u16
}

/// The 16-bit values that `bytes` hold in little-endian order, two bytes
/// each. A last odd byte is left out.
pub open spec fn le_units(bytes: Seq<u8>) -> Seq<u16> {
    Seq::new((bytes.len() / 2) as nat, |i: int| le_unit(bytes[2 * i], bytes[2 * i + 1]))
}

/// The text of UTF-16LE `bytes`.
pub open spec fn utf16le_text(bytes: Seq<u8>) -> Result<Seq<char>, DecodeError> {
    if bytes.len() % 2 != 0 {
        Err(DecodeError::OddLength)
    } else {
        match utf16_text(le_units(bytes)) {
            Some(t) => Ok(t),
            None => Err(DecodeError::Utf16),
        }
    }
}

/// The text of a base64-wrapped zlib stream of UTF-16LE text. Whitespace
/// around the base64 text is ignored.
pub open spec fn comp_text(payload: Seq<char>) -> Result<Seq<char>, DecodeError> {
    match base64_decoded(trim(payload)) {
        None => Err(DecodeError::Base64),
        Some(packed) => match zlib_inflated(packed) {
            None => Err(DecodeError::Inflate),
            Some(bytes) => utf16le_text(bytes),
        },
    }
}

/// The text of a brotli-compressed blob: its decompressed bytes read as
/// UTF-8, lossily.
pub open spec fn brotli_text(data: Seq<u8>) -> Result<Seq<char>, DecodeError> {
    match brotli_decompressed(data, BROTLI_BUFFER_SIZE) {
        None => Err(DecodeError::Brotli),
        Some(bytes) => Ok(utf8_lossy(bytes)),
    }
}

/// Whether the result `r` of a decoder is the outcome `expected`.
pub open spec fn decoded_as(r: Result<String, DecodeError>, expected: Result<Seq<char>, DecodeError>) -> bool {
    match r {
        Ok(s) => expected == Ok::<Seq<char>, DecodeError>(s@),
        Err(e) => expected == Err::<Seq<char>, DecodeError>(e),
    }
}

impl DecodeError {
    /// A description of the failure.
    pub open spec fn description(self) -> Seq<char> {
        match self {
            DecodeError::Base64 => "base64 디코딩 실패"@,
            DecodeError::Inflate => "zlib inflate 실패"@,
            DecodeError::OddLength => "UTF-16LE 길이가 홀수입니다"@,
            DecodeError::Utf16 => "UTF-16LE 변환 실패"@,
            DecodeError::Brotli => "brotli 압축 해제 실패"@,
        }
    }

    /// A description of the failure, for display.
    pub fn message(&self) -> (r: String)
        ensures
            r@ == self.description(),
    {
        match self {
            DecodeError::Base64 => "base64 디코딩 실패".to_string(),
            DecodeError::Inflate => "zlib inflate 실패".to_string(),
            DecodeError::OddLength => "UTF-16LE 길이가 홀수입니다".to_string(),
            DecodeError::Utf16 => "UTF-16LE 변환 실패".to_string(),
            DecodeError::Brotli => "brotli 압축 해제 실패".to_string(),
        }
    }
}

/// The 16-bit values that `bytes` hold in little-endian order.
pub fn units_of_le_bytes(bytes: &[u8]) -> (units: Vec<u16>)
    ensures
        units@ == le_units(bytes@),
{
    let n = bytes.len() / 2;
    let mut units: Vec<u16> = Vec::new();
    let mut i: usize = 0;
    while i < n
        invariant
            i <= n == bytes.len() / 2,
            units.len() == i,
            forall|j: int| 0 <= j < i ==> units@[j] == le_unit(bytes@[2 * j], bytes@[2 * j + 1]),
        decreases n - i,
    {
        let lo: u16 = bytes[2 * i] as u16;
        let hi: u16 = bytes[2 * i + 1] as u16;
        units.push(lo + 256 * hi);
        i = i + 1;
    }
    proof {
        assert(units@ =~= le_units(bytes@));
    }
    units
}

/// Decodes UTF-16 code units, strictly: an unpaired surrogate is an error.
pub fn decode_utf16(units: &Vec<u16>) -> (r: Option<String>)
    ensures
        match r {
            Some(s) => utf16_text(units@) == Some(s@),
            None => utf16_text(units@) is None,
        },
{
    let n = units.len();
    let mut out: Vec<char> = Vec::new();
    let mut i: usize = 0;
    proof {
        assert(units@.skip(0) =~= units@);
        assert(with_head(out@, utf16_text(units@)) =~= utf16_text(units@)) by {
            if let Some(t) = utf16_text(units@) {
                assert(out@ + t =~= t);
            }
        }
    }
    while i < n
        invariant
            i <= n == units.len(),
            utf16_text(units@) == with_head(out@, utf16_text(units@.skip(i as int))),
        decreases n - i,
    {
        let u = units[i];
        let ghost rest = units@.skip(i as int);
        let ghost before = out@;
        if 0xD800 <= u && u <= 0xDBFF {
            if i + 1 < n && 0xDC00 <= units[i + 1] && units[i + 1] <= 0xDFFF {
                let lo = units[i + 1];
                let scalar: u32 = 0x10000 + (u - 0xD800) as u32 * 0x400 + (lo - 0xDC00) as u32;
                match char_from_u32(scalar) {
                    Some(c) => {
                        proof {
                            vstd::utf8::char_u32_cast(c, scalar);
                            assert(rest.skip(2) =~= units@.skip(i + 2));
                            lemma_with_head_push(before, c, utf16_text(rest.skip(2)));
                        }
                        out.push(c);
                        i = i + 2;
                    },
                    None => {
                        return None;
                    },
                }
            } else {
                return None;
            }
        } else if 0xDC00 <= u && u <= 0xDFFF {
            return None;
        } else {
            match char_from_u32(u as u32) {
                Some(c) => {
                    proof {
                        vstd::utf8::char_u32_cast(c, u as u32);
                        assert(rest.skip(1) =~= units@.skip(i + 1));
                        lemma_with_head_push(before, c, utf16_text(rest.skip(1)));
                    }
                    out.push(c);
                    i = i + 1;
                },
                None => {
                    return None;
                },
            }
        }
    }
    proof {
        assert(out@ + Seq::<char>::empty() =~= out@);
    }
    Some(string_of(&out))
}

/// Putting `c` at the end of the head is putting it in front of the tail.
proof fn lemma_with_head_push(head: Seq<char>, c: char, tail: Option<Seq<char>>)
    ensures
        with_head(head, with_head(seq![c], tail)) == with_head(head.push(c), tail),
{
    if let Some(t) = tail {
        assert(head + (seq![c] + t) =~= head.push(c) + t);
    }
}

/// Decodes UTF-16LE bytes into text.
pub fn decode_utf16le(bytes: &[u8]) -> (r: Result<String, DecodeError>)
    ensures
        decoded_as(r, utf16le_text(bytes@)),
{
    if bytes.len() % 2 != 0 {
        return Err(DecodeError::OddLength);
    }
    let units = units_of_le_bytes(bytes);
    match decode_utf16(&units) {
        Some(s) => Ok(s),
        None => Err(DecodeError::Utf16),
    }
}

/// Decodes a base64-wrapped zlib stream of UTF-16LE text.
pub fn decode_comp_zlib_utf16le(b64: &str) -> (r: Result<String, DecodeError>)
    ensures
        decoded_as(r, comp_text(b64@)),
{
    let trimmed = string_of(&trim_chars(&chars_of(b64)));
    let packed = match base64_decode(trimmed.as_str()) {
        Some(p) => p,
        None => {
            return Err(DecodeError::Base64);
        },
    };
    let bytes = match zlib_inflate(packed.as_slice()) {
        Some(b) => b,
        None => {
            return Err(DecodeError::Inflate);
        },
    };
    decode_utf16le(bytes.as_slice())
}

/// Decompresses a brotli blob and reads the result as UTF-8, lossily.
pub fn decompress_brotli(compressed_data: &[u8]) -> (r: Result<String, DecodeError>)
    ensures
        decoded_as(r, brotli_text(compressed_data@)),
{
    match brotli_decompress(compressed_data, BROTLI_BUFFER_SIZE) {
        Some(bytes) => Ok(text_of_utf8_lossy(bytes.as_slice())),
        None => Err(DecodeError::Brotli),
    }
}

} // verus!

use vstd::prelude::*;
use vstd::bytes::*;
use parity_scale_codec::{Compact, Decode, Encode};

verus! {

/// SCALE encoding of a `Compact<u32>`: the two low bits of the first byte
/// select the width (single byte, two bytes, four bytes, or a marker byte
/// followed by the full four bytes), and the value is shifted left by two.
pub open spec fn spec_compact_u32(n: u32) -> Seq<u8> {
    if n < 0x40 {
        seq![(n * 4) as u8]
    } else if n < 0x4000 {
        spec_u16_to_le_bytes((n * 4 + 1) as u16)
    } else if n < 0x4000_0000 {
        spec_u32_to_le_bytes((n * 4 + 2) as u32)
    } else {
        seq![3u8] + spec_u32_to_le_bytes(n)
    }
}

/// Encodes `n` as `Compact<u32>` with parity-scale-codec
/// (`Compact(n).encode()`), the length prefix that SCALE puts before
/// every vector. The contract states the encoding that the crate's
/// `Encode for CompactRef<u32>` writes.
#[verifier::external_body]
pub(crate) fn encode_compact_u32(n: u32) -> (res: Vec<u8>)
    ensures
        res@ == spec_compact_u32(n),
{
    Compact(n).encode()
}

/// What SCALE-decoding a string from the front of `bytes` gives: a
/// compact length, that many bytes, and their reading as UTF-8; nothing
/// when the bytes run out or are not UTF-8.
pub uninterp spec fn scale_string_decoding(bytes: Seq<u8>) -> Option<Seq<char>>;

/// Decodes a string with parity-scale-codec (`String::decode` from the
/// front of `bytes`, trailing bytes left alone). The contract only names
/// the result: it depends on `bytes` alone.
#[verifier::external_body]
pub(crate) fn decode_string(bytes: &[u8]) -> (r: Option<String>)
    ensures
        match r {
            Some(s) => scale_string_decoding(bytes@) == Some(s@),
            None => scale_string_decoding(bytes@) is None,
        },
{
    String::decode(&mut &bytes[..]).ok()
}

} // verus!

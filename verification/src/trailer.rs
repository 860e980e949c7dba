use vstd::prelude::*;
use vstd::bytes::*;
use vstd::slice::{slice_subrange, slice_to_vec};

use crate::error::FormatError;

verus! {

/// The schema blob length declared in the last 4 bytes of the file,
/// read as an unsigned little-endian 32-bit integer.
pub open spec fn spec_trailer_len(d: Seq<u8>) -> u32
    recommends
        d.len() >= 4,
{
    spec_u32_from_le_bytes(d.subrange(d.len() - 4, d.len() as int))
}

/// How a db721 file splits into its raw columnar region and its schema
/// blob: `[raw region][schema blob of N bytes][4-byte little-endian N]`.
/// A file too short to hold the declared blob and the trailer is rejected.
pub open spec fn spec_split(d: Seq<u8>) -> Result<(Seq<u8>, Seq<u8>), FormatError> {
    if d.len() < 4 {
        Err(FormatError::TruncatedTrailer)
    } else {
        let n = spec_trailer_len(d) as int;
        if n + 4 > d.len() {
            Err(FormatError::TruncatedTrailer)
        } else {
            Ok((d.subrange(0, d.len() - 4 - n), d.subrange(d.len() - 4 - n, d.len() - 4)))
        }
    }
}

/// The two owned parts of a file once the trailer is decoded: everything
/// before the schema blob, and the blob itself (still undecoded bytes).
pub struct TrailerSplit {
    pub raw: Vec<u8>,
    pub schema: Vec<u8>,
}

/// Decodes the 4-byte trailer and splits the file into its raw region and
/// schema blob, exactly as `spec_split` describes.
pub fn split(data: &Vec<u8>) -> (r: Result<TrailerSplit, FormatError>)
    ensures
        r matches Ok(t) ==> spec_split(data@) == Ok::<_, FormatError>((t.raw@, t.schema@)),
        r matches Err(e) ==> spec_split(data@) == Err::<(Seq<u8>, Seq<u8>), _>(e),
{
    let len = data.len();
    if len < 4 {
        return Err(FormatError::TruncatedTrailer);
    }
    let tail = slice_subrange(data.as_slice(), len - 4, len);
    let n = u32_from_le_bytes(tail);
    assert(n == spec_trailer_len(data@));
    if n as usize > len - 4 {
        return Err(FormatError::TruncatedTrailer);
    }
    let raw_len = len - 4 - n as usize;
    let raw = slice_to_vec(slice_subrange(data.as_slice(), 0, raw_len));
    let schema = slice_to_vec(slice_subrange(data.as_slice(), raw_len, len - 4));
    Ok(TrailerSplit { raw, schema })
}

/// Law: building a file as `raw ++ schema ++ u32_le(schema.len())` and
/// splitting it again recovers `raw` and `schema` exactly, for every raw
/// region and every schema blob whose length fits the 4-byte trailer.
pub proof fn lemma_split_round_trip(raw: Seq<u8>, schema: Seq<u8>)
    requires
        schema.len() <= u32::MAX,
    ensures
        spec_split(raw + schema + spec_u32_to_le_bytes(schema.len() as u32)) == Ok::<
            _,
            FormatError,
        >((raw, schema)),
{
    lemma_auto_spec_u32_to_from_le_bytes();
    let tail = spec_u32_to_le_bytes(schema.len() as u32);
    let d = raw + schema + tail;
    assert(d.subrange(d.len() - 4, d.len() as int) =~= tail);
    assert(spec_trailer_len(d) == schema.len() as u32);
    let n = spec_trailer_len(d) as int;
    assert(d.subrange(0, d.len() - 4 - n) =~= raw);
    assert(d.subrange(d.len() - 4 - n, d.len() - 4) =~= schema);
}

} // verus!

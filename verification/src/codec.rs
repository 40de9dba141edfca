//! Unpacking a vocabulary that was stored as compressed binary data: an LZ4
//! block with its size in front, holding the bincode form of the entries.

use vstd::prelude::*;
use crate::tokenizer::pairs_view;

verus! {

/// The run of 255s that is too long on a target with words of 64 bits.
///
/// The decompressor reads a length as a run of bytes that it adds up in 32
/// bits, going on for as long as the byte is 255. A run of `k` such bytes and
/// the byte that closes it add up to `255 * k + 254` at most, which fits 32
/// bits for `k` up to 16,843,008.
pub const RUN_LIMIT_WIDE: usize = 16_843_009;

/// The run of 255s that is too long on a target with words of 32 bits.
///
/// The decompressor adds a length, and 19 at most on top of it, to a place in
/// its output, which has as many bytes as the data declares. With a declared
/// size up to `isize::MAX` and a run of `k` bytes the sum is
/// `isize::MAX + 19 + 255 * k + 254` at most, which fits 32 bits for `k` up
/// to 8,421,503.
pub const RUN_LIMIT_NARROW: usize = 8_421_504;

/// How many bytes 255 stand in a row in `data` just before the place `end`.
pub open spec fn run_before(data: Seq<u8>, end: int) -> nat
    decreases end,
{
    if end <= 0 || end > data.len() || data[end - 1] != 255 {
        0
    } else {
        1 + run_before(data, end - 1)
    }
}

/// Somewhere in `data` at least `len` bytes 255 stand in a row.
pub open spec fn has_run_of(data: Seq<u8>, len: int) -> bool {
    exists|end: int| 0 <= end <= data.len() && #[trigger] run_before(data, end) >= len
}

/// The run of 255s that is too long on this target.
pub open spec fn run_limit() -> int {
    if usize::MAX > 0xFFFF_FFFF {
        RUN_LIMIT_WIDE as int
    } else {
        RUN_LIMIT_NARROW as int
    }
}

/// The size that `data` declares for what it decompresses to: its first four
/// bytes, least significant first.
pub open spec fn declared_size(data: Seq<u8>) -> int {
    data[0] + 256 * data[1] + 65_536 * data[2] + 16_777_216 * data[3]
}

/// `data` is data that the decompressor is called on: the size it declares
/// can be allocated, and no run of 255s in it is so long that a length the
/// decompressor adds up from it would pass the decompressor's integers.
pub open spec fn fits_decompressor(data: Seq<u8>) -> bool {
    &&& data.len() >= 4 ==> declared_size(data) <= isize::MAX
    &&& !has_run_of(data, run_limit())
}

/// On a target with words of 64 bits every declared size can be allocated,
/// so that data of any length is handed to the decompressor unless it holds
/// a run of `RUN_LIMIT_WIDE` bytes 255.
pub proof fn lemma_wide_target_refuses_long_runs_only(data: Seq<u8>)
    requires
        usize::MAX > 0xFFFF_FFFF,
    ensures
        fits_decompressor(data) <==> !has_run_of(data, RUN_LIMIT_WIDE as int),
{
}

/// Whether at least `len` bytes 255 stand in a row somewhere in `data`.
pub fn holds_run(data: &[u8], len: usize) -> (found: bool)
    ensures
        found == has_run_of(data@, len as int),
{
    if len == 0 {
        assert(run_before(data@, 0) >= 0);
        return true;
    }
    let mut run: usize = 0;
    let mut i: usize = 0;
    while i < data.len()
        invariant
            i <= data@.len(),
            len > 0,
            run == run_before(data@, i as int),
            forall|end: int| 0 <= end <= i ==> #[trigger] run_before(data@, end) < len,
        decreases data@.len() - i,
    {
        if data[i] == 255 {
            run += 1;
        } else {
            run = 0;
        }
        i += 1;
        assert(run == run_before(data@, i as int));
        if run >= len {
            return true;
        }
    }
    false
}

/// Whether `data` is data that the decompressor is called on.
pub fn can_decompress(data: &[u8]) -> (fits: bool)
    ensures
        fits == fits_decompressor(data@),
{
    if data.len() >= 4 {
        let size: u64 = data[0] as u64 + 256 * (data[1] as u64) + 65_536 * (data[2] as u64)
            + 16_777_216 * (data[3] as u64);
        if size > isize::MAX as u64 {
            return false;
        }
    }
    let limit: usize = if usize::MAX > 0xFFFF_FFFF {
        RUN_LIMIT_WIDE
    } else {
        RUN_LIMIT_NARROW
    };
    !holds_run(data, limit)
}

/// What `lz4_flex::decompress_size_prepended` makes of `data`: the
/// decompressed bytes, or the message of the error that it reports, as the
/// error's `Display` writes it.
pub uninterp spec fn lz4_size_prepended(data: Seq<u8>) -> Result<Seq<u8>, Seq<char>>;

/// What `bincode::deserialize` makes of `bytes` when it is asked for a
/// sequence of string and integer pairs: the pairs in the order in which the
/// bytes hold them, or the message of the error that it reports, as the
/// error's `Display` writes it.
pub uninterp spec fn bincode_pairs(bytes: Seq<u8>) -> Result<
    Seq<(Seq<char>, isize)>,
    Seq<char>,
>;

/// Calls `lz4_flex::decompress_size_prepended` and, where it fails, takes
/// the error's message. Trusted: on data that `fits_decompressor` admits the
/// call returns, as no sum in the decompressor passes its integer then; the
/// outcome, bytes or message, depends on the bytes of `data` alone; and data
/// too short to hold the four bytes of the size is an error.
#[verifier::external_body]
pub(crate) fn decompress(data: &[u8]) -> (out: Result<Vec<u8>, String>)
    requires
        fits_decompressor(data@),
    ensures
        match out {
            Ok(bytes) => lz4_size_prepended(data@) == Ok::<Seq<u8>, Seq<char>>(bytes@),
            Err(message) => lz4_size_prepended(data@) == Err::<Seq<u8>, Seq<char>>(message@),
        },
        data@.len() < 4 ==> out is Err,
{
    match lz4_flex::decompress_size_prepended(data) {
        Ok(bytes) => Ok(bytes),
        Err(error) => Err(error.to_string()),
    }
}

/// Calls `bincode::deserialize` for a sequence of string and integer pairs
/// and, where it fails, takes the error's message. In bincode a map and a
/// sequence of pairs are written alike, as the count and then the entries, so
/// this reads what was written from a map of tokens to scores and keeps the
/// order of the entries. Trusted: the outcome, pairs or message, depends on
/// `bytes` alone.
#[verifier::external_body]
pub(crate) fn decode_pairs(bytes: &[u8]) -> (out: Result<Vec<(String, isize)>, String>)
    ensures
        match out {
            Ok(pairs) => bincode_pairs(bytes@) == Ok::<Seq<(Seq<char>, isize)>, Seq<char>>(
                pairs_view(pairs@),
            ),
            Err(message) => bincode_pairs(bytes@) == Err::<Seq<(Seq<char>, isize)>, Seq<char>>(
                message@,
            ),
        },
{
    match bincode::deserialize::<Vec<(String, isize)>>(bytes) {
        Ok(pairs) => Ok(pairs),
        Err(error) => Err(error.to_string()),
    }
}

} // verus!

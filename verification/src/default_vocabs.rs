//! Vocabularies that come as packed data, and the bundled default
//! vocabularies.

use vstd::prelude::*;
use crate::codec::{
    bincode_pairs, can_decompress, decode_pairs, decompress, fits_decompressor,
    lz4_size_prepended,
};
use crate::errors::BytePairEncoderError;
use crate::tokenizer::BytePairEncoder;
use crate::vocabulary::insert_pairs;

verus! {

/// The bundled default vocabularies, by size.
#[derive(Debug, Clone, Copy, PartialEq, Eq)]
pub enum DefaultVocab {
    /// About a hundred thousand tokens.
    Small,
    /// About three hundred and twenty thousand tokens.
    Medium,
    /// About a million tokens.
    Large,
}

/// The message of the error for packed data that is not handed to the
/// decompressor.
pub const NOT_UNPACKED: &'static str =
    "vocabulary data holds a length beyond what the decompressor takes on this target";

impl BytePairEncoder {
    /// Builds the encoder from packed vocabulary data: the entries in bincode
    /// form, compressed as one LZ4 block with its size in front. Data that
    /// does not decompress is a decompression error; data that decompresses
    /// to bytes that do not decode is a deserialization error; either carries
    /// the message of the step that failed. Of two entries for one token the
    /// later one counts. Data of any size is taken. Only data that would make
    /// the decompressor add up a length beyond its integers is not handed to
    /// it (`fits_decompressor` says which): that is a decompression error with
    /// the message `NOT_UNPACKED`. Data of fewer than four bytes never
    /// decompresses.
    pub fn new_default(data: &[u8]) -> (built: Result<BytePairEncoder, BytePairEncoderError>)
        ensures
            !fits_decompressor(data@) ==> (built matches Err(
                BytePairEncoderError::DecompressionError(text),
            ) && text@ == NOT_UNPACKED@),
            fits_decompressor(data@) ==> match lz4_size_prepended(data@) {
                Err(message) => built matches Err(BytePairEncoderError::DecompressionError(text))
                    && text@ == message,
                Ok(bytes) => match bincode_pairs(bytes) {
                    Err(message) => built matches Err(
                        BytePairEncoderError::DeserializationError(text),
                    ) && text@ == message,
                    Ok(pairs) => built matches Ok(encoder) && encoder@ == insert_pairs(
                        Map::empty(),
                        pairs,
                    ),
                },
            },
            data@.len() < 4 ==> built matches Err(BytePairEncoderError::DecompressionError(_)),
    {
        if !can_decompress(data) {
            return Err(BytePairEncoderError::DecompressionError(NOT_UNPACKED.to_owned()));
        }
        let bytes = match decompress(data) {
            Ok(bytes) => bytes,
            Err(message) => {
                return Err(BytePairEncoderError::DecompressionError(message));
            },
        };
        let pairs = match decode_pairs(bytes.as_slice()) {
            Ok(pairs) => pairs,
            Err(message) => {
                return Err(BytePairEncoderError::DeserializationError(message));
            },
        };
        Ok(BytePairEncoder::new_from_pairs(&pairs))
    }

    /// The bundled small vocabulary. This build bundles none.
    pub fn new_default_small() -> (built: Result<BytePairEncoder, BytePairEncoderError>)
        ensures
            built matches Err(BytePairEncoderError::NoDefaultVocabFeature),
    {
        new_default(DefaultVocab::Small)
    }

    /// The bundled medium vocabulary. This build bundles none.
    pub fn new_default_medium() -> (built: Result<BytePairEncoder, BytePairEncoderError>)
        ensures
            built matches Err(BytePairEncoderError::NoDefaultVocabFeature),
    {
        new_default(DefaultVocab::Medium)
    }

    /// The bundled large vocabulary. This build bundles none.
    pub fn new_default_large() -> (built: Result<BytePairEncoder, BytePairEncoderError>)
        ensures
            built matches Err(BytePairEncoderError::NoDefaultVocabFeature),
    {
        new_default(DefaultVocab::Large)
    }
}

/// The bundled vocabulary of the given size. This build bundles none, so the
/// answer is that the vocabulary is not available.
pub fn new_default(_vocab: DefaultVocab) -> (built: Result<BytePairEncoder, BytePairEncoderError>)
    ensures
        built matches Err(BytePairEncoderError::NoDefaultVocabFeature),
{
    Err(BytePairEncoderError::NoDefaultVocabFeature)
}

} // verus!

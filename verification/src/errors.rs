//! The ways in which building a vocabulary can fail.

use vstd::prelude::*;

verus! {

/// An error met while building a `BytePairEncoder`. Tokenizing never fails.
#[derive(Debug, Clone, PartialEq, Eq)]
pub enum BytePairEncoderError {
    /// The vocabulary file could not be read. Holds the path that was asked for.
    InvalidFile(String),
    /// A line of the vocabulary text has no tab, or its score is not a signed
    /// decimal integer that fits.
    InvalidVocabularyInput,
    /// The compressed vocabulary data could not be decompressed. Holds the
    /// decompressor's message.
    DecompressionError(String),
    /// The decompressed vocabulary data could not be decoded. Holds the
    /// decoder's message.
    DeserializationError(String),
    /// A bundled default vocabulary was asked for and this build holds none.
    NoDefaultVocabFeature,
}

impl BytePairEncoderError {
    /// What `message` returns, as characters.
    pub open spec fn message_text(self) -> Seq<char> {
        match self {
            BytePairEncoderError::InvalidFile(path) => "Error reading file: "@ + path@,
            BytePairEncoderError::InvalidVocabularyInput => {
                "Invalid vocabulary input: Could not parse vocabulary file."@
            },
            BytePairEncoderError::DecompressionError(cause) => {
                "Error decompressing vocabulary data: "@ + cause@
            },
            BytePairEncoderError::DeserializationError(cause) => {
                "Error deserializing vocabulary data: "@ + cause@
            },
            BytePairEncoderError::NoDefaultVocabFeature => {
                "Error, must enable defualt-small, default-medium, and/or default-large feature(s) to use default vocabulary."@
            },
        }
    }

    /// The error in words, for a person to read.
    pub fn message(&self) -> (text: String)
        ensures
            text@ == self.message_text(),
    {
        match self {
            BytePairEncoderError::InvalidFile(path) => {
                "Error reading file: ".to_owned().concat(path.as_str())
            },
            BytePairEncoderError::InvalidVocabularyInput => {
                "Invalid vocabulary input: Could not parse vocabulary file.".to_owned()
            },
            BytePairEncoderError::DecompressionError(cause) => {
                "Error decompressing vocabulary data: ".to_owned().concat(cause.as_str())
            },
            BytePairEncoderError::DeserializationError(cause) => {
                "Error deserializing vocabulary data: ".to_owned().concat(cause.as_str())
            },
            BytePairEncoderError::NoDefaultVocabFeature => {
                "Error, must enable defualt-small, default-medium, and/or default-large feature(s) to use default vocabulary.".to_owned()
            },
        }
    }
}

} // verus!

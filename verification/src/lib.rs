//! A vocabulary-driven subword tokenizer: greedy longest-match byte pair
//! encoding over a fixed table of scored tokens.

pub mod assembly;
pub mod codec;
pub mod constants;
pub mod default_vocabs;
pub mod errors;
pub mod matching;
pub mod segmentation;
pub mod text;
pub mod tokenizer;
pub mod vocabulary;

pub use errors::BytePairEncoderError;
pub use tokenizer::BytePairEncoder;

//! Filler-text generation from a corpus of sentence templates with
//! placeholder substitution.
//!
//! - `text`: placeholder substitution on characters, and its laws.
//! - `corpus`: the four template categories, their validation and loading.
//! - `random`: random choice among templates.
//! - `generator`: the generation loop, paragraph breaks and their layout.

pub mod corpus;
pub mod generator;
pub mod random;
pub mod text;

pub use corpus::{Corpus, CorpusError, BUILTIN_CORPUS};
pub use generator::{
    decide, Action, BullshitGenerator, BREAK_MAX_DRAW, DRAW_RANGE, FAMOUS_MAX_DRAW, FULL_STOP,
    INDENT_SPACE, MIN_PARAGRAPH,
};
pub use random::choose_uniform;
pub use text::{fill_bosh, fill_famous, replace_chars};

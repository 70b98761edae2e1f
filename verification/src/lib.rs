//! Converts unsigned 64-bit integers into their English word form, with a
//! configurable rule for where the conjunction "and" appears, together with a
//! small command-line front end that parses numeric and flag arguments.

pub mod conversion_to_words;
pub mod process_input;
pub mod words_shape;

pub use conversion_to_words::to_word;
pub use conversion_to_words::AndBehavior;
pub use process_input::Config;

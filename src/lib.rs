//! Trims trailing whitespace from text, line by line, in one forward
//! pass: each line loses its trailing whitespace, blank lines at the end
//! are dropped, blank lines inside are kept, and the bytes saved are
//! counted. Files can be replaced by their trimmed text atomically.
pub mod clargs;
pub mod in_place;
pub mod laws;
pub mod lines;
pub mod model;
pub mod prelude;
pub mod trim;
pub mod util;
pub mod whitespace;

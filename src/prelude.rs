//! Trimming a whole buffer of lines at once.
use crate::model::{output, saved};
use crate::trim::{fits_all, line_views, lemma_counts_bounded, total_bytes, trim_lines, visual_text};
use vstd::prelude::*;

verus! {

/// The trimmed text, its visual report, and the bytes saved.
pub struct TrimResult {
    /// The trimmed output, ending in one line feed.
    pub trimmed: Box<String>,
    /// The visual report of the trim.
    pub visualized: Box<String>,
    /// Number of bytes saved through the trim.
    pub saved_bytes: usize,
}

/// Trims the lines: each loses its trailing whitespace, blank lines at the
/// end are dropped, and the text ends in a single line feed.
pub fn clean(lines: &Vec<String>) -> (r: TrimResult)
    requires
        fits_all(line_views(lines@)),
        total_bytes(line_views(lines@)) + lines.len() <= usize::MAX,
    ensures
        (*r.trimmed)@ == output(line_views(lines@), false),
        (*r.visualized)@ == visual_text(line_views(lines@)),
        r.saved_bytes == saved(line_views(lines@)),
{
    proof {
        lemma_counts_bounded(line_views(lines@));
    }
    let t = trim_lines(lines, false);
    TrimResult {
        trimmed: Box::new(t.output),
        visualized: Box::new(t.visual),
        saved_bytes: t.result.bytes_saved as usize,
    }
}

} // verus!

//! The streaming trim engine: lines go in one at a time, and for each it
//! hands back what to write now; line feeds whose fate is not known yet
//! are held back until a later line with text shows they are inside.
use crate::model::{
    emitted, lemma_push, lemma_trim_bytes, newlines, pending, removed_bytes, saved, terminator,
    total_removed, trim_end, byte_len, join_lines, kept, lemma_content_len, lemma_emitted, output,
};
use crate::util::{
    decimal_string, decimal_text, painted_on, red_padding_with_len, repeated, right_align,
    right_aligned, Hue,
};
use crate::whitespace::TrailingWhitespace;
use vstd::prelude::*;

verus! {

/// Summary of everything that happened during the trim.
pub struct TrimResult {
    pub bytes_saved: i64,
}

/// One line that lost trailing whitespace, for the visual report.
pub struct VisualSpan {
    /// 1-based position of the line.
    pub line_number: usize,
    /// The line as trimmed.
    pub text: String,
    /// Bytes of whitespace removed from it.
    pub removed: usize,
}

/// The report record for a line: its number right-aligned in six columns,
/// a bar, the trimmed text, and one highlighted underscore per removed
/// byte, then a line feed.
pub open spec fn visual_record(line_number: nat, text: Seq<char>, removed: nat) -> Seq<char> {
    right_aligned(decimal_text(line_number), 6) + seq!['|'] + text + painted_on(
        Hue::White,
        Hue::Red,
        repeated('_', removed),
    ) + seq!['\n']
}

/// The report for the line `l` that comes after the lines `ls`.
pub open spec fn visual_of(ls: Seq<Seq<char>>, l: Seq<char>) -> Seq<char> {
    if removed_bytes(l) > 0 {
        visual_record(ls.len() + 1, trim_end(l), removed_bytes(l))
    } else {
        Seq::empty()
    }
}

/// The whole report for the lines: one record per line that lost bytes.
pub open spec fn visual_text(ls: Seq<Seq<char>>) -> Seq<char>
    decreases ls.len(),
{
    if ls.len() == 0 {
        Seq::empty()
    } else {
        visual_text(ls.drop_last()) + visual_of(ls.drop_last(), ls.last())
    }
}

impl VisualSpan {
    /// The record for this line.
    pub fn render(&self) -> (r: String)
        ensures
            r@ == visual_record(self.line_number as nat, self.text@, self.removed as nat),
    {
        let number = decimal_string(self.line_number as u64);
        let mut r = right_align(number.as_str(), 6);
        let bar = "|";
        let lf = "\n";
        proof {
            reveal_strlit("|");
            reveal_strlit("\n");
        }
        r.append(bar);
        r.append(self.text.as_str());
        let pad = red_padding_with_len(self.removed);
        r.append(pad.as_str());
        r.append(lf);
        r
    }
}

/// What the engine hands back for one line.
pub struct Emitted {
    /// Text to write to the output now (possibly empty).
    pub text: String,
    /// The report for the line, if it lost any whitespace.
    pub visual: Option<VisualSpan>,
}

/// The largest count of saved bytes the engine keeps.
pub const SAVED_MAX: u64 = 0x7fff_ffff_ffff_ffff;

/// Whether the engine, after the lines `ls`, can take the line `l`
/// without its counts going past their limits.
pub open spec fn fits(ls: Seq<Seq<char>>, l: Seq<char>) -> bool {
    &&& total_removed(ls) + pending(ls) + byte_len(l) + 1 <= SAVED_MAX
    &&& ls.len() + 1 < usize::MAX
}

/// Line feeds: `n` of them.
fn line_feeds(n: u64) -> (r: String)
    ensures
        r@ == newlines(n as nat),
{
    let lf = "\n";
    proof {
        reveal_strlit("\n");
    }
    let mut r = String::new();
    let mut i: u64 = 0;
    while i < n
        invariant
            i <= n,
            lf@ == seq!['\n'],
            r@ == newlines(i as nat),
        decreases n - i,
    {
        r.append(lf);
        i = i + 1;
        assert(r@ =~= newlines(i as nat));
    }
    r
}

/// The state of one trim run: the deferred line feeds, the bytes removed
/// so far, and (as ghost state) the lines seen so far.
pub struct TrimEngine {
    ws: TrailingWhitespace,
    pending: u64,
    removed: u64,
    count: usize,
    lines: Ghost<Seq<Seq<char>>>,
}

impl View for TrimEngine {
    type V = Seq<Seq<char>>;

    closed spec fn view(&self) -> Seq<Seq<char>> {
        self.lines@
    }
}

impl TrimEngine {
    /// The counters agree with the lines seen so far.
    pub closed spec fn wf(&self) -> bool {
        &&& self.pending == pending(self.lines@)
        &&& self.removed == total_removed(self.lines@)
        &&& self.count == self.lines@.len()
        &&& self.removed + self.pending <= SAVED_MAX
    }

    /// An engine that has seen no line.
    pub fn new() -> (r: TrimEngine)
        ensures
            r.wf(),
            r@ == Seq::<Seq<char>>::empty(),
    {
        TrimEngine {
            ws: TrailingWhitespace::new(),
            pending: 0,
            removed: 0,
            count: 0,
            lines: Ghost(Seq::empty()),
        }
    }

    /// Whether the engine can take `line` next.
    pub fn has_room(&self, line: &str) -> (r: bool)
        requires
            self.wf(),
        ensures
            r == fits(self@, line@),
    {
        let bytes = line.as_bytes().len() as u64;
        self.count < usize::MAX - 1 && bytes < SAVED_MAX - self.removed - self.pending
    }

    /// Takes the next line. A line with text brings the deferred line
    /// feeds out, then itself; a blank line only adds one more deferred
    /// line feed.
    pub fn push_line(&mut self, line: &str) -> (r: Emitted)
        requires
            old(self).wf(),
            fits(old(self)@, line@),
        ensures
            final(self).wf(),
            final(self)@ == old(self)@.push(line@),
            r.text@ == emitted(old(self)@, line@),
            r.visual is Some <==> removed_bytes(line@) > 0,
            r.visual matches Some(v) ==> {
                &&& v.line_number == old(self)@.len() + 1
                &&& v.text@ == trim_end(line@)
                &&& v.removed == removed_bytes(line@)
            },
    {
        let trimmed = self.ws.trim(line);
        proof {
            lemma_trim_bytes(line@);
            lemma_push(self.lines@, line@);
        }
        let removed = line.as_bytes().len() - trimmed.as_str().as_bytes().len();
        let text = if trimmed.as_str().is_empty() {
            self.pending = self.pending + 1;
            String::new()
        } else {
            let mut t = line_feeds(self.pending);
            t.append(trimmed.as_str());
            self.pending = 1;
            t
        };
        let visual = if removed > 0 {
            Some(VisualSpan { line_number: self.count + 1, text: trimmed, removed })
        } else {
            None
        };
        self.removed = self.removed + removed as u64;
        self.count = self.count + 1;
        self.lines = Ghost(self.lines@.push(line@));
        Emitted { text, visual }
    }

    /// Ends the run: the final line feed to write (none when suppressed)
    /// and the bytes saved, which the choice does not change.
    pub fn finish(&self, suppress_newline: bool) -> (r: (String, TrimResult))
        requires
            self.wf(),
        ensures
            r.0@ == terminator(suppress_newline),
            r.1.bytes_saved == saved(self@),
            r.1.bytes_saved >= 0,
    {
        let tail = if suppress_newline {
            String::new()
        } else {
            line_feeds(1)
        };
        proof {
            assert(newlines(1) =~= seq!['\n']);
        }
        let saved = if self.pending == 1 {
            self.removed
        } else {
            self.removed + self.pending
        };
        (tail, TrimResult { bytes_saved: saved as i64 })
    }
}

/// The text of each line.
pub open spec fn line_views(v: Seq<String>) -> Seq<Seq<char>> {
    v.map_values(|s: String| s@)
}

/// Bytes in all the lines together.
pub open spec fn total_bytes(ls: Seq<Seq<char>>) -> nat
    decreases ls.len(),
{
    if ls.len() == 0 {
        0
    } else {
        total_bytes(ls.drop_last()) + byte_len(ls.last())
    }
}

/// Whether the whole run over the lines stays within the engine's limits.
pub open spec fn fits_all(ls: Seq<Seq<char>>) -> bool {
    &&& total_bytes(ls) + ls.len() <= SAVED_MAX
    &&& ls.len() < usize::MAX
}

/// The whitespace removed and the deferred line feeds never exceed the
/// bytes and the lines there are.
pub proof fn lemma_counts_bounded(ls: Seq<Seq<char>>)
    ensures
        total_removed(ls) <= total_bytes(ls),
        pending(ls) <= ls.len(),
        saved(ls) <= total_bytes(ls) + ls.len(),
    decreases ls.len(),
{
    lemma_content_len(ls);
    if ls.len() > 0 {
        lemma_counts_bounded(ls.drop_last());
        lemma_trim_bytes(ls.last());
    }
}

/// The bytes of a prefix, and of the prefix one line longer.
pub proof fn lemma_total_bytes_prefix(ls: Seq<Seq<char>>, i: int)
    requires
        0 <= i < ls.len(),
    ensures
        total_bytes(ls.take(i + 1)) == total_bytes(ls.take(i)) + byte_len(ls[i]),
        total_bytes(ls.take(i + 1)) <= total_bytes(ls),
    decreases ls.len(),
{
    assert(ls.take(i + 1).drop_last() =~= ls.take(i));
    if i + 1 < ls.len() {
        lemma_total_bytes_prefix(ls.drop_last(), i);
        assert(ls.drop_last().take(i + 1) =~= ls.take(i + 1));
    } else {
        assert(ls.take(i + 1) =~= ls);
    }
}

/// The result of trimming a whole sequence of lines at once.
pub struct Trimmed {
    /// The trimmed output.
    pub output: String,
    /// The visual report.
    pub visual: String,
    pub result: TrimResult,
}

/// Trims the lines in one pass of the engine and gathers what it writes.
pub fn trim_lines(lines: &Vec<String>, suppress_newline: bool) -> (r: Trimmed)
    requires
        fits_all(line_views(lines@)),
    ensures
        r.output@ == output(line_views(lines@), suppress_newline),
        r.visual@ == visual_text(line_views(lines@)),
        r.result.bytes_saved == saved(line_views(lines@)),
        r.result.bytes_saved >= 0,
{
    let ghost ls = line_views(lines@);
    let mut engine = TrimEngine::new();
    let mut out = String::new();
    let mut visual = String::new();
    let mut i: usize = 0;
    proof {
        assert(ls.take(0) =~= Seq::<Seq<char>>::empty());
    }
    while i < lines.len()
        invariant
            ls == line_views(lines@),
            fits_all(ls),
            i <= lines.len(),
            engine.wf(),
            engine@ == ls.take(i as int),
            out@ == join_lines(kept(ls.take(i as int))),
            visual@ == visual_text(ls.take(i as int)),
        decreases lines.len() - i,
    {
        let line = lines[i].as_str();
        let ghost prefix = ls.take(i as int);
        proof {
            assert(line@ == ls[i as int]);
            lemma_counts_bounded(prefix);
            lemma_total_bytes_prefix(ls, i as int);
            assert(ls.take(i as int + 1) =~= prefix.push(ls[i as int]));
            lemma_emitted(prefix, line@);
            assert(ls.take(i as int + 1).drop_last() =~= prefix);
        }
        let e = engine.push_line(line);
        out.append(e.text.as_str());
        match e.visual {
            Some(v) => {
                let record = v.render();
                visual.append(record.as_str());
            },
            None => {
                assert(visual@ + visual_of(prefix, line@) =~= visual@);
            },
        }
        i = i + 1;
    }
    proof {
        assert(ls.take(i as int) =~= ls);
    }
    let (tail, result) = engine.finish(suppress_newline);
    out.append(tail.as_str());
    Trimmed { output: out, visual, result }
}

} // verus!

//! Replacing a file by its trimmed text without ever exposing a partly
//! written file: the text goes to a scratch file first, and one rename
//! puts it in place. The decisions are here; the caller performs each
//! step and reports back what happened.
use crate::util::{decimal_string, decimal_text, hash_default};
use std::collections::hash_map::DefaultHasher;
use vstd::prelude::*;
use vstd::std_specs::hash::DefaultHasherAdditionalSpecFns;
use vstd::utf8::encode_utf8;

verus! {

/// The next step of an in-place replacement.
#[derive(Clone, Copy, Debug, PartialEq, Eq, Structural)]
pub enum Step {
    /// Find out whether a stale scratch file is in the way.
    ProbeScratch,
    /// Remove the stale scratch file.
    RemoveScratch,
    /// Copy the file, content and permissions, to the scratch path.
    CopyToScratch,
    /// Open the scratch file for writing, cut to nothing.
    OpenScratch,
    /// Trim the file's lines into the scratch file.
    TrimIntoScratch,
    /// Rename the scratch file over the file.
    RenameOverFile { bytes_saved: i64 },
    /// Done: the file now holds its trimmed text.
    Finished { bytes_saved: i64 },
    /// Done: the last step failed, its error is the outcome.
    Failed,
}

/// What came of the step last performed.
#[derive(Clone, Copy, Debug, PartialEq, Eq, Structural)]
pub enum Event {
    /// Whether the scratch path is taken.
    ScratchExists(bool),
    /// The step succeeded.
    Done,
    /// The trim into the scratch file succeeded and saved these bytes.
    Trimmed(i64),
    /// The step failed.
    Error,
}

/// The one step that changes the file itself.
pub open spec fn writes_file(s: Step) -> bool {
    s is RenameOverFile
}

/// The step that follows `s` when `e` came of it.
pub open spec fn next(s: Step, e: Event) -> Step {
    match (s, e) {
        (Step::ProbeScratch, Event::ScratchExists(true)) => Step::RemoveScratch,
        (Step::ProbeScratch, Event::ScratchExists(false)) => Step::CopyToScratch,
        (Step::RemoveScratch, Event::Done) => Step::CopyToScratch,
        (Step::CopyToScratch, Event::Done) => Step::OpenScratch,
        (Step::OpenScratch, Event::Done) => Step::TrimIntoScratch,
        (Step::TrimIntoScratch, Event::Trimmed(n)) => Step::RenameOverFile { bytes_saved: n },
        (Step::RenameOverFile { bytes_saved }, Event::Done) => Step::Finished { bytes_saved },
        (Step::Finished { bytes_saved }, _) => Step::Finished { bytes_saved },
        _ => Step::Failed,
    }
}

/// The steps taken when the given events come, one after each step.
pub open spec fn run(events: Seq<Event>) -> Seq<Step>
    decreases events.len(),
{
    if events.len() == 0 {
        seq![Step::ProbeScratch]
    } else {
        let r = run(events.drop_last());
        r.push(next(r.last(), events.last()))
    }
}

/// The step a replacement starts with.
pub fn first_step() -> (r: Step)
    ensures
        r == run(Seq::empty())[0],
{
    Step::ProbeScratch
}

/// The step that follows `step` when `event` came of it.
pub fn next_step(step: Step, event: Event) -> (r: Step)
    ensures
        r == next(step, event),
{
    match (step, event) {
        (Step::ProbeScratch, Event::ScratchExists(true)) => Step::RemoveScratch,
        (Step::ProbeScratch, Event::ScratchExists(false)) => Step::CopyToScratch,
        (Step::RemoveScratch, Event::Done) => Step::CopyToScratch,
        (Step::CopyToScratch, Event::Done) => Step::OpenScratch,
        (Step::OpenScratch, Event::Done) => Step::TrimIntoScratch,
        (Step::TrimIntoScratch, Event::Trimmed(n)) => Step::RenameOverFile { bytes_saved: n },
        (Step::RenameOverFile { bytes_saved }, Event::Done) => Step::Finished { bytes_saved },
        (Step::Finished { bytes_saved }, _) => Step::Finished { bytes_saved },
        _ => Step::Failed,
    }
}

/// The name of the scratch file for the file at `path_text`: the decimal
/// hash of the path, then `.trim`.
pub open spec fn scratch_name(path_text: Seq<char>) -> Seq<char> {
    decimal_text(DefaultHasher::spec_finish(seq![encode_utf8(path_text)]) as nat) + seq![
        '.',
        't',
        'r',
        'i',
        'm',
    ]
}

/// The name of the scratch file for the file at `path_text`.
pub fn scratch_file_name(path_text: &str) -> (r: String)
    ensures
        r@ == scratch_name(path_text@),
{
    let mut r = decimal_string(hash_default(path_text));
    let suffix = ".trim";
    proof {
        reveal_strlit(".trim");
    }
    r.append(suffix);
    r
}

/// One more event adds one more step.
proof fn lemma_run(events: Seq<Event>)
    ensures
        run(events).len() == events.len() + 1,
        run(events)[0] == Step::ProbeScratch,
        forall|i: int|
            1 <= i <= events.len() ==> #[trigger] run(events)[i] == next(
                run(events)[i - 1],
                events[i - 1],
            ),
    decreases events.len(),
{
    if events.len() > 0 {
        let p = events.drop_last();
        lemma_run(p);
        assert forall|i: int| 1 <= i <= events.len() implies #[trigger] run(events)[i] == next(
            run(events)[i - 1],
            events[i - 1],
        ) by {
            if i < events.len() {
                assert(run(events)[i] == run(p)[i]);
                assert(run(events)[i - 1] == run(p)[i - 1]);
                assert(p[i - 1] == events[i - 1]);
            }
        }
    }
}

/// Once done, a replacement stays done, the same way.
proof fn lemma_done_stays(events: Seq<Event>, m: int, q: int)
    requires
        0 <= m <= q < events.len() + 1,
        (run(events)[m] is Finished) || (run(events)[m] is Failed),
    ensures
        (run(events)[q] is Finished) <==> (run(events)[m] is Finished),
        (run(events)[q] is Failed) <==> (run(events)[m] is Failed),
    decreases q - m,
{
    lemma_run(events);
    if q > m {
        assert(run(events)[q] == next(run(events)[q - 1], events[q - 1]));
        lemma_done_stays(events, m, q - 1);
        assert(run(events)[q] == next(run(events)[q - 1], events[q - 1]));
    }
}

/// The file itself is written only by the rename, and the rename comes
/// only right after the scratch file was copied, opened and filled with
/// the trimmed text, each step succeeding; it comes at most once. So if
/// the replacement stops anywhere before the rename, the file is as it
/// was.
pub proof fn rename_only_after_full_trim(events: Seq<Event>, i: int)
    requires
        0 <= i < run(events).len(),
        writes_file(run(events)[i]),
    ensures
        i >= 3,
        run(events)[i - 3] == Step::CopyToScratch && events[i - 3] == Event::Done,
        run(events)[i - 2] == Step::OpenScratch && events[i - 2] == Event::Done,
        run(events)[i - 1] == Step::TrimIntoScratch,
        (events[i - 1] is Trimmed),
        run(events)[i] == (Step::RenameOverFile { bytes_saved: events[i - 1]->Trimmed_0 }),
        forall|m: int| 0 <= m < i ==> !writes_file(#[trigger] run(events)[m]),
{
    let r = run(events);
    lemma_run(events);
    assert(i > 0);
    assert(r[i] == next(r[i - 1], events[i - 1]));
    assert(i - 1 > 0);
    assert(r[i - 1] == next(r[i - 2], events[i - 2]));
    assert(i - 2 > 0);
    assert(r[i - 2] == next(r[i - 3], events[i - 3]));
    assert forall|m: int| 0 <= m < i implies !writes_file(#[trigger] run(events)[m]) by {
        if writes_file(r[m]) {
            assert(r[m + 1] == next(r[m], events[m]));
            lemma_done_stays(events, m + 1, i);
        }
    }
}

/// After a step fails, nothing more is done: every later step is
/// `Failed`, so no rename follows.
pub proof fn nothing_after_failure(events: Seq<Event>, m: int, q: int)
    requires
        0 <= m < q < run(events).len(),
        events[m] == Event::Error,
        !(run(events)[m] is Finished),
    ensures
        run(events)[q] == Step::Failed,
        !writes_file(run(events)[q]),
{
    lemma_run(events);
    assert(run(events)[m + 1] == next(run(events)[m], events[m]));
    lemma_done_stays(events, m + 1, q);
}

} // verus!

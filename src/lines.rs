//! How a text falls into lines: split at each line feed, a carriage
//! return before a line feed goes with it, and a line feed at the very
//! end does not start another line.
use crate::model::{is_ws, join_lines, lemma_trim_end, terminator, trim_end};
use vstd::prelude::*;

verus! {

/// The text holds no line feed.
pub open spec fn no_lf(s: Seq<char>) -> bool {
    forall|j: int| 0 <= j < s.len() ==> s[j] != '\n'
}

/// The pieces of the text between line feeds; there is always one more
/// piece than there are line feeds.
pub open spec fn split_lf(t: Seq<char>) -> Seq<Seq<char>>
    decreases t.len(),
{
    if t.len() == 0 {
        seq![Seq::empty()]
    } else {
        let rest = split_lf(t.drop_first());
        if t[0] == '\n' {
            seq![Seq::empty()] + rest
        } else {
            rest.update(0, seq![t[0]] + rest[0])
        }
    }
}

/// The piece without the carriage return that ends it, if one does.
pub open spec fn strip_cr(s: Seq<char>) -> Seq<char> {
    if s.len() > 0 && s.last() == '\r' {
        s.drop_last()
    } else {
        s
    }
}

/// The lines of a text: every piece that a line feed ends, without a
/// carriage return before that line feed, and the piece after the last
/// line feed if it is not empty.
pub open spec fn lines_of(t: Seq<char>) -> Seq<Seq<char>> {
    let ps = split_lf(t);
    let ended = ps.drop_last().map_values(|p: Seq<char>| strip_cr(p));
    if ps.last().len() == 0 {
        ended
    } else {
        ended.push(ps.last())
    }
}

pub proof fn lemma_split_len(t: Seq<char>)
    ensures
        split_lf(t).len() >= 1,
    decreases t.len(),
{
    if t.len() > 0 {
        lemma_split_len(t.drop_first());
    }
}

/// A line feed between two texts splits their pieces apart.
pub proof fn lemma_split_concat(a: Seq<char>, b: Seq<char>)
    ensures
        split_lf(a + seq!['\n'] + b) == split_lf(a) + split_lf(b),
    decreases a.len(),
{
    let t = a + seq!['\n'] + b;
    if a.len() == 0 {
        assert(t.drop_first() =~= b);
        assert(t[0] == '\n');
        assert(split_lf(a) =~= seq![Seq::<char>::empty()]);
    } else {
        let a1 = a.drop_first();
        assert(t.drop_first() =~= a1 + seq!['\n'] + b);
        assert(t[0] == a[0]);
        lemma_split_concat(a1, b);
        lemma_split_len(a1);
        if a[0] == '\n' {
            assert(split_lf(t) =~= split_lf(a) + split_lf(b));
        } else {
            let rest = split_lf(a1) + split_lf(b);
            assert(rest[0] == split_lf(a1)[0]);
            assert(rest.update(0, seq![a[0]] + rest[0]) =~= split_lf(a1).update(
                0,
                seq![a[0]] + split_lf(a1)[0],
            ) + split_lf(b));
        }
    }
}

/// A text with no line feed is one piece.
pub proof fn lemma_split_no_lf(t: Seq<char>)
    requires
        no_lf(t),
    ensures
        split_lf(t) == seq![t],
    decreases t.len(),
{
    if t.len() > 0 {
        let t1 = t.drop_first();
        assert(no_lf(t1)) by {
            assert forall|j: int| 0 <= j < t1.len() implies t1[j] != '\n' by {
                assert(t1[j] == t[j + 1]);
            }
        }
        lemma_split_no_lf(t1);
        assert(seq![t[0]] + t1 =~= t);
        assert(split_lf(t) =~= seq![t]);
    } else {
        assert(t =~= Seq::<char>::empty());
    }
}

/// Lines without line feeds, joined, split back into themselves.
pub proof fn lemma_split_join(xs: Seq<Seq<char>>)
    requires
        xs.len() >= 1,
        forall|i: int| 0 <= i < xs.len() ==> no_lf(#[trigger] xs[i]),
    ensures
        split_lf(join_lines(xs)) == xs,
    decreases xs.len(),
{
    if xs.len() == 1 {
        lemma_split_no_lf(xs[0]);
        assert(xs =~= seq![xs[0]]);
    } else {
        let p = xs.drop_last();
        assert forall|i: int| 0 <= i < p.len() implies no_lf(#[trigger] p[i]) by {
            assert(p[i] == xs[i]);
        }
        lemma_split_join(p);
        lemma_split_concat(join_lines(p), xs.last());
        lemma_split_no_lf(xs.last());
        assert(xs =~= p + seq![xs.last()]);
    }
}

/// The last piece of a text that does not end in a line feed ends with
/// the text's last character.
pub proof fn lemma_split_last(t: Seq<char>)
    requires
        t.len() > 0,
        t.last() != '\n',
    ensures
        split_lf(t).last().len() > 0,
        split_lf(t).last().last() == t.last(),
    decreases t.len(),
{
    let t1 = t.drop_first();
    lemma_split_len(t1);
    if t.len() == 1 {
        assert(t1 =~= Seq::<char>::empty());
        assert(split_lf(t) =~= seq![seq![t[0]]]);
    } else {
        assert(t1.last() == t.last());
        lemma_split_last(t1);
    }
}

/// Lines that hold no line feed and do not end in whitespace, joined and
/// (unless suppressed) ended by a line feed, read back as those lines;
/// with no lines and a line feed, as one empty line.
pub proof fn lemma_lines_of_join(xs: Seq<Seq<char>>, suppress_newline: bool)
    requires
        forall|i: int| 0 <= i < xs.len() ==> no_lf(#[trigger] xs[i]),
        forall|i: int| 0 <= i < xs.len() ==> #[trigger] trim_end(xs[i]) == xs[i],
        xs.len() == 0 || xs.last().len() > 0,
    ensures
        lines_of(join_lines(xs) + terminator(suppress_newline)) == if xs.len() == 0
            && !suppress_newline {
            seq![Seq::<char>::empty()]
        } else {
            xs
        },
{
    let t = join_lines(xs) + terminator(suppress_newline);
    let e = Seq::<char>::empty();
    assert forall|i: int| 0 <= i < xs.len() implies strip_cr(#[trigger] xs[i]) == xs[i] by {
        lemma_trim_end(xs[i]);
        assert(is_ws('\r'));
    }
    if xs.len() == 0 {
        assert(join_lines(xs) =~= e);
        if suppress_newline {
            assert(t =~= e);
        } else {
            assert(t =~= e + seq!['\n'] + e);
            lemma_split_concat(e, e);
        }
    } else {
        lemma_split_join(xs);
        if suppress_newline {
            assert(t =~= join_lines(xs));
            assert(xs.drop_last().map_values(|p: Seq<char>| strip_cr(p)).push(xs.last()) =~= xs);
        } else {
            assert(t =~= join_lines(xs) + seq!['\n'] + e);
            lemma_split_concat(join_lines(xs), e);
            assert((xs + seq![e]).drop_last() =~= xs);
            assert(xs.map_values(|p: Seq<char>| strip_cr(p)) =~= xs);
        }
    }
}

} // verus!

//! What holds of trimming for every input.
use crate::lines::{
    lemma_lines_of_join, lemma_split_concat, lemma_split_last, lemma_split_len, lines_of, no_lf,
    split_lf, strip_cr,
};
use crate::model::{
    content_len, is_blank, is_ws, join_lines, kept, lemma_content_len, lemma_trim_end, output,
    pending, removed_bytes, saved, terminator, total_removed, trim_end,
};
use vstd::prelude::*;

verus! {

/// Lines that are already trimmed lose no bytes.
proof fn lemma_nothing_removed(xs: Seq<Seq<char>>)
    requires
        forall|i: int| 0 <= i < xs.len() ==> #[trigger] trim_end(xs[i]) == xs[i],
    ensures
        total_removed(xs) == 0,
    decreases xs.len(),
{
    if xs.len() > 0 {
        let p = xs.drop_last();
        assert forall|i: int| 0 <= i < p.len() implies #[trigger] trim_end(p[i]) == p[i] by {
            assert(p[i] == xs[i]);
        }
        lemma_nothing_removed(p);
        assert(trim_end(xs.last()) == xs[xs.len() - 1]);
    }
}

/// A text made of one empty line keeps nothing and saves nothing.
proof fn lemma_one_empty_line()
    ensures
        kept(seq![Seq::<char>::empty()]) == Seq::<Seq<char>>::empty(),
        saved(seq![Seq::<char>::empty()]) == 0,
{
    let e = Seq::<char>::empty();
    let ls = seq![e];
    let none = Seq::<Seq<char>>::empty();
    assert(trim_end(e) =~= e);
    assert(ls.drop_last() =~= none);
    assert(ls.last() == e);
    assert(is_blank(e));
    assert(content_len(none) == 0);
    assert(content_len(ls) == 0);
    assert(kept(ls) =~= none);
    assert(total_removed(none) == 0);
    assert(removed_bytes(e) == 0);
    assert(total_removed(ls) == 0);
}

/// Trimming text that is already trimmed gives it back byte for byte and
/// saves nothing. Such text is lines with no trailing whitespace and no
/// blank line at the end, joined by line feeds and ended by one line feed
/// exactly when the final line feed is not suppressed.
pub proof fn trimmed_text_is_unchanged(xs: Seq<Seq<char>>, suppress_newline: bool)
    requires
        forall|i: int| 0 <= i < xs.len() ==> no_lf(#[trigger] xs[i]),
        forall|i: int| 0 <= i < xs.len() ==> #[trigger] trim_end(xs[i]) == xs[i],
        xs.len() == 0 || xs.last().len() > 0,
    ensures
        output(lines_of(join_lines(xs) + terminator(suppress_newline)), suppress_newline)
            == join_lines(xs) + terminator(suppress_newline),
        saved(lines_of(join_lines(xs) + terminator(suppress_newline))) == 0,
{
    let e = Seq::<char>::empty();
    lemma_lines_of_join(xs, suppress_newline);
    if xs.len() == 0 && !suppress_newline {
        lemma_one_empty_line();
        assert(join_lines(xs) =~= e);
        assert(join_lines(Seq::<Seq<char>>::empty()) =~= e);
    } else {
        lemma_nothing_removed(xs);
        if xs.len() > 0 {
            assert(trim_end(xs.last()) == xs[xs.len() - 1]);
            assert(!is_blank(xs.last()));
            assert(xs.take(xs.len() as int) =~= xs);
            assert(kept(xs) =~= xs);
        } else {
            assert(kept(xs) =~= xs);
        }
    }
}

/// One line feed more at the end of the text changes neither the output
/// nor the bytes saved: `abc` and `abc\n` trim alike. This holds when
/// the text does not already end in a line feed (which would add a blank
/// line) or in a carriage return (which the line feed would turn into
/// part of the line ending).
pub proof fn final_line_feed_is_optional(t: Seq<char>, suppress_newline: bool)
    requires
        t.len() == 0 || (t.last() != '\n' && t.last() != '\r'),
    ensures
        output(lines_of(t.push('\n')), suppress_newline) == output(lines_of(t), suppress_newline),
        saved(lines_of(t.push('\n'))) == saved(lines_of(t)),
{
    let e = Seq::<char>::empty();
    assert(t.push('\n') =~= t + seq!['\n'] + e);
    lemma_split_concat(t, e);
    lemma_split_len(t);
    let ps = split_lf(t);
    assert((ps + seq![e]).drop_last() =~= ps);
    if t.len() == 0 {
        assert(ps =~= seq![e]);
        lemma_one_empty_line();
        assert(lines_of(t.push('\n')) =~= seq![e]);
        assert(lines_of(t) =~= Seq::<Seq<char>>::empty());
        assert(kept(Seq::<Seq<char>>::empty()) =~= Seq::<Seq<char>>::empty());
        assert(total_removed(Seq::<Seq<char>>::empty()) == 0);
    } else {
        lemma_split_last(t);
        assert(strip_cr(ps.last()) == ps.last());
        assert(ps.map_values(|p: Seq<char>| strip_cr(p)) =~= ps.drop_last().map_values(
            |p: Seq<char>| strip_cr(p),
        ).push(ps.last()));
        assert(lines_of(t.push('\n')) =~= lines_of(t));
    }
}

/// The first `k` lines of `ls + more` are those of `ls`.
proof fn lemma_content_len_append(ls: Seq<Seq<char>>, blanks: Seq<Seq<char>>)
    requires
        forall|i: int| 0 <= i < blanks.len() ==> is_blank(#[trigger] blanks[i]),
    ensures
        content_len(ls + blanks) == content_len(ls),
    decreases blanks.len(),
{
    if blanks.len() == 0 {
        assert(ls + blanks =~= ls);
    } else {
        let b = blanks.drop_last();
        assert forall|i: int| 0 <= i < b.len() implies is_blank(#[trigger] b[i]) by {
            assert(b[i] == blanks[i]);
        }
        lemma_content_len_append(ls, b);
        assert((ls + blanks).drop_last() =~= ls + b);
        assert(is_blank(blanks[blanks.len() - 1]));
    }
}

/// Blank lines at the end of the input leave no trace in the output: it
/// is the output of the input without them, not blank lines in it.
pub proof fn trailing_blank_lines_vanish(
    ls: Seq<Seq<char>>,
    blanks: Seq<Seq<char>>,
    suppress_newline: bool,
)
    requires
        forall|i: int| 0 <= i < blanks.len() ==> is_blank(#[trigger] blanks[i]),
    ensures
        output(ls + blanks, suppress_newline) == output(ls, suppress_newline),
{
    lemma_content_len_append(ls, blanks);
    lemma_content_len(ls);
    assert((ls + blanks).take(content_len(ls) as int) =~= ls.take(content_len(ls) as int));
    assert(kept(ls + blanks) =~= kept(ls));
}

/// A blank line with a line of text somewhere after it stays in the
/// output, as an empty line at the same place: reading the output back
/// line by line, line `i` is empty.
pub proof fn interior_blank_lines_stay(
    ls: Seq<Seq<char>>,
    i: int,
    j: int,
    suppress_newline: bool,
)
    requires
        0 <= i < j < ls.len(),
        is_blank(ls[i]),
        !is_blank(ls[j]),
        forall|k: int| 0 <= k < ls.len() ==> no_lf(#[trigger] ls[k]),
    ensures
        i < lines_of(output(ls, suppress_newline)).len(),
        lines_of(output(ls, suppress_newline))[i] == Seq::<char>::empty(),
{
    lemma_content_len(ls);
    let k = content_len(ls);
    assert(j < k);
    let xs = kept(ls);
    assert forall|m: int| 0 <= m < xs.len() implies no_lf(#[trigger] xs[m]) && trim_end(xs[m])
        == xs[m] by {
        lemma_trim_end(ls[m]);
        let l = ls[m];
        assert(no_lf(l));
        assert(xs[m] == trim_end(l));
        assert forall|q: int| 0 <= q < xs[m].len() implies xs[m][q] != '\n' by {
            assert(xs[m][q] == l[q]);
        }
        lemma_trim_end(trim_end(l));
        if trim_end(l).len() > 0 {
            assert(!is_ws(trim_end(l).last()));
        }
    }
    assert(xs.last() == trim_end(ls[k - 1]));
    lemma_lines_of_join(xs, suppress_newline);
    assert(xs[i] == trim_end(ls[i]));
}

} // verus!

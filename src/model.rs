//! The mathematical model of trimming: what a line is once its trailing
//! whitespace is gone, which lines survive, and how many bytes are saved.
use vstd::prelude::*;
use vstd::utf8::encode_utf8;

verus! {

/// A character of the Unicode `White_Space` property.
pub open spec fn is_ws(c: char) -> bool {
    let u = c as u32;
    ||| 0x09 <= u <= 0x0d
    ||| u == 0x20
    ||| u == 0x85
    ||| u == 0xa0
    ||| u == 0x1680
    ||| 0x2000 <= u <= 0x200a
    ||| u == 0x2028
    ||| u == 0x2029
    ||| u == 0x202f
    ||| u == 0x205f
    ||| u == 0x3000
}

/// The text without its longest suffix made only of whitespace.
pub open spec fn trim_end(s: Seq<char>) -> Seq<char>
    decreases s.len(),
{
    if s.len() > 0 && is_ws(s.last()) {
        trim_end(s.drop_last())
    } else {
        s
    }
}

/// A line that holds nothing but whitespace (or nothing at all).
pub open spec fn is_blank(s: Seq<char>) -> bool {
    trim_end(s).len() == 0
}

/// Length of the text in bytes, encoded as UTF-8.
pub open spec fn byte_len(s: Seq<char>) -> nat {
    encode_utf8(s).len()
}

/// Bytes of trailing whitespace that trimming takes off one line.
pub open spec fn removed_bytes(line: Seq<char>) -> nat {
    (byte_len(line) - byte_len(trim_end(line))) as nat
}

/// Bytes of trailing whitespace taken off all the lines together.
pub open spec fn total_removed(ls: Seq<Seq<char>>) -> nat
    decreases ls.len(),
{
    if ls.len() == 0 {
        0
    } else {
        total_removed(ls.drop_last()) + removed_bytes(ls.last())
    }
}

/// How many leading lines reach up to the last line that holds text
/// (zero when every line is blank).
pub open spec fn content_len(ls: Seq<Seq<char>>) -> nat
    decreases ls.len(),
{
    if ls.len() == 0 {
        0
    } else if !is_blank(ls.last()) {
        ls.len()
    } else {
        content_len(ls.drop_last())
    }
}

/// The lines of the output: every line up to the last one with text,
/// trimmed; the blank lines after it are dropped.
pub open spec fn kept(ls: Seq<Seq<char>>) -> Seq<Seq<char>> {
    ls.take(content_len(ls) as int).map_values(|l: Seq<char>| trim_end(l))
}

/// The lines joined with a line feed between each two.
pub open spec fn join_lines(xs: Seq<Seq<char>>) -> Seq<char>
    decreases xs.len(),
{
    if xs.len() == 0 {
        Seq::empty()
    } else if xs.len() == 1 {
        xs[0]
    } else {
        join_lines(xs.drop_last()) + seq!['\n'] + xs.last()
    }
}

/// The line feed that ends the output, unless it is suppressed.
pub open spec fn terminator(suppress_newline: bool) -> Seq<char> {
    if suppress_newline {
        Seq::empty()
    } else {
        seq!['\n']
    }
}

/// The whole trimmed output for the given lines.
pub open spec fn output(ls: Seq<Seq<char>>, suppress_newline: bool) -> Seq<char> {
    join_lines(kept(ls)) + terminator(suppress_newline)
}

/// The line feeds that have been deferred after the lines seen so far:
/// one for the last line with text, plus one for each blank line after it.
pub open spec fn pending(ls: Seq<Seq<char>>) -> nat {
    if content_len(ls) == 0 {
        ls.len()
    } else {
        (ls.len() - content_len(ls) + 1) as nat
    }
}

/// The bytes saved: the whitespace removed and the deferred line feeds,
/// where a single deferred line feed (after a last line with text) counts
/// as no line feed at all.
pub open spec fn saved(ls: Seq<Seq<char>>) -> nat {
    if pending(ls) == 1 {
        total_removed(ls)
    } else {
        total_removed(ls) + pending(ls)
    }
}

/// `n` line feeds.
pub open spec fn newlines(n: nat) -> Seq<char> {
    Seq::new(n, |i: int| '\n')
}

/// What the streaming engine writes when line `l` comes after the lines
/// `ls`: nothing for a blank line, else the deferred line feeds and the
/// trimmed line.
pub open spec fn emitted(ls: Seq<Seq<char>>, l: Seq<char>) -> Seq<char> {
    if is_blank(l) {
        Seq::empty()
    } else {
        newlines(pending(ls)) + trim_end(l)
    }
}

/// The trimmed text is a prefix of the text, everything after it is
/// whitespace, and it does not itself end in whitespace.
pub proof fn lemma_trim_end(s: Seq<char>)
    ensures
        trim_end(s).len() <= s.len(),
        trim_end(s) =~= s.take(trim_end(s).len() as int),
        forall|i: int| trim_end(s).len() <= i < s.len() ==> is_ws(#[trigger] s[i]),
        trim_end(s).len() == 0 || !is_ws(trim_end(s).last()),
    decreases s.len(),
{
    if s.len() > 0 && is_ws(s.last()) {
        lemma_trim_end(s.drop_last());
        let t = trim_end(s);
        assert forall|i: int| t.len() <= i < s.len() implies is_ws(#[trigger] s[i]) by {
            if i < s.len() - 1 {
                assert(s.drop_last()[i] == s[i]);
            }
        }
    }
}

/// UTF-8 encoding distributes over concatenation.
pub proof fn lemma_encode_concat(a: Seq<char>, b: Seq<char>)
    ensures
        encode_utf8(a + b) == encode_utf8(a) + encode_utf8(b),
    decreases a.len(),
{
    if a.len() == 0 {
        assert(a + b =~= b);
        assert(encode_utf8(a) + encode_utf8(b) =~= encode_utf8(b));
    } else {
        lemma_encode_concat(a.drop_first(), b);
        assert((a + b).drop_first() =~= a.drop_first() + b);
        assert((a + b)[0] == a[0]);
        assert(encode_utf8(a + b) =~= encode_utf8(a) + encode_utf8(b));
    }
}

/// Trimming never makes a line longer in bytes.
pub proof fn lemma_trim_bytes(s: Seq<char>)
    ensures
        byte_len(trim_end(s)) <= byte_len(s),
        removed_bytes(s) + byte_len(trim_end(s)) == byte_len(s),
{
    lemma_trim_end(s);
    let t = trim_end(s);
    assert(s =~= t + s.skip(t.len() as int));
    lemma_encode_concat(t, s.skip(t.len() as int));
}

/// Where the last line with text lies.
pub proof fn lemma_content_len(ls: Seq<Seq<char>>)
    ensures
        content_len(ls) <= ls.len(),
        forall|i: int| content_len(ls) <= i < ls.len() ==> is_blank(#[trigger] ls[i]),
        content_len(ls) > 0 ==> !is_blank(ls[content_len(ls) - 1]),
    decreases ls.len(),
{
    if ls.len() > 0 && is_blank(ls.last()) {
        lemma_content_len(ls.drop_last());
        assert forall|i: int| content_len(ls) <= i < ls.len() implies is_blank(#[trigger] ls[i]) by {
            if i < ls.len() - 1 {
                assert(ls.drop_last()[i] == ls[i]);
            }
        }
    }
}

/// How the model moves on by one line.
pub proof fn lemma_push(ls: Seq<Seq<char>>, l: Seq<char>)
    ensures
        content_len(ls.push(l)) == if is_blank(l) { content_len(ls) } else { ls.len() + 1 },
        pending(ls.push(l)) == if is_blank(l) { pending(ls) + 1 } else { 1 },
        total_removed(ls.push(l)) == total_removed(ls) + removed_bytes(l),
{
    assert(ls.push(l).drop_last() =~= ls);
    lemma_content_len(ls);
}

/// Join of the lines with one more line at the end.
pub proof fn lemma_join_push(xs: Seq<Seq<char>>, x: Seq<char>)
    ensures
        join_lines(xs.push(x)) == if xs.len() == 0 { x } else { join_lines(xs) + seq!['\n'] + x },
{
    assert(xs.push(x).drop_last() =~= xs);
}

/// Joining every line, trimmed, gives the kept part followed by the
/// line feeds that are still deferred.
pub proof fn lemma_join_trimmed(ls: Seq<Seq<char>>)
    requires
        ls.len() >= 1,
    ensures
        join_lines(ls.map_values(|l: Seq<char>| trim_end(l))) == join_lines(kept(ls)) + newlines(
            (pending(ls) - 1) as nat,
        ),
    decreases ls.len(),
{
    let f = |l: Seq<char>| trim_end(l);
    let p = ls.drop_last();
    let l = ls.last();
    assert(p.push(l) =~= ls);
    assert(ls.map_values(f) =~= p.map_values(f).push(trim_end(l)));
    lemma_push(p, l);
    lemma_join_push(p.map_values(f), trim_end(l));
    if is_blank(l) {
        lemma_content_len(p);
        assert(ls.take(content_len(ls) as int) =~= p.take(content_len(p) as int));
        assert(kept(ls) =~= kept(p));
        if p.len() == 0 {
            assert(join_lines(kept(ls)) =~= Seq::<char>::empty());
            assert(newlines(0) =~= Seq::<char>::empty());
        } else {
            lemma_join_trimmed(p);
            assert(newlines((pending(p) - 1) as nat) + seq!['\n'] =~= newlines(
                (pending(ls) - 1) as nat,
            ));
            assert(trim_end(l) =~= Seq::<char>::empty());
        }
    } else {
        assert(ls.take(content_len(ls) as int) =~= ls);
        assert(newlines(0) =~= Seq::<char>::empty());
        assert(join_lines(kept(ls)) + newlines(0) =~= join_lines(kept(ls)));
    }
}

/// What the streaming engine writes for a line is exactly what that line
/// adds to the output.
pub proof fn lemma_emitted(ls: Seq<Seq<char>>, l: Seq<char>)
    ensures
        join_lines(kept(ls.push(l))) == join_lines(kept(ls)) + emitted(ls, l),
{
    let f = |x: Seq<char>| trim_end(x);
    lemma_push(ls, l);
    lemma_content_len(ls);
    if is_blank(l) {
        assert(ls.push(l).take(content_len(ls) as int) =~= ls.take(content_len(ls) as int));
        assert(kept(ls.push(l)) =~= kept(ls));
        assert(join_lines(kept(ls)) + emitted(ls, l) =~= join_lines(kept(ls)));
    } else {
        assert(ls.push(l).take(content_len(ls.push(l)) as int) =~= ls.push(l));
        assert(kept(ls.push(l)) =~= ls.map_values(f).push(trim_end(l)));
        lemma_join_push(ls.map_values(f), trim_end(l));
        if ls.len() == 0 {
            assert(kept(ls) =~= Seq::<Seq<char>>::empty());
            assert(join_lines(kept(ls)) + emitted(ls, l) =~= trim_end(l));
        } else {
            lemma_join_trimmed(ls);
            assert(newlines((pending(ls) - 1) as nat) + seq!['\n'] =~= newlines(pending(ls)));
            assert(join_lines(kept(ls)) + newlines((pending(ls) - 1) as nat) + seq!['\n'] + trim_end(l)
                =~= join_lines(kept(ls)) + (newlines(pending(ls)) + trim_end(l)));
        }
    }
}

} // verus!

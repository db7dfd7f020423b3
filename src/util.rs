//! Small helpers: terminal colours, decimal numbers, and a stable hash.
use ansi_term::Colour;
use std::collections::hash_map::DefaultHasher;
use std::hash::Hasher;
use vstd::prelude::*;
use vstd::std_specs::hash::DefaultHasherAdditionalSpecFns;
use vstd::utf8::encode_utf8;

verus! {

/// The colours this tool paints with.
#[derive(Clone, Copy, Debug, PartialEq, Eq, Structural)]
pub enum Hue {
    Red,
    Green,
    White,
}

/// The SGR code that selects the colour for the text.
pub open spec fn fg_code(h: Hue) -> Seq<char> {
    match h {
        Hue::Red => seq!['3', '1'],
        Hue::Green => seq!['3', '2'],
        Hue::White => seq!['3', '7'],
    }
}

/// The SGR code that selects the colour for the background.
pub open spec fn bg_code(h: Hue) -> Seq<char> {
    match h {
        Hue::Red => seq!['4', '1'],
        Hue::Green => seq!['4', '2'],
        Hue::White => seq!['4', '7'],
    }
}

/// The escape sequence that switches on the given codes.
pub open spec fn sgr(codes: Seq<char>) -> Seq<char> {
    seq!['\u{1b}', '['] + codes + seq!['m']
}

/// The escape sequence that switches every style off.
pub open spec fn reset() -> Seq<char> {
    seq!['\u{1b}', '[', '0', 'm']
}

/// The text in the given colour.
pub open spec fn painted(h: Hue, text: Seq<char>) -> Seq<char> {
    sgr(fg_code(h)) + text + reset()
}

/// The text in colour `fg` on a background of colour `bg`.
pub open spec fn painted_on(fg: Hue, bg: Hue, text: Seq<char>) -> Seq<char> {
    sgr(bg_code(bg) + seq![';'] + fg_code(fg)) + text + reset()
}

/// The decimal digit for `d` (below ten).
pub open spec fn digit(d: nat) -> char {
    seq!['0', '1', '2', '3', '4', '5', '6', '7', '8', '9'][d as int]
}

/// The decimal form of `n`, without sign or leading zeros.
pub open spec fn decimal_text(n: nat) -> Seq<char>
    decreases n,
{
    if n < 10 {
        seq![digit(n)]
    } else {
        decimal_text(n / 10).push(digit(n % 10))
    }
}

/// `n` copies of the character `c`.
pub open spec fn repeated(c: char, n: nat) -> Seq<char> {
    Seq::new(n, |i: int| c)
}

/// Relies on ansi_term's `Colour::paint` and the `Display` of what it
/// returns: a style with only a foreground colour writes `ESC [ 3x m`,
/// the text, then `ESC [ 0 m`.
#[verifier::external_body]
fn paint_fg(hue: Hue, text: &str) -> (r: String)
    ensures
        r@ == painted(hue, text@),
{
    let colour = match hue {
        Hue::Red => Colour::Red,
        Hue::Green => Colour::Green,
        Hue::White => Colour::White,
    };
    colour.paint(text).to_string()
}

/// Relies on ansi_term's `Colour::on`, `Style::paint` and the `Display` of
/// what it returns: a style with a foreground and a background colour
/// writes `ESC [ 4y ; 3x m`, the text, then `ESC [ 0 m`.
#[verifier::external_body]
fn paint_on(fg: Hue, bg: Hue, text: &str) -> (r: String)
    ensures
        r@ == painted_on(fg, bg, text@),
{
    let fore = match fg {
        Hue::Red => Colour::Red,
        Hue::Green => Colour::Green,
        Hue::White => Colour::White,
    };
    let back = match bg {
        Hue::Red => Colour::Red,
        Hue::Green => Colour::Green,
        Hue::White => Colour::White,
    };
    fore.on(back).paint(text).to_string()
}

/// Relies on `u64::to_string`, which writes the number in decimal.
#[verifier::external_body]
fn decimal(n: u64) -> (r: String)
    ensures
        r@ == decimal_text(n as nat),
{
    n.to_string()
}

/// `n` copies of the one-character text `c`.
pub fn repeat_str(c: &str, n: usize) -> (r: String)
    requires
        c@.len() == 1,
    ensures
        r@ == repeated(c@[0], n as nat),
{
    let mut r = String::new();
    let mut i: usize = 0;
    while i < n
        invariant
            i <= n,
            c@.len() == 1,
            r@ == repeated(c@[0], i as nat),
        decreases n - i,
    {
        r.append(c);
        i = i + 1;
        assert(r@ =~= repeated(c@[0], i as nat));
    }
    r
}

/// The decimal form of `n`.
pub fn decimal_string(n: u64) -> (r: String)
    ensures
        r@ == decimal_text(n as nat),
{
    decimal(n)
}

/// The text padded on the left with spaces to at least `width` characters.
pub open spec fn right_aligned(s: Seq<char>, width: nat) -> Seq<char> {
    if s.len() >= width {
        s
    } else {
        repeated(' ', (width - s.len()) as nat) + s
    }
}

/// Pads `s` on the left with spaces to at least `width` characters.
pub fn right_align(s: &str, width: usize) -> (r: String)
    ensures
        r@ == right_aligned(s@, width as nat),
{
    let n = s.unicode_len();
    if n >= width {
        s.to_owned()
    } else {
        let space = " ";
        proof {
            reveal_strlit(" ");
        }
        let mut r = repeat_str(space, width - n);
        r.append(s);
        r
    }
}

/// Hash of the text's UTF-8 bytes, as `DefaultHasher` computes it.
pub fn hash_default(text: &str) -> (r: u64)
    ensures
        r == DefaultHasher::spec_finish(seq![encode_utf8(text@)]),
{
    let mut hasher = DefaultHasher::new();
    hasher.write(text.as_bytes());
    proof {
        assert(hasher@ =~= seq![encode_utf8(text@)]);
    }
    hasher.finish()
}

/// The text in red.
pub fn red(text: &str) -> (r: String)
    ensures
        r@ == painted(Hue::Red, text@),
{
    paint_fg(Hue::Red, text)
}

/// The text in green.
pub fn green(text: &str) -> (r: String)
    ensures
        r@ == painted(Hue::Green, text@),
{
    paint_fg(Hue::Green, text)
}

/// `length` underscores, white on red: the mark for removed whitespace.
pub fn red_padding_with_len(length: usize) -> (r: String)
    ensures
        r@ == painted_on(Hue::White, Hue::Red, repeated('_', length as nat)),
{
    let underscore = "_";
    proof {
        reveal_strlit("_");
    }
    let pad = repeat_str(underscore, length);
    paint_on(Hue::White, Hue::Red, pad.as_str())
}

/// The summary line for one input: the bytes saved, right-aligned in six
/// columns, and the input's name, in green when bytes were saved.
pub open spec fn summary_text(bytes_saved: nat, name: Seq<char>) -> Seq<char> {
    right_aligned(decimal_text(bytes_saved), 6) + " bytes ish from "@ + if bytes_saved == 0 {
        name
    } else {
        painted(Hue::Green, name)
    }
}

/// The summary line for one input.
pub fn summary_line(bytes_saved: u64, name: &str) -> (r: String)
    ensures
        r@ == summary_text(bytes_saved as nat, name@),
{
    let number = decimal_string(bytes_saved);
    let mut r = right_align(number.as_str(), 6);
    r.append(" bytes ish from ");
    if bytes_saved == 0 {
        r.append(name);
    } else {
        let painted_name = green(name);
        r.append(painted_name.as_str());
    }
    r
}

} // verus!

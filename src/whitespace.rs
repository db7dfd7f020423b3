//! Trailing whitespace, found with the regular expression `\s*$`.
use crate::model::trim_end;
use regex::Regex;
use vstd::prelude::*;

verus! {

#[verifier::external_type_specification]
#[verifier::external_body]
pub struct ExRegex(Regex);

#[verifier::external_type_specification]
#[verifier::external_body]
pub struct ExRegexError(regex::Error);

/// The pattern `\s*$`: a run of whitespace that reaches the end of the text.
pub open spec fn trailing_ws_pattern() -> Seq<char> {
    seq!['\\', 's', '*', '$']
}

/// Relies on regex::Regex::new, which fails only on a pattern that does
/// not parse or that compiles beyond the size limits; `\s*$` does neither.
#[verifier::external_body]
fn compile(pattern: &str) -> (r: Result<Regex, regex::Error>)
    ensures
        pattern@ == trailing_ws_pattern() ==> r is Ok,
{
    Regex::new(pattern)
}

/// The compiled form of `\s*$`. Its one field is only ever set from that
/// pattern, by `new`.
pub struct TrailingWhitespace {
    re: Regex,
}

impl TrailingWhitespace {
    pub fn new() -> (r: TrailingWhitespace) {
        let pattern = "\\s*$";
        proof {
            reveal_strlit("\\s*$");
        }
        assert(pattern@ =~= trailing_ws_pattern());
        match compile(pattern) {
            Ok(re) => TrailingWhitespace { re },
            Err(_) => unreached(),
        }
    }

    /// The line without its trailing whitespace.
    pub fn trim(&self, line: &str) -> (r: String)
        ensures
            r@ == trim_end(line@),
    {
        strip_match(self, line)
    }
}

/// Relies on regex::Regex::replace, which replaces the leftmost match.
/// With `\s*$` (in Unicode mode `\s` is the `White_Space` property) the
/// leftmost position from which whitespace runs to the end starts the
/// longest whitespace suffix, and replacing it with nothing leaves the
/// line without it.
#[verifier::external_body]
fn strip_match(ws: &TrailingWhitespace, line: &str) -> (r: String)
    ensures
        r@ == trim_end(line@),
{
    ws.re.replace(line, "").into_owned()
}

} // verus!

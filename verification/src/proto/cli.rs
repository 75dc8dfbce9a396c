//! Which answers typed on the terminal the prototype's client accepts.

use vstd::prelude::*;
use vstd::string::StringSliceAdditionalSpecFns;
use crate::asyncbroker::config::{is_i16_text, parse_i16};

verus! {

/// Whether `regex::Regex::new` compiles the pattern `pattern` (with the
/// default size limit).
pub uninterp spec fn regex_compiles(pattern: Seq<char>) -> bool;

/// Whether the regular expression `pattern`, once compiled, matches
/// somewhere in `text`, as `regex::Regex::is_match` answers.
pub uninterp spec fn regex_matches(pattern: Seq<char>, text: Seq<char>) -> bool;

/// Compiles `pattern` with `regex::Regex::new` and asks `is_match` on
/// `text`: an error when the pattern does not compile, otherwise whether
/// it matches somewhere in the text. The compilation fails on an invalid
/// pattern or one above the default size limit; neither call panics.
#[verifier::external_body]
fn regex_is_match(pattern: &str, text: &str) -> (r: Result<bool, ()>)
    ensures
        r is Ok <==> regex_compiles(pattern@),
        r matches Ok(b) ==> b == regex_matches(pattern@, text@),
{
    match regex::Regex::new(pattern) {
        Ok(re) => Ok(re.is_match(text)),
        Err(_) => Err(()),
    }
}

/// `value` is one of `m`.
pub open spec fn among(m: Seq<String>, value: Seq<char>) -> bool {
    exists|i: int| 0 <= i < m.len() && #[trigger] m[i]@ == value
}

/// `value` is one of the strings of `string_match`, if there are any.
pub open spec fn chosen(string_match: Option<&Vec<String>>, value: Seq<char>) -> bool {
    match string_match {
        Some(m) => among(m@, value),
        None => false,
    }
}

/// The regular expression `pattern`, if there is one, does not compile.
pub open spec fn pattern_fails(pattern: Option<&str>) -> bool {
    match pattern {
        Some(p) => !regex_compiles(p@),
        None => false,
    }
}

/// The regular expression `pattern`, if there is one, matches in `value`.
pub open spec fn pattern_matches(pattern: Option<&str>, value: Seq<char>) -> bool {
    match pattern {
        Some(p) => regex_matches(p@, value),
        None => false,
    }
}

/// Whether the answer `value` is accepted: a number that fits an `i16`
/// when `must_be_i16`, one of the strings of `string_match`, or a match
/// of the regular expression `pattern`, the tests being made in that
/// order. An error when the pattern had to be used and does not compile.
pub fn cli_input_accepted(
    value: &str,
    must_be_i16: bool,
    string_match: Option<&Vec<String>>,
    pattern: Option<&str>,
) -> (r: Result<bool, ()>)
    ensures
        ({
            let by_number = must_be_i16 && is_i16_text(value.spec_bytes());
            let by_choice = chosen(string_match, value@);
            &&& r is Err <==> !by_number && !by_choice && pattern_fails(pattern)
            &&& r matches Ok(b) ==> b == (by_number || by_choice || pattern_matches(pattern, value@))
        }),
{
    if must_be_i16 && parse_i16(value).is_some() {
        return Ok(true);
    }
    if let Some(m) = string_match {
        let text = value.to_string();
        let mut i: usize = 0;
        while i < m.len()
            invariant
                i <= m@.len(),
                string_match == Some(m),
                text@ == value@,
                forall|j: int| 0 <= j < i ==> m@[j]@ != value@,
            decreases m.len() - i,
        {
            if m[i] == text {
                assert(m@[i as int]@ == value@);
                assert(among(m@, value@));
                assert(chosen(string_match, value@));
                return Ok(true);
            }
            i = i + 1;
        }
    }
    match pattern {
        Some(p) => regex_is_match(p, value),
        None => Ok(false),
    }
}

} // verus!

//! Section headers: recognising one in a line, and writing one for a name.

use crate::error::{ConfError, ConfErrorView};
use crate::profile::opt_str;
use crate::text::{str_eq, trim, trimmed};
use vstd::prelude::*;
use vstd::string::*;

verus! {

/// The header pattern of a credentials file: a name in square brackets.
pub const PROFILE_CREDENTIALS: &'static str = r"^\[(.+)\]$";

/// The header pattern of a config file: the word `profile`, whitespace and a
/// name, in square brackets.
pub const PROFILE_CONFIG: &'static str = r"^\[profile\s+(.+)\]$";

#[verifier::external_type_specification]
#[verifier::external_body]
pub struct ExRegexError(regex::Error);

/// Whether `regex::Regex::new` accepts `pattern` as a regular expression.
pub uninterp spec fn pattern_compiles(pattern: Seq<char>) -> bool;

/// What `regex::Regex::captures` finds for the first capture group of
/// `pattern` in `line`: the text that the group matched in the leftmost
/// match, or `None` where the pattern does not match or the group took no
/// part in the match.
pub uninterp spec fn first_group(pattern: Seq<char>, line: Seq<char>) -> Option<Seq<char>>;

/// Compiles `pattern` with `regex::Regex::new` and searches `line` with
/// `Regex::captures`. The contract claims that the call fails exactly on the
/// patterns that do not compile, and that the text handed back is what the
/// first capture group matched; both are named, not spelled out.
#[verifier::external_body]
fn regex_first_group<'a>(pattern: &str, line: &'a str) -> (r: Result<Option<&'a str>, regex::Error>)
    ensures
        r is Ok <==> pattern_compiles(pattern@),
        r matches Ok(found) ==> opt_str(found) == first_group(pattern@, line@),
{
    let re = regex::Regex::new(pattern)?;
    Ok(re.captures(line).and_then(|caps| caps.get(1)).map(|m| m.as_str()))
}

/// The section name that a line announces under a header pattern. The
/// trimmed line `[default]` announces `default` under every pattern; any
/// other line announces what the first group of the pattern captures in the
/// trimmed line.
pub open spec fn header_name(pattern: Seq<char>, line: Seq<char>) -> Option<Seq<char>> {
    if trimmed(line) == "[default]"@ {
        Some("default"@)
    } else {
        first_group(pattern, trimmed(line))
    }
}

/// The section name that `line` announces, if it is a header. Fails where
/// the pattern is needed and is not a regular expression.
pub fn capture<'a>(pattern: &str, line: &'a str) -> (r: Result<Option<&'a str>, ConfError>)
    ensures
        r is Err <==> trimmed(line@) != "[default]"@ && !pattern_compiles(pattern@),
        r matches Err(e) ==> e@ == ConfErrorView::InvalidPattern,
        r matches Ok(found) ==> opt_str(found) == header_name(pattern@, line@),
{
    let line = trim(line);
    if str_eq(line, "[default]") {
        return Ok(Some("default"));
    }
    match regex_first_group(pattern, line) {
        Ok(found) => Ok(found),
        Err(_) => Err(ConfError::InvalidPattern),
    }
}

/// Whether `pattern` can be used as a header pattern.
pub fn is_pattern(pattern: &str) -> (r: bool)
    ensures
        r == pattern_compiles(pattern@),
{
    regex_first_group(pattern, "").is_ok()
}

/// How a section header is written.
#[derive(Debug, Clone, Copy, PartialEq, Eq, Structural)]
pub enum HeaderStyle {
    /// The name in square brackets.
    Bare,
    /// `[default]` for the section `default`; for any other, the word
    /// `profile`, a blank and the name, in square brackets.
    Prefixed,
}

/// The header line of a section.
pub open spec fn header_of(style: HeaderStyle, name: Seq<char>) -> Seq<char> {
    match style {
        HeaderStyle::Bare => "["@ + name + "]"@,
        HeaderStyle::Prefixed => if name == "default"@ {
            "[default]"@
        } else {
            "[profile "@ + name + "]"@
        },
    }
}

impl HeaderStyle {
    /// The header line for the section `name`.
    pub fn render(&self, name: &str) -> (r: String)
        ensures
            r@ == header_of(*self, name@),
    {
        match self {
            HeaderStyle::Bare => "[".to_owned().concat(name).concat("]"),
            HeaderStyle::Prefixed => {
                if str_eq(name, "default") {
                    "[default]".to_owned()
                } else {
                    "[profile ".to_owned().concat(name).concat("]")
                }
            },
        }
    }
}

} // verus!

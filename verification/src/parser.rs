//! Reading a text into sections. A header line opens a section; the
//! non-empty lines below it, up to the next header, are its lines.

use crate::error::{ConfError, ConfErrorView};
use crate::header::{capture, header_name, is_pattern, pattern_compiles};
use crate::profile::{opt_str, Profile, ProfileView};
use crate::store::profile_views;
use crate::text::{lines_of, split_lines, views};
use vstd::prelude::*;
use vstd::string::*;

verus! {

/// Where a reader stands between two lines: the sections that are closed,
/// and the name and lines of the one that is open. The empty name says that
/// no section is open.
pub struct Scan {
    pub done: Seq<ProfileView>,
    pub name: Seq<char>,
    pub pending: Seq<Seq<char>>,
}

/// The state before the first line.
pub open spec fn scan_start() -> Scan {
    Scan { done: Seq::empty(), name: Seq::empty(), pending: Seq::empty() }
}

/// The closed sections, and the open one where there is one.
pub open spec fn flushed(st: Scan) -> Seq<ProfileView> {
    if st.name.len() > 0 {
        st.done.push(ProfileView { name: st.name, lines: st.pending })
    } else {
        st.done
    }
}

/// The state after one more line, given the section name that the line
/// announces if it is a header. A header closes the open section and opens
/// the one that it names, without lines. Any other line joins the lines
/// below the last header unless it is empty.
pub open spec fn scan_step(st: Scan, line: Seq<char>, header: Option<Seq<char>>) -> Scan {
    match header {
        Some(name) => Scan { done: flushed(st), name, pending: Seq::empty() },
        None => if line.len() > 0 {
            Scan { done: st.done, name: st.name, pending: st.pending.push(line) }
        } else {
            st
        },
    }
}

/// The state after one more line under a header pattern.
pub open spec fn scan_line(pattern: Seq<char>, st: Scan, line: Seq<char>) -> Scan {
    scan_step(st, line, header_name(pattern, line))
}

/// The state after a run of lines.
pub open spec fn scan_lines(pattern: Seq<char>, st: Scan, lines: Seq<Seq<char>>) -> Scan
    decreases lines.len(),
{
    if lines.len() == 0 {
        st
    } else {
        scan_line(pattern, scan_lines(pattern, st, lines.drop_last()), lines.last())
    }
}

/// The sections that a text holds under a header pattern. Lines before the
/// first header, and lines below a header that names the empty name, belong
/// to no section.
pub open spec fn parsed(pattern: Seq<char>, text: Seq<char>) -> Seq<ProfileView> {
    flushed(scan_lines(pattern, scan_start(), lines_of(text)))
}

/// Takes the lines of a text one by one and collects the sections.
#[derive(Debug)]
pub struct Reader {
    done: Vec<Profile>,
    name: String,
    pending: Vec<String>,
}

impl View for Reader {
    type V = Scan;

    closed spec fn view(&self) -> Scan {
        Scan { done: profile_views(self.done@), name: self.name@, pending: views(self.pending@) }
    }
}

impl Reader {
    /// A reader that has seen no line.
    pub fn new() -> (r: Self)
        ensures
            r@ == scan_start(),
    {
        let r = Reader { done: Vec::new(), name: String::new(), pending: Vec::new() };
        proof {
            assert(r@.done =~= Seq::empty());
            assert(r@.pending =~= Seq::empty());
        }
        r
    }

    /// The sections seen so far: the closed ones, and the open one where a
    /// named section is open.
    pub fn finish(self) -> (r: Vec<Profile>)
        ensures
            profile_views(r@) == flushed(self@),
    {
        let mut done = self.done;
        if !self.name.as_str().is_empty() {
            let ghost closed = profile_views(done@);
            let p = Profile::from_parts(self.name, self.pending);
            done.push(p);
            proof {
                assert(profile_views(done@) =~= closed.push(p@));
            }
        }
        done
    }

    /// The reader after one more line. `header` is the section name that
    /// the line announces, or `None` for a line that is no header.
    pub fn feed(self, line: &str, header: Option<&str>) -> (r: Self)
        ensures
            r@ == scan_step(self@, line@, opt_str(header)),
    {
        match header {
            Some(name) => {
                let r = Reader {
                    done: self.finish(),
                    name: name.to_owned(),
                    pending: Vec::new(),
                };
                proof {
                    assert(r@.pending =~= Seq::empty());
                }
                r
            },
            None => {
                if line.is_empty() {
                    self
                } else {
                    let ghost open = views(self.pending@);
                    let mut pending = self.pending;
                    pending.push(line.to_owned());
                    proof {
                        assert(views(pending@) =~= open.push(line@));
                    }
                    Reader { done: self.done, name: self.name, pending }
                }
            },
        }
    }
}

/// Reads `text` into its sections, in the order of the text. Fails exactly
/// where `pattern` is not a regular expression.
pub fn parse_sections(pattern: &str, text: &str) -> (r: Result<Vec<Profile>, ConfError>)
    ensures
        r is Err <==> !pattern_compiles(pattern@),
        r matches Err(e) ==> e@ == ConfErrorView::InvalidPattern,
        r matches Ok(v) ==> profile_views(v@) == parsed(pattern@, text@),
{
    if !is_pattern(pattern) {
        return Err(ConfError::InvalidPattern);
    }
    let lines = split_lines(text);
    let mut reader = Reader::new();
    let n: usize = lines.len();
    let mut i: usize = 0;
    while i < n
        invariant
            i <= n,
            n == lines@.len(),
            pattern_compiles(pattern@),
            views(lines@) == lines_of(text@),
            reader@ == scan_lines(pattern@, scan_start(), lines_of(text@).take(i as int)),
        decreases n - i,
    {
        let line: &str = lines[i].as_str();
        proof {
            let all = lines_of(text@);
            assert(all.take(i + 1).drop_last() =~= all.take(i as int));
            assert(all.take(i + 1).last() == line@);
        }
        match capture(pattern, line) {
            Ok(header) => {
                reader = reader.feed(line, header);
            },
            Err(e) => {
                return Err(e);
            },
        }
        i += 1;
    }
    proof {
        assert(lines_of(text@).take(n as int) =~= lines_of(text@));
    }
    Ok(reader.finish())
}

} // verus!

//! A section of a configuration file: a name and the lines below its header.

use crate::error::{ConfError, ConfErrorView};
use crate::text::{
    is_pair, join, join_strs, key_of, line_key, split_pair, str_eq, trim, value_of, views,
};
use vstd::prelude::*;
use vstd::string::*;

verus! {

/// The mathematical value of a section.
pub struct ProfileView {
    pub name: Seq<char>,
    pub lines: Seq<Seq<char>>,
}

/// Whether a line assigns a value to `key`.
pub open spec fn holds_key(line: Seq<char>, key: Seq<char>) -> bool {
    is_pair(line) && key_of(line) == key
}

/// The value that the lines give to `key`: that of the first line that
/// assigns one.
pub open spec fn lookup(lines: Seq<Seq<char>>, key: Seq<char>) -> Option<Seq<char>>
    decreases lines.len(),
{
    if lines.len() == 0 {
        None
    } else {
        match lookup(lines.drop_last(), key) {
            Some(v) => Some(v),
            None => if holds_key(lines.last(), key) {
                Some(value_of(lines.last()))
            } else {
                None
            },
        }
    }
}

/// The lines that do not assign a value to `key`, in their order.
pub open spec fn without_key(lines: Seq<Seq<char>>, key: Seq<char>) -> Seq<Seq<char>>
    decreases lines.len(),
{
    if lines.len() == 0 {
        lines
    } else if holds_key(lines.last(), key) {
        without_key(lines.drop_last(), key)
    } else {
        without_key(lines.drop_last(), key).push(lines.last())
    }
}

/// The line that assigns `value` to `key`.
pub open spec fn assignment(key: Seq<char>, value: Seq<char>) -> Seq<char> {
    key + " = "@ + value
}

/// The lines after `key` was given `value`: every earlier assignment to the
/// key is gone and the new one stands last.
pub open spec fn with_pair(lines: Seq<Seq<char>>, key: Seq<char>, value: Seq<char>) -> Seq<
    Seq<char>,
> {
    without_key(lines, key).push(assignment(key, value))
}

/// Whether two lists of lines give every key the same value.
pub open spec fn same_pairs(a: Seq<Seq<char>>, b: Seq<Seq<char>>) -> bool {
    forall|k: Seq<char>| lookup(a, k) == lookup(b, k)
}

/// Whether two sections have the same name and give every key the same
/// value. The order of the lines, and lines without a `=`, do not count.
pub open spec fn equivalent(a: ProfileView, b: ProfileView) -> bool {
    a.name == b.name && same_pairs(a.lines, b.lines)
}

/// The text of a section below a given header line.
pub open spec fn formatted(header: Seq<char>, lines: Seq<Seq<char>>) -> Seq<char> {
    header + "\n"@ + join(lines, "\n"@)
}

/// The key and value pairs of the lines, a key's first assignment only.
pub open spec fn pairs_of(lines: Seq<Seq<char>>) -> Seq<(Seq<char>, Seq<char>)>
    decreases lines.len(),
{
    if lines.len() == 0 {
        Seq::empty()
    } else {
        let line = lines.last();
        let before = lines.drop_last();
        if is_pair(line) && lookup(before, key_of(line)) is None {
            pairs_of(before).push((key_of(line), value_of(line)))
        } else {
            pairs_of(before)
        }
    }
}

/// The views of a vector of pairs of strings.
pub open spec fn pair_views(v: Seq<(String, String)>) -> Seq<(Seq<char>, Seq<char>)> {
    Seq::new(v.len(), |i: int| (v[i].0@, v[i].1@))
}

/// The view of an optional string slice.
pub open spec fn opt_str(s: Option<&str>) -> Option<Seq<char>> {
    match s {
        Some(t) => Some(t@),
        None => None,
    }
}

/// What a prefix of the lines gives to a key, all the lines give to it.
pub proof fn lemma_lookup_prefix(lines: Seq<Seq<char>>, key: Seq<char>, i: int)
    requires
        0 <= i <= lines.len(),
        lookup(lines.take(i), key) is Some,
    ensures
        lookup(lines, key) == lookup(lines.take(i), key),
    decreases lines.len() - i,
{
    if i == lines.len() {
        assert(lines.take(i) =~= lines);
    } else {
        assert(lines.drop_last().take(i) =~= lines.take(i));
        lemma_lookup_prefix(lines.drop_last(), key, i);
    }
}

/// A key that has a value has a line that assigns it.
pub proof fn lemma_lookup_witness(lines: Seq<Seq<char>>, key: Seq<char>)
    ensures
        lookup(lines, key) is Some <==> exists|i: int|
            0 <= i < lines.len() && holds_key(#[trigger] lines[i], key),
    decreases lines.len(),
{
    if lines.len() > 0 {
        let before = lines.drop_last();
        lemma_lookup_witness(before, key);
        if lookup(before, key) is Some {
            let i = choose|i: int| 0 <= i < before.len() && holds_key(#[trigger] before[i], key);
            assert(holds_key(lines[i], key));
        } else if holds_key(lines.last(), key) {
            assert(holds_key(lines[lines.len() - 1], key));
        } else {
            assert forall|i: int| 0 <= i < lines.len() implies !holds_key(
                #[trigger] lines[i],
                key,
            ) by {
                if i < before.len() {
                    assert(before[i] == lines[i]);
                }
            }
        }
    }
}

/// Whether every key that `a` assigns has the same value in `a` and in `b`.
pub open spec fn covered(a: Seq<Seq<char>>, b: Seq<Seq<char>>) -> bool {
    forall|i: int|
        0 <= i < a.len() && is_pair(#[trigger] a[i]) ==> lookup(b, key_of(a[i])) == lookup(
            a,
            key_of(a[i]),
        )
}

/// Two lists of lines give every key the same value exactly when each
/// agrees with the other on the keys that it assigns.
pub proof fn lemma_same_pairs_by_lines(a: Seq<Seq<char>>, b: Seq<Seq<char>>)
    ensures
        same_pairs(a, b) <==> covered(a, b) && covered(b, a),
{
    if covered(a, b) && covered(b, a) {
        assert forall|k: Seq<char>| lookup(a, k) == lookup(b, k) by {
            lemma_lookup_witness(a, k);
            lemma_lookup_witness(b, k);
            if lookup(a, k) is Some {
                let i = choose|i: int| 0 <= i < a.len() && holds_key(#[trigger] a[i], k);
                assert(is_pair(a[i]));
            } else if lookup(b, k) is Some {
                let j = choose|j: int| 0 <= j < b.len() && holds_key(#[trigger] b[j], k);
                assert(is_pair(b[j]));
            }
        }
    }
}

/// A named block of lines. A line with a `=` assigns the trimmed text behind
/// its first `=` to the trimmed text before it; any other line is kept as it
/// is and assigns nothing.
#[derive(Debug)]
pub struct Profile {
    name: String,
    lines: Vec<String>,
}

impl View for Profile {
    type V = ProfileView;

    closed spec fn view(&self) -> ProfileView {
        ProfileView { name: self.name@, lines: views(self.lines@) }
    }
}

/// A copy of a vector of strings.
pub fn copy_strings(v: &Vec<String>) -> (r: Vec<String>)
    ensures
        views(r@) == views(v@),
{
    let mut out: Vec<String> = Vec::new();
    let n: usize = v.len();
    let mut i: usize = 0;
    while i < n
        invariant
            i <= n,
            n == v@.len(),
            views(out@) == views(v@).take(i as int),
        decreases n - i,
    {
        let ghost before = views(out@);
        let s = v[i].clone();
        out.push(s);
        proof {
            assert(views(out@) =~= before.push(v@[i as int]@));
            assert(views(v@).take(i + 1) =~= views(v@).take(i as int).push(v@[i as int]@));
        }
        i += 1;
    }
    proof {
        assert(views(v@).take(n as int) =~= views(v@));
    }
    out
}

impl Clone for Profile {
    fn clone(&self) -> (r: Self)
        ensures
            r@ == self@,
    {
        Profile { name: self.name.clone(), lines: copy_strings(&self.lines) }
    }
}

impl Profile {
    /// A section without lines. The empty name is refused.
    pub fn new(name: &str) -> (r: Result<Profile, ConfError>)
        ensures
            name@.len() == 0 ==> r is Err && r->Err_0@ == ConfErrorView::InvalidInput,
            name@.len() > 0 ==> r is Ok && r->Ok_0@ == (ProfileView {
                name: name@,
                lines: Seq::empty(),
            }),
    {
        if name.is_empty() {
            Err(ConfError::InvalidInput)
        } else {
            let p = Profile { name: name.to_owned(), lines: Vec::new() };
            proof {
                assert(p@.lines =~= Seq::empty());
            }
            Ok(p)
        }
    }

    /// The section with the given name and lines.
    pub(crate) fn from_parts(name: String, lines: Vec<String>) -> (r: Self)
        ensures
            r@.name == name@,
            r@.lines == views(lines@),
    {
        Profile { name, lines }
    }

    /// The section with `line` appended as it is.
    pub fn push(self, line: &str) -> (r: Self)
        ensures
            r@.name == self@.name,
            r@.lines == self@.lines.push(line@),
    {
        let mut lines = self.lines;
        lines.push(line.to_owned());
        let r = Profile { name: self.name, lines };
        proof {
            assert(r@.lines =~= self@.lines.push(line@));
        }
        r
    }

    /// The name of the section.
    pub fn name(&self) -> (r: &str)
        ensures
            r@ == self@.name,
    {
        self.name.as_str()
    }

    /// The lines of the section, in their order.
    pub fn lines(&self) -> (r: Vec<String>)
        ensures
            views(r@) == self@.lines,
    {
        copy_strings(&self.lines)
    }

    /// The section under another name, with the same lines.
    pub fn rename(self, name: &str) -> (r: Self)
        ensures
            r@.name == name@,
            r@.lines == self@.lines,
    {
        Profile { name: name.to_owned(), lines: self.lines }
    }

    /// The text of the section below the header line that `f` writes for its
    /// name.
    pub fn format<F: Fn(&str) -> String>(&self, f: F) -> (r: String)
        requires
            forall|s: &str| s@ == self@.name ==> call_requires(f, (s,)),
        ensures
            exists|s: &str, header: String|
                s@ == self@.name && call_ensures(f, (s,), header) && r@ == formatted(
                    header@,
                    self@.lines,
                ),
    {
        let name: &str = self.name.as_str();
        let header = f(name);
        let r = self.format_under(header.as_str());
        proof {
            assert(name@ == self@.name && call_ensures(f, (name,), header) && r@ == formatted(
                header@,
                self@.lines,
            ));
        }
        r
    }

    /// The text of the section below a given header line: the header, a line
    /// break, and the lines with a line break between neighbours.
    pub fn format_under(&self, header: &str) -> (r: String)
        ensures
            r@ == formatted(header@, self@.lines),
    {
        let body = join_strs(&self.lines, "\n");
        header.to_owned().concat("\n").concat(body.as_str())
    }

    /// The value of `key`: the trimmed text behind the `=` of the first line
    /// whose trimmed text before the `=` is `key`.
    pub fn get(&self, key: &str) -> (r: Option<&str>)
        ensures
            opt_str(r) == lookup(self@.lines, key@),
    {
        let n: usize = self.lines.len();
        let mut i: usize = 0;
        while i < n
            invariant
                i <= n,
                n == self.lines@.len(),
                lookup(self@.lines.take(i as int), key@) is None,
            decreases n - i,
        {
            let line: &str = self.lines[i].as_str();
            proof {
                assert(self@.lines.take(i + 1).drop_last() =~= self@.lines.take(i as int));
                assert(self@.lines.take(i + 1).last() == line@);
            }
            match split_pair(line) {
                Some((k, v)) => {
                    if str_eq(trim(k), key) {
                        proof {
                            lemma_lookup_prefix(self@.lines, key@, i + 1);
                        }
                        return Some(trim(v));
                    }
                },
                None => {},
            }
            i += 1;
        }
        proof {
            assert(self@.lines.take(n as int) =~= self@.lines);
        }
        None
    }

    /// The section with `value` assigned to `key`: the lines that assigned a
    /// value to `key` are gone, and the line `key = value` stands last.
    pub fn set(self, key: &str, value: &str) -> (r: Self)
        ensures
            r@.name == self@.name,
            r@.lines == with_pair(self@.lines, key@, value@),
    {
        let mut lines = self.remove_line(key);
        let line = key.to_owned().concat(" = ").concat(value);
        let ghost before = views(lines@);
        lines.push(line);
        let r = Profile { name: self.name, lines };
        proof {
            assert(r@.lines =~= before.push(line@));
        }
        r
    }

    /// The section without the lines that assign a value to `key`.
    pub fn remove(self, key: &str) -> (r: Self)
        ensures
            r@.name == self@.name,
            r@.lines == without_key(self@.lines, key@),
    {
        let lines = self.remove_line(key);
        Profile { name: self.name, lines }
    }

    /// The lines that do not assign a value to `key`.
    pub fn remove_line(&self, key: &str) -> (r: Vec<String>)
        ensures
            views(r@) == without_key(self@.lines, key@),
    {
        let mut out: Vec<String> = Vec::new();
        let n: usize = self.lines.len();
        let mut i: usize = 0;
        while i < n
            invariant
                i <= n,
                n == self.lines@.len(),
                views(out@) == without_key(self@.lines.take(i as int), key@),
            decreases n - i,
        {
            let line: &str = self.lines[i].as_str();
            let ghost before = views(out@);
            proof {
                assert(self@.lines.take(i + 1).drop_last() =~= self@.lines.take(i as int));
                assert(self@.lines.take(i + 1).last() == line@);
            }
            let keep: bool = match line_key(line) {
                Some(k) => !str_eq(k, key),
                None => true,
            };
            if keep {
                out.push(line.to_owned());
                proof {
                    assert(views(out@) =~= before.push(line@));
                }
            }
            i += 1;
        }
        proof {
            assert(self@.lines.take(n as int) =~= self@.lines);
        }
        out
    }

    /// The keys with their values, in the order of the lines; of the lines
    /// that assign to one key only the first counts.
    pub fn pairs(&self) -> (r: Vec<(String, String)>)
        ensures
            pair_views(r@) == pairs_of(self@.lines),
    {
        let mut out: Vec<(String, String)> = Vec::new();
        let n: usize = self.lines.len();
        let mut i: usize = 0;
        while i < n
            invariant
                i <= n,
                n == self.lines@.len(),
                pair_views(out@) == pairs_of(self@.lines.take(i as int)),
            decreases n - i,
        {
            let line: &str = self.lines[i].as_str();
            let ghost before = pair_views(out@);
            proof {
                assert(self@.lines.take(i + 1).drop_last() =~= self@.lines.take(i as int));
                assert(self@.lines.take(i + 1).last() == line@);
            }
            match split_pair(line) {
                Some((k, v)) => {
                    let key = trim(k);
                    if !self.assigned_before(key, i) {
                        let value = trim(v);
                        out.push((key.to_owned(), value.to_owned()));
                        proof {
                            assert(pair_views(out@) =~= before.push((key@, value@)));
                        }
                    }
                },
                None => {},
            }
            i += 1;
        }
        proof {
            assert(self@.lines.take(n as int) =~= self@.lines);
        }
        out
    }

    /// Whether one of the first `end` lines assigns a value to `key`.
    fn assigned_before(&self, key: &str, end: usize) -> (r: bool)
        requires
            end <= self@.lines.len(),
        ensures
            r == lookup(self@.lines.take(end as int), key@) is Some,
    {
        let ghost head = self@.lines.take(end as int);
        let mut i: usize = 0;
        while i < end
            invariant
                i <= end <= self.lines@.len(),
                head == self@.lines.take(end as int),
                lookup(head.take(i as int), key@) is None,
            decreases end - i,
        {
            let line: &str = self.lines[i].as_str();
            proof {
                assert(head.take(i + 1).drop_last() =~= head.take(i as int));
                assert(head.take(i + 1).last() == line@);
            }
            match line_key(line) {
                Some(k) => {
                    if str_eq(k, key) {
                        proof {
                            lemma_lookup_prefix(head, key@, i + 1);
                        }
                        return true;
                    }
                },
                None => {},
            }
            i += 1;
        }
        proof {
            assert(head.take(end as int) =~= head);
        }
        false
    }

    /// Whether every key that this section assigns has the same value here
    /// and in `other`.
    fn covered_by(&self, other: &Profile) -> (r: bool)
        ensures
            r == covered(self@.lines, other@.lines),
    {
        let n: usize = self.lines.len();
        let mut i: usize = 0;
        while i < n
            invariant
                i <= n,
                n == self.lines@.len(),
                forall|j: int|
                    0 <= j < i && is_pair(#[trigger] self@.lines[j]) ==> lookup(
                        other@.lines,
                        key_of(self@.lines[j]),
                    ) == lookup(self@.lines, key_of(self@.lines[j])),
            decreases n - i,
        {
            let line: &str = self.lines[i].as_str();
            match line_key(line) {
                Some(k) => {
                    let here = self.get(k);
                    let there = other.get(k);
                    let same: bool = match (here, there) {
                        (Some(x), Some(y)) => str_eq(x, y),
                        (None, None) => true,
                        _ => false,
                    };
                    if !same {
                        proof {
                            assert(is_pair(self@.lines[i as int]));
                        }
                        return false;
                    }
                },
                None => {},
            }
            i += 1;
        }
        true
    }

    /// Whether the two sections have the same name and give every key the
    /// same value.
    pub fn equals(&self, other: &Profile) -> (r: bool)
        ensures
            r == equivalent(self@, other@),
    {
        proof {
            lemma_same_pairs_by_lines(self@.lines, other@.lines);
        }
        str_eq(self.name.as_str(), other.name.as_str()) && self.covered_by(other)
            && other.covered_by(self)
    }
}

impl PartialEq for Profile {
    fn eq(&self, other: &Self) -> (r: bool) {
        self.equals(other)
    }
}

impl vstd::std_specs::cmp::PartialEqSpecImpl for Profile {
    open spec fn obeys_eq_spec() -> bool {
        true
    }

    open spec fn eq_spec(&self, other: &Self) -> bool {
        equivalent(self@, other@)
    }
}

} // verus!

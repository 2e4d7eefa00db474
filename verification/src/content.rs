//! The sections of a file with operations that address a key by section
//! name and key, and that report a missing section or key as an error.

use crate::error::{no_key, no_profile, ConfError, ConfErrorView, Setting};
use crate::header::{pattern_compiles, HeaderStyle};
use crate::parser::{parse_sections, parsed};
use crate::profile::{formatted, lookup, with_pair, without_key, Profile, ProfileView};
use crate::store::{
    find, find_index, format_sections, lemma_find_witness, lemma_upsert, lemma_without_unique,
    profile_views, remove_named, rendered, set_named, style_renderer, unique_names, upsert,
    without,
};
use crate::text::{join, join_strs, views};
use vstd::prelude::*;
use vstd::string::*;

verus! {

/// The sections of one file, in the order in which they are written.
#[derive(Debug)]
pub struct Content {
    fragments: Vec<Profile>,
}

impl View for Content {
    type V = Seq<ProfileView>;

    closed spec fn view(&self) -> Seq<ProfileView> {
        profile_views(self.fragments@)
    }
}

/// Whether `header` is a header line that `f` may write for `name`.
pub open spec fn writes<F: Fn(&str) -> String>(f: F, name: Seq<char>, header: Seq<char>) -> bool {
    exists|s: &str, h: String| s@ == name && h@ == header && call_ensures(f, (s,), h)
}

/// The texts of the sections under the given header lines.
pub open spec fn texts_under(headers: Seq<Seq<char>>, secs: Seq<ProfileView>) -> Seq<Seq<char>> {
    Seq::new(secs.len(), |i: int| formatted(headers[i], secs[i].lines))
}

impl Content {
    /// The first section called `profile`.
    pub fn get_fragment(&self, profile: &str) -> (r: Result<&Profile, ConfError>)
        ensures
            match find(self@, profile@) {
                Some(p) => r is Ok && r->Ok_0@ == p,
                None => r is Err && r->Err_0@ == no_profile(profile@),
            },
    {
        match find_index(&self.fragments, profile) {
            Some(i) => Ok(&self.fragments[i]),
            None => Err(ConfError::NotFound { profile: profile.to_owned(), key: None, file: None }),
        }
    }

    /// The content with `fragment` set: the sections of its name are gone,
    /// and it stands last.
    pub fn set_fragment(self, fragment: Profile) -> (r: Self)
        ensures
            r@ == upsert(self@, fragment@),
            unique_names(self@) ==> unique_names(r@),
    {
        proof {
            lemma_upsert(self@, fragment@);
        }
        Content { fragments: set_named(&self.fragments, fragment) }
    }

    /// The content without the sections called `profile`.
    pub fn remove_fragment(self, profile: &str) -> (r: Self)
        ensures
            r@ == without(self@, profile@),
            unique_names(self@) ==> unique_names(r@),
    {
        proof {
            if unique_names(self@) {
                lemma_without_unique(self@, profile@);
            }
        }
        Content { fragments: remove_named(&self.fragments, profile) }
    }

    /// The number of sections.
    pub fn len(&self) -> (r: usize)
        ensures
            r == self@.len(),
    {
        self.fragments.len()
    }

    /// The section at place `index`.
    pub fn fragment(&self, index: usize) -> (r: Option<&Profile>)
        ensures
            match r {
                Some(p) => index < self@.len() && p@ == self@[index as int],
                None => index >= self@.len(),
            },
    {
        if index < self.fragments.len() {
            Some(&self.fragments[index])
        } else {
            None
        }
    }

    /// The value of `key` in the first section called `profile`.
    pub fn get(&self, profile: &str, key: &str) -> (r: Result<&str, ConfError>)
        ensures
            match find(self@, profile@) {
                None => r is Err && r->Err_0@ == no_profile(profile@),
                Some(p) => match lookup(p.lines, key@) {
                    Some(v) => r is Ok && r->Ok_0@ == v,
                    None => r is Err && r->Err_0@ == no_key(profile@, key@),
                },
            },
    {
        match self.get_fragment(profile) {
            Err(e) => Err(e),
            Ok(fragment) => match fragment.get(key) {
                Some(v) => Ok(v),
                None => Err(
                    ConfError::NotFound {
                        profile: profile.to_owned(),
                        key: Some(key.to_owned()),
                        file: None,
                    },
                ),
            },
        }
    }

    /// The content with an empty section called `profile` as its last; a
    /// section of that name that was there is gone. The empty name is
    /// refused.
    pub fn add(self, profile: &str) -> (r: Result<Self, ConfError>)
        ensures
            profile@.len() == 0 ==> r is Err && r->Err_0@ == ConfErrorView::InvalidInput,
            profile@.len() > 0 ==> r is Ok && r->Ok_0@ == upsert(
                self@,
                ProfileView { name: profile@, lines: Seq::empty() },
            ),
            r matches Ok(c) ==> (unique_names(self@) ==> unique_names(c@)),
    {
        match Profile::new(profile) {
            Ok(fragment) => Ok(self.set_fragment(fragment)),
            Err(e) => Err(e),
        }
    }

    /// The content with `value` assigned to `key` in the section `profile`,
    /// which moves to the end. Fails where there is no such section.
    pub fn set(self, profile: &str, key: &str, value: &str) -> (r: Result<Self, ConfError>)
        ensures
            match find(self@, profile@) {
                None => r is Err && r->Err_0@ == no_profile(profile@),
                Some(p) => r is Ok && r->Ok_0@ == upsert(
                    self@,
                    ProfileView { name: profile@, lines: with_pair(p.lines, key@, value@) },
                ),
            },
            r matches Ok(c) ==> (unique_names(self@) ==> unique_names(c@)),
    {
        let fragment = match self.get_fragment(profile) {
            Ok(f) => f.clone().set(key, value),
            Err(e) => {
                return Err(e);
            },
        };
        proof {
            lemma_find_witness(self@, profile@);
        }
        Ok(self.set_fragment(fragment))
    }

    /// The content without the assignments to `key` in the section
    /// `profile`, which moves to the end. Fails where there is no such
    /// section.
    pub fn remove(self, profile: &str, key: &str) -> (r: Result<Self, ConfError>)
        ensures
            match find(self@, profile@) {
                None => r is Err && r->Err_0@ == no_profile(profile@),
                Some(p) => r is Ok && r->Ok_0@ == upsert(
                    self@,
                    ProfileView { name: profile@, lines: without_key(p.lines, key@) },
                ),
            },
            r matches Ok(c) ==> (unique_names(self@) ==> unique_names(c@)),
    {
        let fragment = match self.get_fragment(profile) {
            Ok(f) => f.clone().remove(key),
            Err(e) => {
                return Err(e);
            },
        };
        proof {
            lemma_find_witness(self@, profile@);
        }
        Ok(self.set_fragment(fragment))
    }

    /// The content with the lines of the section `src` set under the name
    /// `dst`. Fails where there is no section `src`.
    pub fn copy(self, src: &str, dst: &str) -> (r: Result<Self, ConfError>)
        ensures
            match find(self@, src@) {
                None => r is Err && r->Err_0@ == no_profile(src@),
                Some(p) => r is Ok && r->Ok_0@ == upsert(
                    self@,
                    ProfileView { name: dst@, lines: p.lines },
                ),
            },
            r matches Ok(c) ==> (unique_names(self@) ==> unique_names(c@)),
    {
        let fragment = match self.get_fragment(src) {
            Ok(f) => f.clone().rename(dst),
            Err(e) => {
                return Err(e);
            },
        };
        Ok(self.set_fragment(fragment))
    }

    /// The text that is written to disk, with the header lines that `fmt`
    /// writes.
    pub fn write<F: Fn(&str) -> String>(&self, fmt: &F) -> (r: String)
        requires
            forall|s: &str| call_requires(*fmt, (s,)),
        ensures
            exists|headers: Seq<Seq<char>>|
                {
                    &&& headers.len() == self@.len()
                    &&& forall|i: int|
                        0 <= i < self@.len() ==> writes(*fmt, self@[i].name, #[trigger] headers[i])
                    &&& r@ == join(texts_under(headers, self@), "\n\n"@)
                },
    {
        self.format(fmt)
    }

    /// The text that is written to disk, with headers in the given style.
    pub fn write_as(&self, style: HeaderStyle) -> (r: String)
        ensures
            r@ == rendered(style_renderer(style), self@),
    {
        format_sections(&self.fragments, style)
    }

    /// The text of the content: each section under the header line that
    /// `fmt` writes for it, with an empty line between neighbours.
    fn format<F: Fn(&str) -> String>(&self, fmt: &F) -> (r: String)
        requires
            forall|s: &str| call_requires(*fmt, (s,)),
        ensures
            exists|headers: Seq<Seq<char>>|
                {
                    &&& headers.len() == self@.len()
                    &&& forall|i: int|
                        0 <= i < self@.len() ==> writes(*fmt, self@[i].name, #[trigger] headers[i])
                    &&& r@ == join(texts_under(headers, self@), "\n\n"@)
                },
    {
        let ghost mut headers: Seq<Seq<char>> = Seq::empty();
        let mut texts: Vec<String> = Vec::new();
        let n: usize = self.fragments.len();
        let mut i: usize = 0;
        while i < n
            invariant
                i <= n,
                n == self.fragments@.len(),
                forall|s: &str| call_requires(*fmt, (s,)),
                headers.len() == i,
                forall|j: int| 0 <= j < i ==> writes(*fmt, self@[j].name, #[trigger] headers[j]),
                views(texts@) == texts_under(headers, self@.take(i as int)),
            decreases n - i,
        {
            let ghost before = views(texts@);
            let ghost old_headers = headers;
            let name: &str = self.fragments[i].name();
            let header = fmt(name);
            let text = self.fragments[i].format_under(header.as_str());
            texts.push(text);
            proof {
                headers = headers.push(header@);
                assert(name@ == self@[i as int].name && header@ == headers[i as int]
                    && call_ensures(*fmt, (name,), header));
                assert forall|j: int| 0 <= j < i + 1 implies writes(
                    *fmt,
                    self@[j].name,
                    #[trigger] headers[j],
                ) by {
                    if j < i {
                        assert(headers[j] == old_headers[j]);
                    }
                }
                assert(views(texts@) =~= before.push(text@));
                assert(texts_under(headers, self@.take(i + 1)) =~= texts_under(
                    old_headers,
                    self@.take(i as int),
                ).push(text@));
            }
            i += 1;
        }
        proof {
            assert(self@.take(n as int) =~= self@);
        }
        join_strs(&texts, "\n\n")
    }
}

/// What a builder has been given so far.
pub struct ContentBuilderView {
    pub reg_profile: Option<Seq<char>>,
    pub path: Option<Seq<char>>,
}

/// Collects what is needed to read a file: the header pattern and the path.
#[derive(Debug)]
pub struct ContentBuilder {
    reg_profile: Option<String>,
    path: Option<String>,
}

/// The setting that is still missing, in the order pattern, path.
pub open spec fn missing_part(v: ContentBuilderView) -> Option<Setting> {
    if v.reg_profile is None {
        Some(Setting::Pattern)
    } else if v.path is None {
        Some(Setting::Path)
    } else {
        None
    }
}

impl View for ContentBuilder {
    type V = ContentBuilderView;

    closed spec fn view(&self) -> ContentBuilderView {
        ContentBuilderView {
            reg_profile: crate::error::opt_view(self.reg_profile),
            path: crate::error::opt_view(self.path),
        }
    }
}

impl ContentBuilder {
    /// A builder that has been given nothing.
    pub fn new() -> (r: Self)
        ensures
            r@ == (ContentBuilderView { reg_profile: None, path: None }),
    {
        ContentBuilder { reg_profile: None, path: None }
    }

    /// The builder with the header pattern set.
    pub fn set_reg_profile(self, reg_profile: &str) -> (r: Self)
        ensures
            r@ == (ContentBuilderView { reg_profile: Some(reg_profile@), ..self@ }),
    {
        ContentBuilder { reg_profile: Some(reg_profile.to_owned()), path: self.path }
    }

    /// The builder with the path set.
    pub fn set_path(self, path: &str) -> (r: Self)
        ensures
            r@ == (ContentBuilderView { path: Some(path@), ..self@ }),
    {
        ContentBuilder { reg_profile: self.reg_profile, path: Some(path.to_owned()) }
    }

    /// The path of the file that is to be read, once every setting is there.
    pub fn source(&self) -> (r: Result<&str, ConfError>)
        ensures
            match missing_part(self@) {
                Some(s) => r is Err && r->Err_0@ == ConfErrorView::ParseMisconfigured(s),
                None => r is Ok && Some(r->Ok_0@) == self@.path,
            },
    {
        if self.reg_profile.is_none() {
            return Err(ConfError::ParseMisconfigured(Setting::Pattern));
        }
        match &self.path {
            Some(p) => Ok(p.as_str()),
            None => Err(ConfError::ParseMisconfigured(Setting::Path)),
        }
    }

    /// Reads the text of the file into a `Content`. Fails where a setting is
    /// missing, and where the pattern is not a regular expression.
    pub fn load(self, text: &str) -> (r: Result<Content, ConfError>)
        ensures
            match missing_part(self@) {
                Some(s) => r is Err && r->Err_0@ == ConfErrorView::ParseMisconfigured(s),
                None => if pattern_compiles(self@.reg_profile->Some_0) {
                    r is Ok && r->Ok_0@ == parsed(self@.reg_profile->Some_0, text@)
                } else {
                    r is Err && r->Err_0@ == ConfErrorView::InvalidPattern
                },
            },
    {
        let pattern = match self.reg_profile {
            Some(p) => p,
            None => {
                return Err(ConfError::ParseMisconfigured(Setting::Pattern));
            },
        };
        if self.path.is_none() {
            return Err(ConfError::ParseMisconfigured(Setting::Path));
        }
        match parse_sections(pattern.as_str(), text) {
            Ok(fragments) => Ok(Content { fragments }),
            Err(e) => Err(e),
        }
    }
}

} // verus!

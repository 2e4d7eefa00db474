//! A configuration file in memory: its sections and the style of its
//! headers, with the loader that reads one from text.

use crate::error::{ConfError, ConfErrorView, Setting};
use crate::header::{pattern_compiles, HeaderStyle};
use crate::parser::{parse_sections, parsed};
use crate::profile::{equivalent, Profile, ProfileView};
use crate::store::{
    find, find_index, format_sections, lemma_find_witness, lemma_upsert, profile_views, rendered,
    same_store, set_named, style_renderer, unique_names, upsert,
};
use vstd::prelude::*;
use vstd::string::*;

verus! {

/// The mathematical value of a `ConfFile`.
pub struct ConfFileView {
    pub style: HeaderStyle,
    pub profiles: Seq<ProfileView>,
}

/// The sections of one file, in the order in which they are written, and
/// the style in which their headers are written.
#[derive(Debug)]
pub struct ConfFile {
    style: HeaderStyle,
    profiles: Vec<Profile>,
}

impl View for ConfFile {
    type V = ConfFileView;

    closed spec fn view(&self) -> ConfFileView {
        ConfFileView { style: self.style, profiles: profile_views(self.profiles@) }
    }
}

/// Whether every section of `a` has an equivalent section of its name in
/// `b`; of sections that share a name the first counts.
pub open spec fn store_covered(a: Seq<ProfileView>, b: Seq<ProfileView>) -> bool {
    forall|i: int|
        0 <= i < a.len() ==> match (find(a, (#[trigger] a[i]).name), find(b, a[i].name)) {
            (Some(p), Some(q)) => equivalent(p, q),
            _ => false,
        }
}

/// Whether every name of `a` is a name of `b`.
pub open spec fn names_within(a: Seq<ProfileView>, b: Seq<ProfileView>) -> bool {
    forall|i: int| 0 <= i < a.len() ==> find(b, (#[trigger] a[i]).name) is Some
}

/// Two stores are the same exactly when each section of the first has its
/// like in the second and the second holds no further name.
pub proof fn lemma_same_store_by_sections(a: Seq<ProfileView>, b: Seq<ProfileView>)
    ensures
        same_store(a, b) <==> store_covered(a, b) && names_within(b, a),
{
    if same_store(a, b) {
        assert forall|i: int| 0 <= i < a.len() implies match (
            find(a, (#[trigger] a[i]).name),
            find(b, a[i].name),
        ) {
            (Some(p), Some(q)) => equivalent(p, q),
            _ => false,
        } by {
            lemma_find_witness(a, a[i].name);
            assert(find(a, a[i].name) is Some);
        }
        assert forall|j: int| 0 <= j < b.len() implies find(a, (#[trigger] b[j]).name) is Some by {
            lemma_find_witness(b, b[j].name);
            assert(find(b, b[j].name) is Some);
            assert(find(a, b[j].name) !is None);
        }
    }
    if store_covered(a, b) && names_within(b, a) {
        assert forall|name: Seq<char>|
            match (#[trigger] find(a, name), find(b, name)) {
                (Some(p), Some(q)) => equivalent(p, q),
                (None, None) => true,
                _ => false,
            } by {
            lemma_find_witness(a, name);
            lemma_find_witness(b, name);
            if find(a, name) is Some {
                let i = choose|i: int| 0 <= i < a.len() && (#[trigger] a[i]).name == name;
                assert(a[i].name == name);
            } else if find(b, name) is Some {
                let j = choose|j: int| 0 <= j < b.len() && (#[trigger] b[j]).name == name;
                assert(find(a, b[j].name) is Some);
            }
        }
    }
}

impl ConfFile {
    /// The first section called `name`.
    pub fn profile(&self, name: &str) -> (r: Option<&Profile>)
        ensures
            match r {
                Some(p) => find(self@.profiles, name@) == Some(p@),
                None => find(self@.profiles, name@) is None,
            },
    {
        match find_index(&self.profiles, name) {
            Some(i) => Some(&self.profiles[i]),
            None => None,
        }
    }

    /// The file with `profile` set: the sections of its name are gone, and
    /// it stands last.
    pub fn set(self, profile: Profile) -> (r: Self)
        ensures
            r@.style == self@.style,
            r@.profiles == upsert(self@.profiles, profile@),
            unique_names(self@.profiles) ==> unique_names(r@.profiles),
    {
        proof {
            lemma_upsert(self@.profiles, profile@);
        }
        let profiles = set_named(&self.profiles, profile);
        ConfFile { style: self.style, profiles }
    }

    /// The number of sections.
    pub fn len(&self) -> (r: usize)
        ensures
            r == self@.profiles.len(),
    {
        self.profiles.len()
    }

    /// The style in which the headers are written.
    pub fn style(&self) -> (r: HeaderStyle)
        ensures
            r == self@.style,
    {
        self.style
    }

    /// The text that is written to disk for this file.
    pub fn write(&self) -> (r: String)
        ensures
            r@ == rendered(style_renderer(self@.style), self@.profiles),
    {
        self.format()
    }

    /// The text of the file: each section under its header, with an empty
    /// line between neighbours.
    pub fn format(&self) -> (r: String)
        ensures
            r@ == rendered(style_renderer(self@.style), self@.profiles),
    {
        format_sections(&self.profiles, self.style)
    }

    /// Whether every section here has its like in `other`.
    fn covered_by(&self, other: &ConfFile) -> (r: bool)
        ensures
            r == store_covered(self@.profiles, other@.profiles),
    {
        let n: usize = self.profiles.len();
        let mut i: usize = 0;
        while i < n
            invariant
                i <= n,
                n == self.profiles@.len(),
                forall|j: int|
                    0 <= j < i ==> match (
                        find(self@.profiles, (#[trigger] self@.profiles[j]).name),
                        find(other@.profiles, self@.profiles[j].name),
                    ) {
                        (Some(p), Some(q)) => equivalent(p, q),
                        _ => false,
                    },
            decreases n - i,
        {
            let name: &str = self.profiles[i].name();
            let same: bool = match (self.profile(name), other.profile(name)) {
                (Some(p), Some(q)) => p.equals(q),
                _ => false,
            };
            if !same {
                proof {
                    assert(self@.profiles[i as int].name == name@);
                }
                return false;
            }
            i += 1;
        }
        true
    }

    /// Whether every name here is a name in `other`.
    fn names_in(&self, other: &ConfFile) -> (r: bool)
        ensures
            r == names_within(self@.profiles, other@.profiles),
    {
        let n: usize = self.profiles.len();
        let mut i: usize = 0;
        while i < n
            invariant
                i <= n,
                n == self.profiles@.len(),
                forall|j: int|
                    0 <= j < i ==> find(other@.profiles, (#[trigger] self@.profiles[j]).name)
                        is Some,
            decreases n - i,
        {
            if other.profile(self.profiles[i].name()).is_none() {
                proof {
                    assert(find(other@.profiles, self@.profiles[i as int].name) is None);
                }
                return false;
            }
            i += 1;
        }
        true
    }

    /// Whether the two files hold the same section names and, under each
    /// name, equivalent sections. The header style does not count.
    pub fn equals(&self, other: &ConfFile) -> (r: bool)
        ensures
            r == same_store(self@.profiles, other@.profiles),
    {
        proof {
            lemma_same_store_by_sections(self@.profiles, other@.profiles);
        }
        self.covered_by(other) && other.names_in(self)
    }
}

impl PartialEq for ConfFile {
    fn eq(&self, other: &Self) -> (r: bool) {
        self.equals(other)
    }
}

impl vstd::std_specs::cmp::PartialEqSpecImpl for ConfFile {
    open spec fn obeys_eq_spec() -> bool {
        true
    }

    open spec fn eq_spec(&self, other: &Self) -> bool {
        same_store(self@.profiles, other@.profiles)
    }
}

/// What a loader has been given so far.
pub struct ConfLoaderView {
    pub reg_profile: Option<Seq<char>>,
    pub path: Option<Seq<char>>,
    pub formatter: Option<HeaderStyle>,
}

/// Collects what is needed to read a file: the header pattern, the path and
/// the header style.
#[derive(Debug)]
pub struct ConfLoader {
    reg_profile: Option<String>,
    path: Option<String>,
    formatter: Option<HeaderStyle>,
}

/// The setting that is still missing, in the order pattern, path, style.
pub open spec fn missing_setting(v: ConfLoaderView) -> Option<Setting> {
    if v.reg_profile is None {
        Some(Setting::Pattern)
    } else if v.path is None {
        Some(Setting::Path)
    } else if v.formatter is None {
        Some(Setting::Formatter)
    } else {
        None
    }
}

impl View for ConfLoader {
    type V = ConfLoaderView;

    closed spec fn view(&self) -> ConfLoaderView {
        ConfLoaderView {
            reg_profile: crate::error::opt_view(self.reg_profile),
            path: crate::error::opt_view(self.path),
            formatter: self.formatter,
        }
    }
}

impl ConfLoader {
    /// A loader that has been given nothing.
    pub fn new() -> (r: Self)
        ensures
            r@ == (ConfLoaderView { reg_profile: None, path: None, formatter: None }),
    {
        ConfLoader { reg_profile: None, path: None, formatter: None }
    }

    /// The loader with the header pattern set.
    pub fn set_reg_profile(self, reg_profile: &str) -> (r: Self)
        ensures
            r@ == (ConfLoaderView { reg_profile: Some(reg_profile@), ..self@ }),
    {
        ConfLoader {
            reg_profile: Some(reg_profile.to_owned()),
            path: self.path,
            formatter: self.formatter,
        }
    }

    /// The loader with the path set.
    pub fn set_path(self, path: &str) -> (r: Self)
        ensures
            r@ == (ConfLoaderView { path: Some(path@), ..self@ }),
    {
        ConfLoader {
            reg_profile: self.reg_profile,
            path: Some(path.to_owned()),
            formatter: self.formatter,
        }
    }

    /// The loader with the header style set.
    pub fn set_formatter(self, formatter: HeaderStyle) -> (r: Self)
        ensures
            r@ == (ConfLoaderView { formatter: Some(formatter), ..self@ }),
    {
        ConfLoader { reg_profile: self.reg_profile, path: self.path, formatter: Some(formatter) }
    }

    /// The path of the file that is to be read, once every setting is there.
    pub fn source(&self) -> (r: Result<&str, ConfError>)
        ensures
            match missing_setting(self@) {
                Some(s) => r is Err && r->Err_0@ == ConfErrorView::ParseMisconfigured(s),
                None => r is Ok && Some(r->Ok_0@) == self@.path,
            },
    {
        if self.reg_profile.is_none() {
            return Err(ConfError::ParseMisconfigured(Setting::Pattern));
        }
        let path: &str = match &self.path {
            Some(p) => p.as_str(),
            None => {
                return Err(ConfError::ParseMisconfigured(Setting::Path));
            },
        };
        if self.formatter.is_none() {
            return Err(ConfError::ParseMisconfigured(Setting::Formatter));
        }
        Ok(path)
    }

    /// Reads the text of the file into a `ConfFile`. Fails where a setting
    /// is missing, and where the pattern is not a regular expression.
    pub fn load(self, text: &str) -> (r: Result<ConfFile, ConfError>)
        ensures
            match missing_setting(self@) {
                Some(s) => r is Err && r->Err_0@ == ConfErrorView::ParseMisconfigured(s),
                None => if pattern_compiles(self@.reg_profile->Some_0) {
                    r is Ok && r->Ok_0@ == (ConfFileView {
                        style: self@.formatter->Some_0,
                        profiles: parsed(self@.reg_profile->Some_0, text@),
                    })
                } else {
                    r is Err && r->Err_0@ == ConfErrorView::InvalidPattern
                },
            },
    {
        let pattern = match self.reg_profile {
            Some(p) => p,
            None => {
                return Err(ConfError::ParseMisconfigured(Setting::Pattern));
            },
        };
        if self.path.is_none() {
            return Err(ConfError::ParseMisconfigured(Setting::Path));
        }
        let style = match self.formatter {
            Some(f) => f,
            None => {
                return Err(ConfError::ParseMisconfigured(Setting::Formatter));
            },
        };
        match parse_sections(pattern.as_str(), text) {
            Ok(profiles) => Ok(ConfFile { style, profiles }),
            Err(e) => Err(e),
        }
    }
}

} // verus!

//! The sections of one file as a sequence: lookup by name, removal,
//! replacement, and the text that is written to disk.

use crate::header::{header_of, HeaderStyle};
use crate::profile::{equivalent, formatted, Profile, ProfileView};
use crate::text::{join, join_strs, str_eq, views};
use vstd::prelude::*;
use vstd::string::*;

verus! {

/// The views of a vector of sections, in order.
pub open spec fn profile_views(v: Seq<Profile>) -> Seq<ProfileView> {
    Seq::new(v.len(), |i: int| v[i]@)
}

/// The first section called `name`.
pub open spec fn find(secs: Seq<ProfileView>, name: Seq<char>) -> Option<ProfileView>
    decreases secs.len(),
{
    if secs.len() == 0 {
        None
    } else {
        match find(secs.drop_last(), name) {
            Some(p) => Some(p),
            None => if secs.last().name == name {
                Some(secs.last())
            } else {
                None
            },
        }
    }
}

/// The sections that are not called `name`, in their order.
pub open spec fn without(secs: Seq<ProfileView>, name: Seq<char>) -> Seq<ProfileView>
    decreases secs.len(),
{
    if secs.len() == 0 {
        secs
    } else if secs.last().name == name {
        without(secs.drop_last(), name)
    } else {
        without(secs.drop_last(), name).push(secs.last())
    }
}

/// The sections after `p` was set: every section of its name is gone and `p`
/// stands last.
pub open spec fn upsert(secs: Seq<ProfileView>, p: ProfileView) -> Seq<ProfileView> {
    without(secs, p.name).push(p)
}

/// Whether no two sections share a name.
pub open spec fn unique_names(secs: Seq<ProfileView>) -> bool {
    forall|i: int, j: int| 0 <= i < j < secs.len() ==> secs[i].name != secs[j].name
}

/// Whether two stores hold the same section names and, under each name,
/// equivalent sections. The order of sections and of lines does not count.
pub open spec fn same_store(a: Seq<ProfileView>, b: Seq<ProfileView>) -> bool {
    forall|name: Seq<char>|
        match (#[trigger] find(a, name), find(b, name)) {
            (Some(p), Some(q)) => equivalent(p, q),
            (None, None) => true,
            _ => false,
        }
}

/// The text of each section under the header that `render` writes for its
/// name.
pub open spec fn section_texts(
    render: spec_fn(Seq<char>) -> Seq<char>,
    secs: Seq<ProfileView>,
) -> Seq<Seq<char>> {
    Seq::new(secs.len(), |i: int| formatted(render(secs[i].name), secs[i].lines))
}

/// The text of a store: the texts of its sections with an empty line between
/// neighbours, and nothing for a store without sections.
pub open spec fn rendered(render: spec_fn(Seq<char>) -> Seq<char>, secs: Seq<ProfileView>) -> Seq<
    char,
> {
    join(section_texts(render, secs), "\n\n"@)
}

/// The header rule of a style as a function on names.
pub open spec fn style_renderer(style: HeaderStyle) -> spec_fn(Seq<char>) -> Seq<char> {
    |name: Seq<char>| header_of(style, name)
}

/// The section that `find` gives carries the name, and stands in the store.
pub proof fn lemma_find_witness(secs: Seq<ProfileView>, name: Seq<char>)
    ensures
        find(secs, name) is Some <==> exists|i: int|
            0 <= i < secs.len() && (#[trigger] secs[i]).name == name,
        find(secs, name) matches Some(p) ==> p.name == name && secs.contains(p),
    decreases secs.len(),
{
    if secs.len() > 0 {
        let before = secs.drop_last();
        lemma_find_witness(before, name);
        if find(before, name) is Some {
            let i = choose|i: int| 0 <= i < before.len() && (#[trigger] before[i]).name == name;
            assert(secs[i].name == name);
            let p = find(before, name)->Some_0;
            let k = choose|k: int| 0 <= k < before.len() && before[k] == p;
            assert(secs[k] == p);
        } else if secs.last().name == name {
            assert(secs[secs.len() - 1].name == name);
            assert(secs[secs.len() - 1] == secs.last());
        } else {
            assert forall|i: int| 0 <= i < secs.len() implies (#[trigger] secs[i]).name
                != name by {
                if i < before.len() {
                    assert(before[i] == secs[i]);
                }
            }
        }
    }
}

/// What a prefix of the store holds under a name, the store holds under it.
pub proof fn lemma_find_prefix(secs: Seq<ProfileView>, name: Seq<char>, i: int)
    requires
        0 <= i <= secs.len(),
        find(secs.take(i), name) is Some,
    ensures
        find(secs, name) == find(secs.take(i), name),
    decreases secs.len() - i,
{
    if i == secs.len() {
        assert(secs.take(i) =~= secs);
    } else {
        assert(secs.drop_last().take(i) =~= secs.take(i));
        lemma_find_prefix(secs.drop_last(), name, i);
    }
}

/// Removing a name leaves no section of that name, keeps every other name's
/// first section, never adds a section, and keeps names unique.
pub proof fn lemma_without(secs: Seq<ProfileView>, name: Seq<char>)
    ensures
        find(without(secs, name), name) is None,
        forall|other: Seq<char>|
            other != name ==> #[trigger] find(without(secs, name), other) == find(secs, other),
        without(secs, name).len() <= secs.len(),
        find(secs, name) is None ==> without(secs, name) == secs,
        forall|p: ProfileView| #[trigger] without(secs, name).contains(p) ==> secs.contains(p),
    decreases secs.len(),
{
    if secs.len() > 0 {
        let before = secs.drop_last();
        lemma_without(before, name);
        let w = without(secs, name);
        if secs.last().name != name {
            assert(w.drop_last() =~= without(before, name));
            assert(w.last() == secs.last());
        }
        assert forall|other: Seq<char>| other != name implies #[trigger] find(w, other) == find(
            secs,
            other,
        ) by {
            assert(find(without(before, name), other) == find(before, other));
        }
        if find(secs, name) is None {
            assert(w =~= secs);
        }
        assert forall|p: ProfileView| #[trigger] w.contains(p) implies secs.contains(p) by {
            let k = choose|k: int| 0 <= k < w.len() && w[k] == p;
            if secs.last().name != name && k == w.len() - 1 {
                assert(secs[secs.len() - 1] == p);
            } else {
                assert(without(before, name)[k] == p);
                assert(without(before, name).contains(p));
                let m = choose|m: int| 0 <= m < before.len() && before[m] == p;
                assert(secs[m] == p);
            }
        }
    }
}

/// Names that were unique stay unique when a name is removed, and the store
/// then loses exactly the sections of that name: one or none.
pub proof fn lemma_without_unique(secs: Seq<ProfileView>, name: Seq<char>)
    requires
        unique_names(secs),
    ensures
        unique_names(without(secs, name)),
        without(secs, name).len() == if find(secs, name) is Some {
            secs.len() - 1
        } else {
            secs.len() as int
        },
    decreases secs.len(),
{
    if secs.len() > 0 {
        let before = secs.drop_last();
        assert forall|i: int, j: int| 0 <= i < j < before.len() implies before[i].name
            != before[j].name by {
            assert(before[i] == secs[i] && before[j] == secs[j]);
        }
        lemma_without_unique(before, name);
        lemma_without(before, name);
        let wb = without(before, name);
        let w = without(secs, name);
        if secs.last().name == name {
            lemma_find_witness(before, name);
            if find(before, name) is Some {
                let i = choose|i: int|
                    0 <= i < before.len() && (#[trigger] before[i]).name == name;
                assert(secs[i].name == secs[secs.len() - 1].name);
            }
        } else {
            assert forall|i: int, j: int| 0 <= i < j < w.len() implies w[i].name
                != w[j].name by {
                if j == w.len() - 1 {
                    assert(wb[i] == w[i]);
                    assert(wb.contains(wb[i]));
                    assert(before.contains(wb[i]));
                    let m = choose|m: int| 0 <= m < before.len() && before[m] == wb[i];
                    assert(secs[m].name != secs[secs.len() - 1].name);
                } else {
                    assert(wb[i] == w[i] && wb[j] == w[j]);
                }
            }
        }
    }
}

/// After a section was set, its name leads to it and every other name leads
/// where it led before.
pub proof fn lemma_upsert(secs: Seq<ProfileView>, p: ProfileView)
    ensures
        find(upsert(secs, p), p.name) == Some(p),
        forall|other: Seq<char>|
            other != p.name ==> #[trigger] find(upsert(secs, p), other) == find(secs, other),
        unique_names(secs) ==> unique_names(upsert(secs, p)),
        unique_names(secs) ==> upsert(secs, p).len() == if find(secs, p.name) is Some {
            secs.len()
        } else {
            secs.len() + 1
        },
{
    let w = without(secs, p.name);
    let u = upsert(secs, p);
    lemma_without(secs, p.name);
    assert(u.drop_last() =~= w);
    assert(u.last() == p);
    assert forall|other: Seq<char>| other != p.name implies #[trigger] find(u, other) == find(
        secs,
        other,
    ) by {
        assert(find(w, other) == find(secs, other));
    }
    if unique_names(secs) {
        lemma_without_unique(secs, p.name);
        lemma_find_witness(w, p.name);
        assert forall|i: int, j: int| 0 <= i < j < u.len() implies u[i].name != u[j].name by {
            if j == u.len() - 1 {
                assert(w[i] == u[i]);
            } else {
                assert(w[i] == u[i] && w[j] == u[j]);
            }
        }
    }
}

/// The index of the first section called `name`.
pub fn find_index(profiles: &Vec<Profile>, name: &str) -> (r: Option<usize>)
    ensures
        match r {
            Some(i) => i < profiles@.len() && find(profile_views(profiles@), name@) == Some(
                profiles@[i as int]@,
            ),
            None => find(profile_views(profiles@), name@) is None,
        },
{
    let ghost secs = profile_views(profiles@);
    let n: usize = profiles.len();
    let mut i: usize = 0;
    while i < n
        invariant
            i <= n,
            n == profiles@.len(),
            secs == profile_views(profiles@),
            find(secs.take(i as int), name@) is None,
        decreases n - i,
    {
        proof {
            assert(secs.take(i + 1).drop_last() =~= secs.take(i as int));
            assert(secs.take(i + 1).last() == profiles@[i as int]@);
        }
        if str_eq(profiles[i].name(), name) {
            proof {
                lemma_find_prefix(secs, name@, i + 1);
            }
            return Some(i);
        }
        i += 1;
    }
    proof {
        assert(secs.take(n as int) =~= secs);
    }
    None
}

/// The sections that are not called `name`.
pub fn remove_named(profiles: &Vec<Profile>, name: &str) -> (r: Vec<Profile>)
    ensures
        profile_views(r@) == without(profile_views(profiles@), name@),
{
    let ghost secs = profile_views(profiles@);
    let mut out: Vec<Profile> = Vec::new();
    let n: usize = profiles.len();
    let mut i: usize = 0;
    while i < n
        invariant
            i <= n,
            n == profiles@.len(),
            secs == profile_views(profiles@),
            profile_views(out@) == without(secs.take(i as int), name@),
        decreases n - i,
    {
        let ghost before = profile_views(out@);
        proof {
            assert(secs.take(i + 1).drop_last() =~= secs.take(i as int));
            assert(secs.take(i + 1).last() == profiles@[i as int]@);
        }
        if !str_eq(profiles[i].name(), name) {
            let p = profiles[i].clone();
            out.push(p);
            proof {
                assert(profile_views(out@) =~= before.push(p@));
            }
        }
        i += 1;
    }
    proof {
        assert(secs.take(n as int) =~= secs);
    }
    out
}

/// The sections with `profile` set: those of its name removed, and it last.
pub fn set_named(profiles: &Vec<Profile>, profile: Profile) -> (r: Vec<Profile>)
    ensures
        profile_views(r@) == upsert(profile_views(profiles@), profile@),
{
    let mut out = remove_named(profiles, profile.name());
    let ghost before = profile_views(out@);
    out.push(profile);
    proof {
        assert(profile_views(out@) =~= before.push(profile@));
    }
    out
}

/// The text of the sections under the headers of `style`.
pub fn format_sections(profiles: &Vec<Profile>, style: HeaderStyle) -> (r: String)
    ensures
        r@ == rendered(style_renderer(style), profile_views(profiles@)),
{
    let ghost secs = profile_views(profiles@);
    let ghost render = style_renderer(style);
    let mut texts: Vec<String> = Vec::new();
    let n: usize = profiles.len();
    let mut i: usize = 0;
    while i < n
        invariant
            i <= n,
            n == profiles@.len(),
            secs == profile_views(profiles@),
            render == style_renderer(style),
            views(texts@) == section_texts(render, secs).take(i as int),
        decreases n - i,
    {
        let ghost before = views(texts@);
        let header = style.render(profiles[i].name());
        let text = profiles[i].format_under(header.as_str());
        texts.push(text);
        proof {
            assert(views(texts@) =~= before.push(text@));
            assert(section_texts(render, secs).take(i + 1) =~= section_texts(render, secs).take(
                i as int,
            ).push(text@));
        }
        i += 1;
    }
    proof {
        assert(section_texts(render, secs).take(n as int) =~= section_texts(render, secs));
    }
    join_strs(&texts, "\n\n")
}

} // verus!

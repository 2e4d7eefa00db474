//! What holds of the operations on sections and stores, whatever they are
//! applied to.

use crate::profile::{
    assignment, equivalent, holds_key, lookup, same_pairs, with_pair, without_key, ProfileView,
};
use crate::store::{
    find, lemma_upsert, lemma_without, same_store, unique_names, upsert, without,
};
use crate::text::{
    is_pair, is_space, key_of, lemma_position_bounds, lemma_position_is, trim_end, trim_start,
    trimmed, value_of,
};
use vstd::prelude::*;
use vstd::string::*;

verus! {

/// Whether a text can be used as a key and found again: it holds no `=`,
/// and neither begins nor ends with whitespace.
pub open spec fn plain_key(key: Seq<char>) -> bool {
    &&& !key.contains('=')
    &&& key.len() > 0 ==> !is_space(key[0]) && !is_space(key.last())
}

/// The line written for a plain key assigns to that key the trimmed value.
pub proof fn lemma_assignment(key: Seq<char>, value: Seq<char>)
    requires
        plain_key(key),
    ensures
        is_pair(assignment(key, value)),
        key_of(assignment(key, value)) == key,
        value_of(assignment(key, value)) == trimmed(value),
{
    reveal_strlit(" = ");
    let line = assignment(key, value);
    let n = key.len() as int;
    assert(line.len() == n + 3 + value.len());
    assert forall|j: int| 0 <= j < n + 1 implies line[j] != '=' by {
        if j < n {
            assert(line[j] == key[j]);
            assert(key.contains(key[j]));
        } else {
            assert(line[j] == ' ');
        }
    }
    assert(line[n + 1] == '=');
    lemma_position_is(line, '=', n + 1);
    lemma_position_bounds(line, '=');
    let before = line.subrange(0, n + 1);
    let after = line.subrange(n + 2, line.len() as int);
    assert(before =~= key.push(' '));
    assert(after =~= seq![' '] + value);
    assert(is_space(' '));
    assert(before.drop_last() =~= key);
    if n == 0 {
        assert(before[0] == ' ');
        assert(before.drop_first() =~= Seq::<char>::empty());
        assert(trim_start(before.drop_first()) == Seq::<char>::empty());
        assert(trim_start(before) == Seq::<char>::empty());
        assert(trimmed(before) =~= key);
    } else {
        assert(before[0] == key[0]);
        assert(trim_start(before) == before);
        assert(trim_end(before) == trim_end(key));
        assert(trim_end(key) == key);
    }
    assert(after.drop_first() =~= value);
    assert(trim_start(after) == trim_start(value));
}

/// What the lines give to a key after one more line: what they gave
/// before, or what the new line assigns where they gave nothing.
pub proof fn lemma_lookup_push(lines: Seq<Seq<char>>, line: Seq<char>, key: Seq<char>)
    ensures
        lookup(lines.push(line), key) == match lookup(lines, key) {
            Some(v) => Some(v),
            None => if holds_key(line, key) {
                Some(value_of(line))
            } else {
                None
            },
        },
{
    assert(lines.push(line).drop_last() =~= lines);
}

/// Removing a key leaves it without a value and every other key with the
/// value that it had; where the key had no value, nothing changes.
pub proof fn lemma_without_key(lines: Seq<Seq<char>>, key: Seq<char>)
    ensures
        lookup(without_key(lines, key), key) is None,
        forall|other: Seq<char>|
            other != key ==> #[trigger] lookup(without_key(lines, key), other) == lookup(
                lines,
                other,
            ),
        lookup(lines, key) is None ==> without_key(lines, key) == lines,
    decreases lines.len(),
{
    if lines.len() > 0 {
        let before = lines.drop_last();
        lemma_without_key(before, key);
        let w = without_key(lines, key);
        if !holds_key(lines.last(), key) {
            lemma_lookup_push(without_key(before, key), lines.last(), key);
        }
        assert forall|other: Seq<char>| other != key implies #[trigger] lookup(w, other)
            == lookup(lines, other) by {
            assert(lookup(without_key(before, key), other) == lookup(before, other));
            if !holds_key(lines.last(), key) {
                lemma_lookup_push(without_key(before, key), lines.last(), other);
            }
        }
        if lookup(lines, key) is None {
            assert(w =~= lines);
        }
    }
}

/// Set, then get. After a value was assigned to a plain key, the key has
/// the trimmed value, it is the last line and no other that assigns to the
/// key, and every other key has the value that it had.
pub proof fn law_get_after_set(lines: Seq<Seq<char>>, key: Seq<char>, value: Seq<char>)
    requires
        plain_key(key),
    ensures
        lookup(with_pair(lines, key, value), key) == Some(trimmed(value)),
        forall|other: Seq<char>|
            other != key ==> #[trigger] lookup(with_pair(lines, key, value), other) == lookup(
                lines,
                other,
            ),
        forall|i: int|
            0 <= i < with_pair(lines, key, value).len() ==> (holds_key(
                #[trigger] with_pair(lines, key, value)[i],
                key,
            ) <==> i == with_pair(lines, key, value).len() - 1),
{
    let w = without_key(lines, key);
    let line = assignment(key, value);
    lemma_assignment(key, value);
    lemma_without_key(lines, key);
    lemma_lookup_push(w, line, key);
    assert forall|other: Seq<char>| other != key implies #[trigger] lookup(
        with_pair(lines, key, value),
        other,
    ) == lookup(lines, other) by {
        lemma_lookup_push(w, line, other);
        assert(lookup(w, other) == lookup(lines, other));
    }
    crate::profile::lemma_lookup_witness(w, key);
    assert forall|i: int| 0 <= i < with_pair(lines, key, value).len() implies (holds_key(
        #[trigger] with_pair(lines, key, value)[i],
        key,
    ) <==> i == with_pair(lines, key, value).len() - 1) by {
        if i < w.len() {
            assert(with_pair(lines, key, value)[i] == w[i]);
        }
    }
}

/// Get after remove. After a key was removed it has no value, and every
/// other key has the value that it had.
pub proof fn law_get_after_remove(lines: Seq<Seq<char>>, key: Seq<char>)
    ensures
        lookup(without_key(lines, key), key) is None,
        forall|other: Seq<char>|
            other != key ==> #[trigger] lookup(without_key(lines, key), other) == lookup(
                lines,
                other,
            ),
{
    lemma_without_key(lines, key);
}

/// Assigning twice. To assign the same value to the same key a second time
/// changes no key's value; for a plain key it changes no line.
pub proof fn law_set_value_twice(lines: Seq<Seq<char>>, key: Seq<char>, value: Seq<char>)
    ensures
        same_pairs(with_pair(with_pair(lines, key, value), key, value), with_pair(lines, key, value)),
        plain_key(key) ==> with_pair(with_pair(lines, key, value), key, value) == with_pair(
            lines,
            key,
            value,
        ),
{
    let w = without_key(lines, key);
    let line = assignment(key, value);
    let once = with_pair(lines, key, value);
    let twice = with_pair(once, key, value);
    lemma_without_key(lines, key);
    lemma_without_key(w, key);
    assert(once.drop_last() =~= w);
    assert(once.last() == line);
    if holds_key(line, key) {
        assert(without_key(once, key) == w);
        assert(twice == once);
    } else {
        assert(without_key(once, key) == w.push(line));
        assert forall|k: Seq<char>| lookup(twice, k) == lookup(once, k) by {
            lemma_lookup_push(once, line, k);
            lemma_lookup_push(w, line, k);
        }
    }
    if plain_key(key) {
        lemma_assignment(key, value);
    }
}

/// Equivalence relates every section to itself, and is symmetric and
/// transitive.
pub proof fn law_equivalent_is_equivalence(a: ProfileView, b: ProfileView, c: ProfileView)
    ensures
        equivalent(a, a),
        equivalent(a, b) ==> equivalent(b, a),
        equivalent(a, b) && equivalent(b, c) ==> equivalent(a, c),
{
    if equivalent(a, b) && equivalent(b, c) {
        assert forall|k: Seq<char>| lookup(a.lines, k) == lookup(c.lines, k) by {
            assert(lookup(a.lines, k) == lookup(b.lines, k));
        }
    }
}

/// Setting twice. To set the same section a second time changes nothing.
pub proof fn law_set_twice(secs: Seq<ProfileView>, p: ProfileView)
    ensures
        upsert(upsert(secs, p), p) == upsert(secs, p),
        same_store(upsert(upsert(secs, p), p), upsert(secs, p)),
{
    let w = without(secs, p.name);
    let once = upsert(secs, p);
    lemma_without(secs, p.name);
    lemma_without(w, p.name);
    assert(once.drop_last() =~= w);
    assert(once.last() == p);
    assert(without(once, p.name) == w);
}

/// Overwriting. After a section was set, its name leads to it and to
/// nothing of what stood under the name before; every other name leads
/// where it led. In a store with unique names the names stay unique, and
/// the number of sections stays where the name was there and grows by one
/// where it was not.
pub proof fn law_set_overwrites(secs: Seq<ProfileView>, p: ProfileView)
    ensures
        find(upsert(secs, p), p.name) == Some(p),
        forall|other: Seq<char>|
            other != p.name ==> #[trigger] find(upsert(secs, p), other) == find(secs, other),
        upsert(secs, p).last() == p,
        unique_names(secs) ==> unique_names(upsert(secs, p)),
        unique_names(secs) ==> upsert(secs, p).len() == if find(secs, p.name) is Some {
            secs.len()
        } else {
            secs.len() + 1
        },
{
    lemma_upsert(secs, p);
}

/// Removing a section. After a name was removed it leads nowhere, and
/// every other name leads where it led.
pub proof fn law_remove_section(secs: Seq<ProfileView>, name: Seq<char>)
    ensures
        find(without(secs, name), name) is None,
        forall|other: Seq<char>|
            other != name ==> #[trigger] find(without(secs, name), other) == find(secs, other),
        find(secs, name) is None ==> without(secs, name) == secs,
{
    lemma_without(secs, name);
}

/// Copying. After the section `src` was copied to `dst`, `dst` gives every
/// key the value that `src` gave it; `src` is unchanged where the two names
/// differ, and so is every other section.
pub proof fn law_copy(secs: Seq<ProfileView>, src: Seq<char>, dst: Seq<char>)
    requires
        find(secs, src) is Some,
    ensures
        ({
            let from = find(secs, src)->Some_0;
            let after = upsert(secs, ProfileView { name: dst, lines: from.lines });
            &&& find(after, dst) is Some
            &&& forall|k: Seq<char>|
                lookup(find(after, dst)->Some_0.lines, k) == lookup(from.lines, k)
            &&& find(after, dst)->Some_0.lines == from.lines
            &&& src != dst ==> find(after, src) == find(secs, src)
            &&& forall|other: Seq<char>|
                other != dst ==> #[trigger] find(after, other) == find(secs, other)
        }),
{
    let from = find(secs, src)->Some_0;
    lemma_upsert(secs, ProfileView { name: dst, lines: from.lines });
}

/// The relation `same_store` relates every store to itself, and is
/// symmetric and transitive.
pub proof fn law_same_store_is_equivalence(
    a: Seq<ProfileView>,
    b: Seq<ProfileView>,
    c: Seq<ProfileView>,
)
    ensures
        same_store(a, a),
        same_store(a, b) ==> same_store(b, a),
        same_store(a, b) && same_store(b, c) ==> same_store(a, c),
{
    if same_store(a, b) {
        assert forall|name: Seq<char>|
            match (#[trigger] find(b, name), find(a, name)) {
                (Some(p), Some(q)) => equivalent(p, q),
                (None, None) => true,
                _ => false,
            } by {
            let x = find(a, name);
            if x is Some && find(b, name) is Some {
                law_equivalent_is_equivalence(x->Some_0, find(b, name)->Some_0, x->Some_0);
            }
        }
    }
    if same_store(a, b) && same_store(b, c) {
        assert forall|name: Seq<char>|
            match (#[trigger] find(a, name), find(c, name)) {
                (Some(p), Some(q)) => equivalent(p, q),
                (None, None) => true,
                _ => false,
            } by {
            let x = find(a, name);
            let y = find(b, name);
            let z = find(c, name);
            if x is Some && y is Some && z is Some {
                law_equivalent_is_equivalence(x->Some_0, y->Some_0, z->Some_0);
            }
        }
    }
}

} // verus!

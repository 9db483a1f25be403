//! Sorted stores keyed by paths: a map from paths to bytes and a set of
//! paths, each kept in increasing path order without duplicates.

use vstd::prelude::*;
use crate::path::{lex_lt, lex_less, lemma_lex_trans, lemma_lex_total, lemma_lex_irrefl, sorted_keys, sorted_set, key_map, has_key, key_index, lemma_key_map_index, segs_view};
use crate::text::chars_eq;

verus! {

/// The view of a file store: (path, bytes) pairs.
pub open spec fn fview(s: Seq<(Vec<char>, Vec<u8>)>) -> Seq<(Seq<char>, Seq<u8>)> {
    s.map_values(|e: (Vec<char>, Vec<u8>)| (e.0@, e.1@))
}

/// Where a key stands in a sorted store: found at an index, or absent,
/// with the index it would be inserted at.
pub enum Slot {
    Found(usize),
    Absent(usize),
}

/// Lookup in a sorted file store.
pub fn file_slot(s: &Vec<(Vec<char>, Vec<u8>)>, key: &Vec<char>) -> (r: Slot)
    requires
        sorted_keys(fview(s@)),
    ensures
        match r {
            Slot::Found(i) => i < s@.len() && fview(s@)[i as int].0 == key@,
            Slot::Absent(p) => p <= s@.len()
                && (forall|j: int| 0 <= j < p ==> lex_lt(#[trigger] fview(s@)[j].0, key@))
                && (forall|j: int| p <= j < s@.len() ==> lex_lt(key@, #[trigger] fview(s@)[j].0)),
        },
{
    let ghost v = fview(s@);
    let mut i: usize = 0;
    while i < s.len()
        invariant
            v == fview(s@),
            sorted_keys(v),
            i <= s@.len(),
            forall|j: int| 0 <= j < i ==> lex_lt(#[trigger] v[j].0, key@),
        decreases s.len() - i,
    {
        if chars_eq(&s[i].0, key) {
            return Slot::Found(i);
        }
        if lex_less(key, &s[i].0) {
            assert forall|j: int| i <= j < s@.len() implies lex_lt(key@, #[trigger] v[j].0) by {
                if j > i {
                    lemma_lex_trans(key@, v[i as int].0, v[j].0);
                }
            }
            return Slot::Absent(i);
        }
        proof {
            lemma_lex_total(key@, v[i as int].0);
        }
        i += 1;
    }
    Slot::Absent(i)
}

/// Lookup in a sorted path set.
pub fn dir_slot(s: &Vec<Vec<char>>, key: &Vec<char>) -> (r: Slot)
    requires
        sorted_set(segs_view(s@)),
    ensures
        match r {
            Slot::Found(i) => i < s@.len() && segs_view(s@)[i as int] == key@,
            Slot::Absent(p) => p <= s@.len()
                && (forall|j: int| 0 <= j < p ==> lex_lt(#[trigger] segs_view(s@)[j], key@))
                && (forall|j: int| p <= j < s@.len() ==> lex_lt(key@, #[trigger] segs_view(s@)[j])),
        },
{
    let ghost v = segs_view(s@);
    let mut i: usize = 0;
    while i < s.len()
        invariant
            v == segs_view(s@),
            sorted_set(v),
            i <= s@.len(),
            forall|j: int| 0 <= j < i ==> lex_lt(#[trigger] v[j], key@),
        decreases s.len() - i,
    {
        if chars_eq(&s[i], key) {
            return Slot::Found(i);
        }
        if lex_less(key, &s[i]) {
            assert forall|j: int| i <= j < s@.len() implies lex_lt(key@, #[trigger] v[j]) by {
                if j > i {
                    lemma_lex_trans(key@, v[i as int], v[j]);
                }
            }
            return Slot::Absent(i);
        }
        proof {
            lemma_lex_total(key@, v[i as int]);
        }
        i += 1;
    }
    Slot::Absent(i)
}

/// Inserting at the right slot keeps a keyed sequence sorted and inserts
/// the pair into its map.
pub proof fn lemma_key_map_insert_at(s: Seq<(Seq<char>, Seq<u8>)>, p: int, k: Seq<char>, v: Seq<u8>)
    requires
        sorted_keys(s),
        0 <= p <= s.len(),
        forall|j: int| 0 <= j < p ==> lex_lt(#[trigger] s[j].0, k),
        forall|j: int| p <= j < s.len() ==> lex_lt(k, #[trigger] s[j].0),
    ensures
        sorted_keys(s.insert(p, (k, v))),
        !key_map(s).contains_key(k),
        key_map(s.insert(p, (k, v))) == key_map(s).insert(k, v),
{
    let t = s.insert(p, (k, v));
    assert forall|a: int, b: int| 0 <= a < b < t.len() implies lex_lt(#[trigger] t[a].0, #[trigger] t[b].0) by {
        if a < p && b == p {
        } else if a < p && b > p {
            assert(t[b] == s[b - 1]);
        } else if a == p {
            assert(t[b] == s[b - 1]);
        } else if a > p {
            assert(t[a] == s[a - 1]);
            assert(t[b] == s[b - 1]);
        }
    }
    assert(!has_key(s, k)) by {
        if has_key(s, k) {
            let j = key_index(s, k);
            lemma_lex_irrefl(k);
        }
    }
    let m = key_map(s).insert(k, v);
    assert forall|x: Seq<char>| #[trigger] key_map(t).contains_key(x) == m.contains_key(x) by {
        if has_key(t, x) && x != k {
            let i = key_index(t, x);
            if i < p {
                assert(s[i].0 == x);
            } else {
                assert(i != p);
                assert(s[i - 1].0 == x);
            }
        }
        if has_key(s, x) {
            let i = key_index(s, x);
            if i < p {
                assert(t[i].0 == x);
            } else {
                assert(t[i + 1].0 == x);
            }
        }
        assert(t[p].0 == k);
    }
    assert forall|x: Seq<char>| #[trigger] key_map(t).contains_key(x) implies key_map(t)[x] == m[x] by {
        let i = key_index(t, x);
        lemma_key_map_index(t, i);
        if i < p {
            lemma_key_map_index(s, i);
        } else if i > p {
            lemma_key_map_index(s, i - 1);
        }
    }
    assert(key_map(t) =~= m);
}

/// Replacing the value at a found slot updates the map at its key.
pub proof fn lemma_key_map_update_at(s: Seq<(Seq<char>, Seq<u8>)>, i: int, v: Seq<u8>)
    requires
        sorted_keys(s),
        0 <= i < s.len(),
    ensures
        sorted_keys(s.update(i, (s[i].0, v))),
        key_map(s.update(i, (s[i].0, v))) == key_map(s).insert(s[i].0, v),
{
    let t = s.update(i, (s[i].0, v));
    let m = key_map(s).insert(s[i].0, v);
    assert forall|a: int, b: int| 0 <= a < b < t.len() implies lex_lt(#[trigger] t[a].0, #[trigger] t[b].0) by {
        assert(t[a].0 == s[a].0 && t[b].0 == s[b].0);
    }
    assert forall|x: Seq<char>| #[trigger] key_map(t).contains_key(x) == m.contains_key(x) by {
        if has_key(t, x) {
            let j = key_index(t, x);
            assert(s[j].0 == x);
        }
        if has_key(s, x) {
            let j = key_index(s, x);
            assert(t[j].0 == x);
        }
        assert(t[i].0 == s[i].0);
    }
    assert forall|x: Seq<char>| #[trigger] key_map(t).contains_key(x) implies key_map(t)[x] == m[x] by {
        assert(has_key(t, x));
        let j = key_index(t, x);
        assert(t[j].0 == x);
        lemma_key_map_index(t, j);
        lemma_key_map_index(s, j);
        assert(s[j].0 == x);
        if j == i {
            assert(t[j].1 == v);
        } else {
            assert(t[j] == s[j]);
            assert(x != s[i].0) by {
                if x == s[i].0 {
                    if j < i {
                        assert(lex_lt(s[j].0, s[i].0));
                    } else {
                        assert(lex_lt(s[i].0, s[j].0));
                    }
                    lemma_lex_irrefl(x);
                }
            }
        }
    }
    assert(key_map(t) =~= m);
}

/// Removing a found slot removes its key from the map.
pub proof fn lemma_key_map_remove_at(s: Seq<(Seq<char>, Seq<u8>)>, i: int)
    requires
        sorted_keys(s),
        0 <= i < s.len(),
    ensures
        sorted_keys(s.remove(i)),
        key_map(s.remove(i)) == key_map(s).remove(s[i].0),
{
    let t = s.remove(i);
    let m = key_map(s).remove(s[i].0);
    assert forall|a: int, b: int| 0 <= a < b < t.len() implies lex_lt(#[trigger] t[a].0, #[trigger] t[b].0) by {
        if a < i && b >= i {
            assert(t[b] == s[b + 1]);
        } else if a >= i {
            assert(t[a] == s[a + 1]);
            assert(t[b] == s[b + 1]);
        }
    }
    assert forall|x: Seq<char>| #[trigger] key_map(t).contains_key(x) == m.contains_key(x) by {
        if has_key(t, x) {
            let j = key_index(t, x);
            if j < i {
                assert(s[j].0 == x);
                assert(lex_lt(s[j].0, s[i].0));
                lemma_lex_irrefl(x);
            } else {
                assert(s[j + 1].0 == x);
                assert(lex_lt(s[i].0, s[j + 1].0));
                lemma_lex_irrefl(x);
            }
        }
        if m.contains_key(x) {
            let j = key_index(s, x);
            assert(j != i);
            if j < i {
                assert(t[j].0 == x);
            } else {
                assert(t[j - 1].0 == x);
            }
        }
    }
    assert forall|x: Seq<char>| #[trigger] key_map(t).contains_key(x) implies key_map(t)[x] == m[x] by {
        let j = key_index(t, x);
        lemma_key_map_index(t, j);
        if j < i {
            lemma_key_map_index(s, j);
        } else {
            lemma_key_map_index(s, j + 1);
        }
    }
    assert(key_map(t) =~= m);
}

/// Inserting at the right slot keeps a path sequence sorted and adds the
/// path to its set.
pub proof fn lemma_set_insert_at(s: Seq<Seq<char>>, p: int, k: Seq<char>)
    requires
        sorted_set(s),
        0 <= p <= s.len(),
        forall|j: int| 0 <= j < p ==> lex_lt(#[trigger] s[j], k),
        forall|j: int| p <= j < s.len() ==> lex_lt(k, #[trigger] s[j]),
    ensures
        sorted_set(s.insert(p, k)),
        !s.contains(k),
        s.insert(p, k).to_set() == s.to_set().insert(k),
{
    let t = s.insert(p, k);
    assert forall|a: int, b: int| 0 <= a < b < t.len() implies lex_lt(#[trigger] t[a], #[trigger] t[b]) by {
        if a < p && b == p {
        } else if a < p && b > p {
            assert(t[b] == s[b - 1]);
        } else if a == p {
            assert(t[b] == s[b - 1]);
        } else if a > p {
            assert(t[a] == s[a - 1]);
            assert(t[b] == s[b - 1]);
        }
    }
    assert(!s.contains(k)) by {
        if s.contains(k) {
            let j = choose|j: int| 0 <= j < s.len() && s[j] == k;
            lemma_lex_irrefl(k);
        }
    }
    assert forall|x: Seq<char>| #[trigger] t.to_set().contains(x) == s.to_set().insert(k).contains(x) by {
        if t.contains(x) && x != k {
            let i = choose|i: int| 0 <= i < t.len() && t[i] == x;
            if i < p {
                assert(s[i] == x);
            } else {
                assert(s[i - 1] == x);
            }
        }
        if s.contains(x) {
            let i = choose|i: int| 0 <= i < s.len() && s[i] == x;
            if i < p {
                assert(t[i] == x);
            } else {
                assert(t[i + 1] == x);
            }
        }
        assert(t[p] == k);
    }
    assert(t.to_set() =~= s.to_set().insert(k));
}

/// Removing a found slot removes the path from the set.
pub proof fn lemma_set_remove_at(s: Seq<Seq<char>>, i: int)
    requires
        sorted_set(s),
        0 <= i < s.len(),
    ensures
        sorted_set(s.remove(i)),
        s.remove(i).to_set() == s.to_set().remove(s[i]),
{
    let t = s.remove(i);
    assert forall|a: int, b: int| 0 <= a < b < t.len() implies lex_lt(#[trigger] t[a], #[trigger] t[b]) by {
        if a < i && b >= i {
            assert(t[b] == s[b + 1]);
        } else if a >= i {
            assert(t[a] == s[a + 1]);
            assert(t[b] == s[b + 1]);
        }
    }
    assert forall|x: Seq<char>| #[trigger] t.to_set().contains(x) == s.to_set().remove(s[i]).contains(x) by {
        if t.contains(x) {
            let j = choose|j: int| 0 <= j < t.len() && t[j] == x;
            if j < i {
                assert(s[j] == x);
                assert(lex_lt(s[j], s[i]));
                lemma_lex_irrefl(x);
            } else {
                assert(s[j + 1] == x);
                assert(lex_lt(s[i], s[j + 1]));
                lemma_lex_irrefl(x);
            }
        }
        if s.contains(x) && x != s[i] {
            let j = choose|j: int| 0 <= j < s.len() && s[j] == x;
            if j < i {
                assert(t[j] == x);
            } else {
                assert(t[j - 1] == x);
            }
        }
    }
    assert(t.to_set() =~= s.to_set().remove(s[i]));
}

} // verus!

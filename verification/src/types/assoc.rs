//! Association lists keyed by names: the first entry for a name is its
//! value, and setting a name replaces that entry or adds one at the end.
use vstd::prelude::*;
use crate::text::str_eq;

verus! {

/// The value of the first entry for `k`.
pub open spec fn assoc<V>(s: Seq<(Seq<char>, V)>, k: Seq<char>) -> Option<V>
    decreases s.len(),
{
    if s.len() == 0 {
        None
    } else if s[0].0 == k {
        Some(s[0].1)
    } else {
        assoc(s.drop_first(), k)
    }
}

/// `s` with the first entry for `k` set to `v`, or `(k, v)` added at the end.
pub open spec fn assoc_put<V>(s: Seq<(Seq<char>, V)>, k: Seq<char>, v: V) -> Seq<(Seq<char>, V)>
    decreases s.len(),
{
    if s.len() == 0 {
        seq![(k, v)]
    } else if s[0].0 == k {
        s.update(0, (k, v))
    } else {
        seq![s[0]] + assoc_put(s.drop_first(), k, v)
    }
}

/// The first entry for `k` is at `i`.
pub open spec fn first_at<V>(s: Seq<(Seq<char>, V)>, k: Seq<char>, i: int) -> bool {
    0 <= i < s.len() && s[i].0 == k && forall|j: int| 0 <= j < i ==> #[trigger] s[j].0 != k
}

/// No entry is for `k`.
pub open spec fn absent<V>(s: Seq<(Seq<char>, V)>, k: Seq<char>) -> bool {
    forall|j: int| 0 <= j < s.len() ==> #[trigger] s[j].0 != k
}

pub proof fn lemma_assoc_first<V>(s: Seq<(Seq<char>, V)>, k: Seq<char>, i: int)
    requires
        first_at(s, k, i),
    ensures
        assoc(s, k) == Some(s[i].1),
        assoc_put(s, k, s[i].1) =~= s,
    decreases i,
{
    if i > 0 {
        assert(first_at(s.drop_first(), k, i - 1)) by {
            assert forall|j: int| 0 <= j < i - 1 implies #[trigger] s.drop_first()[j].0 != k by {
                assert(s[j + 1].0 != k);
            }
        }
        lemma_assoc_first(s.drop_first(), k, i - 1);
        assert(s[0].0 != k);
        assert(seq![s[0]] + s.drop_first() =~= s);
    }
}

pub proof fn lemma_assoc_absent<V>(s: Seq<(Seq<char>, V)>, k: Seq<char>)
    requires
        absent(s, k),
    ensures
        assoc(s, k) is None,
    decreases s.len(),
{
    if s.len() > 0 {
        assert(s[0].0 != k);
        assert forall|j: int| 0 <= j < s.drop_first().len() implies #[trigger] s.drop_first()[j].0 != k by {
            assert(s[j + 1].0 != k);
        }
        lemma_assoc_absent(s.drop_first(), k);
    }
}

pub proof fn lemma_assoc_put_first<V>(s: Seq<(Seq<char>, V)>, k: Seq<char>, i: int, v: V)
    requires
        first_at(s, k, i),
    ensures
        assoc_put(s, k, v) == s.update(i, (k, v)),
    decreases i,
{
    if i > 0 {
        assert(first_at(s.drop_first(), k, i - 1)) by {
            assert forall|j: int| 0 <= j < i - 1 implies #[trigger] s.drop_first()[j].0 != k by {
                assert(s[j + 1].0 != k);
            }
        }
        lemma_assoc_put_first(s.drop_first(), k, i - 1, v);
        assert(s[0].0 != k);
        assert(seq![s[0]] + s.drop_first().update(i - 1, (k, v)) =~= s.update(i, (k, v)));
    }
}

pub proof fn lemma_assoc_put_absent<V>(s: Seq<(Seq<char>, V)>, k: Seq<char>, v: V)
    requires
        absent(s, k),
    ensures
        assoc_put(s, k, v) == s.push((k, v)),
    decreases s.len(),
{
    if s.len() > 0 {
        assert(s[0].0 != k);
        assert forall|j: int| 0 <= j < s.drop_first().len() implies #[trigger] s.drop_first()[j].0 != k by {
            assert(s[j + 1].0 != k);
        }
        lemma_assoc_put_absent(s.drop_first(), k, v);
        assert(seq![s[0]] + s.drop_first().push((k, v)) =~= s.push((k, v)));
    }
}

/// Reading a name after setting it gives the value set; other names are
/// untouched.
pub proof fn lemma_assoc_put_get<V>(s: Seq<(Seq<char>, V)>, k: Seq<char>, v: V, other: Seq<char>)
    ensures
        assoc(assoc_put(s, k, v), k) == Some(v),
        other != k ==> assoc(assoc_put(s, k, v), other) == assoc(s, other),
    decreases s.len(),
{
    let r = assoc_put(s, k, v);
    if s.len() > 0 && s[0].0 != k {
        lemma_assoc_put_get(s.drop_first(), k, v, other);
        assert(r.drop_first() =~= assoc_put(s.drop_first(), k, v));
        assert(r[0] == s[0]);
        if other != k {
            if s[0].0 == other {
                assert(assoc(r, other) == Some(s[0].1));
            } else {
                assert(assoc(r, other) == assoc(r.drop_first(), other));
            }
        }
    } else if s.len() > 0 {
        assert(r.drop_first() =~= s.drop_first());
        assert(r[0] == (k, v));
    } else {
        assert(r.drop_first() =~= Seq::<(Seq<char>, V)>::empty());
        assert(r[0] == (k, v));
    }
}

/// The position of the first entry for `k`.
pub fn find_key<V>(v: &Vec<(String, V)>, k: &str) -> (r: Option<usize>)
    ensures
        match r {
            Some(i) => i < v@.len() && v@[i as int].0@ == k@ && forall|j: int|
                0 <= j < i ==> #[trigger] v@[j].0@ != k@,
            None => forall|j: int| 0 <= j < v@.len() ==> #[trigger] v@[j].0@ != k@,
        },
{
    let mut i: usize = 0;
    while i < v.len()
        invariant
            i <= v@.len(),
            forall|j: int| 0 <= j < i ==> #[trigger] v@[j].0@ != k@,
        decreases v@.len() - i,
    {
        if str_eq(v[i].0.as_str(), k) {
            return Some(i);
        }
        i = i + 1;
    }
    None
}


/// Sets the first entry for `k` to `v`, or adds `(k, v)` at the end; says
/// which.
pub fn put_key<V>(vec: &mut Vec<(String, V)>, k: String, v: V) -> (r: Option<usize>)
    ensures
        match r {
            Some(i) => i < old(vec)@.len() && old(vec)@[i as int].0@ == k@ && (forall|j: int|
                0 <= j < i ==> #[trigger] old(vec)@[j].0@ != k@) && final(vec)@ == old(vec)@.update(
                i as int,
                (k, v),
            ),
            None => (forall|j: int| 0 <= j < old(vec)@.len() ==> #[trigger] old(vec)@[j].0@ != k@)
                && final(vec)@ == old(vec)@.push((k, v)),
        },
{
    match find_key(vec, k.as_str()) {
        Some(i) => {
            vec.set(i, (k, v));
            Some(i)
        },
        None => {
            vec.push((k, v));
            None
        },
    }
}

} // verus!

//! Substitutions: type variables bound to types, in the order the bindings
//! were made, and what they do to a type.
use vstd::prelude::*;
use crate::types::ty::TyV;

verus! {

/// The value of `t` under the bindings `s[lo..]`: a variable takes the value
/// of its first binding there, itself read under the bindings after that one.
pub open spec fn app(s: Seq<(u32, TyV)>, lo: int, t: TyV) -> TyV
    decreases s.len() - lo, t,
{
    match t {
        TyV::Var(v) => if 0 <= lo < s.len() {
            if s[lo].0 == v {
                app(s, lo + 1, s[lo].1)
            } else {
                app(s, lo + 1, t)
            }
        } else {
            t
        },
        TyV::Arrow(a, b) => TyV::Arrow(Box::new(app(s, lo, *a)), Box::new(app(s, lo, *b))),
        TyV::Tuple(ts) => TyV::Tuple(app_list(s, lo, ts)),
        TyV::App(n, ts) => TyV::App(n, app_list(s, lo, ts)),
        TyV::Con(_) => t,
    }
}

pub open spec fn app_list(s: Seq<(u32, TyV)>, lo: int, ts: Seq<TyV>) -> Seq<TyV>
    decreases s.len() - lo, ts,
{
    if ts.len() == 0 {
        Seq::empty()
    } else {
        app_list(s, lo, ts.drop_last()).push(app(s, lo, ts.last()))
    }
}

/// The variables bound by `s`, in order.
pub open spec fn keys(s: Seq<(u32, TyV)>) -> Seq<u32> {
    s.map_values(|e: (u32, TyV)| e.0)
}

/// No variable of `t` is in `ks`.
pub open spec fn avoids(t: TyV, ks: Seq<u32>) -> bool
    decreases t,
{
    match t {
        TyV::Var(v) => !ks.contains(v),
        TyV::Arrow(a, b) => avoids(*a, ks) && avoids(*b, ks),
        TyV::Tuple(ts) => avoids_all(ts, ks),
        TyV::App(_, ts) => avoids_all(ts, ks),
        TyV::Con(_) => true,
    }
}

pub open spec fn avoids_all(ts: Seq<TyV>, ks: Seq<u32>) -> bool
    decreases ts,
{
    if ts.len() == 0 {
        true
    } else {
        avoids_all(ts.drop_last(), ks) && avoids(ts.last(), ks)
    }
}

/// Every variable of `t` is below `n`.
pub open spec fn below(t: TyV, n: nat) -> bool
    decreases t,
{
    match t {
        TyV::Var(v) => v < n,
        TyV::Arrow(a, b) => below(*a, n) && below(*b, n),
        TyV::Tuple(ts) => below_all(ts, n),
        TyV::App(_, ts) => below_all(ts, n),
        TyV::Con(_) => true,
    }
}

pub open spec fn below_all(ts: Seq<TyV>, n: nat) -> bool
    decreases ts,
{
    if ts.len() == 0 {
        true
    } else {
        below_all(ts.drop_last(), n) && below(ts.last(), n)
    }
}

/// `v` occurs in `t`.
pub open spec fn occurs_v(v: u32, t: TyV) -> bool
    decreases t,
{
    match t {
        TyV::Var(w) => v == w,
        TyV::Arrow(a, b) => occurs_v(v, *a) || occurs_v(v, *b),
        TyV::Tuple(ts) => occurs_vs(v, ts),
        TyV::App(_, ts) => occurs_vs(v, ts),
        TyV::Con(_) => false,
    }
}

pub open spec fn occurs_vs(v: u32, ts: Seq<TyV>) -> bool
    decreases ts,
{
    if ts.len() == 0 {
        false
    } else {
        occurs_vs(v, ts.drop_last()) || occurs_v(v, ts.last())
    }
}

/// The number of constructors and variables in `t`.
pub open spec fn tsize(t: TyV) -> nat
    decreases t,
{
    match t {
        TyV::Arrow(a, b) => 1 + tsize(*a) + tsize(*b),
        TyV::Tuple(ts) => 1 + tsizes(ts),
        TyV::App(_, ts) => 1 + tsizes(ts),
        _ => 1,
    }
}

pub open spec fn tsizes(ts: Seq<TyV>) -> nat
    decreases ts,
{
    if ts.len() == 0 {
        0
    } else {
        tsizes(ts.drop_last()) + tsize(ts.last())
    }
}

/// Each binding's type mentions no variable bound by it or by an earlier
/// binding.
pub open spec fn acyclic(s: Seq<(u32, TyV)>) -> bool {
    forall|j: int| 0 <= j < s.len() ==> #[trigger] avoids(s[j].1, keys(s).take(j + 1))
}

/// A substitution as the inference keeps it: acyclic, each variable bound at
/// most once, and every variable it mentions below `n`.
pub open spec fn subst_ok(s: Seq<(u32, TyV)>, n: nat) -> bool {
    &&& acyclic(s)
    &&& keys(s).no_duplicates()
    &&& forall|j: int| 0 <= j < s.len() ==> (#[trigger] s[j]).0 < n && below(s[j].1, n)
}

// ── Lemmas ───────────────────────────────────────────────────────────────

/// With no binding of its variables in `s[lo..]`, `t` is left as it is.
pub proof fn lemma_app_avoiding(s: Seq<(u32, TyV)>, lo: int, t: TyV)
    requires
        0 <= lo,
        avoids(t, keys(s).skip(lo)),
    ensures
        app(s, lo, t) == t,
    decreases s.len() - lo, t,
{
    match t {
        TyV::Var(v) => {
            if lo < s.len() {
                assert(keys(s).skip(lo)[0] == s[lo].0);
                assert(keys(s).skip(lo + 1) =~= keys(s).skip(lo).drop_first());
                let k1 = keys(s).skip(lo + 1);
                let k0 = keys(s).skip(lo);
                if k1.contains(v) {
                    let k = choose|k: int| 0 <= k < k1.len() && #[trigger] k1[k] == v;
                    assert(k0[k + 1] == v);
                }
                lemma_app_avoiding(s, lo + 1, t);
            }
        },
        TyV::Arrow(a, b) => {
            lemma_app_avoiding(s, lo, *a);
            lemma_app_avoiding(s, lo, *b);
        },
        TyV::Tuple(ts) => {
            lemma_app_list_avoiding(s, lo, ts);
        },
        TyV::App(_, ts) => {
            lemma_app_list_avoiding(s, lo, ts);
        },
        TyV::Con(_) => {},
    }
}

pub proof fn lemma_app_list_avoiding(s: Seq<(u32, TyV)>, lo: int, ts: Seq<TyV>)
    requires
        0 <= lo,
        avoids_all(ts, keys(s).skip(lo)),
    ensures
        app_list(s, lo, ts) == ts,
    decreases s.len() - lo, ts,
{
    if ts.len() > 0 {
        lemma_app_list_avoiding(s, lo, ts.drop_last());
        lemma_app_avoiding(s, lo, ts.last());
        assert(ts.drop_last().push(ts.last()) =~= ts);
    }
}

/// Reading under the bindings of an acyclic `s` from `lo` on, a type none of
/// whose variables is bound before `lo` comes out with no bound variable.
pub proof fn lemma_app_resolves(s: Seq<(u32, TyV)>, lo: int, t: TyV)
    requires
        acyclic(s),
        0 <= lo <= s.len(),
        avoids(t, keys(s).take(lo)),
    ensures
        avoids(app(s, lo, t), keys(s)),
    decreases s.len() - lo, t,
{
    match t {
        TyV::Var(v) => {
            if lo < s.len() {
                assert(keys(s).take(lo + 1) =~= keys(s).take(lo).push(s[lo].0));
                if s[lo].0 == v {
                    assert(avoids(s[lo].1, keys(s).take(lo + 1)));
                    lemma_app_resolves(s, lo + 1, s[lo].1);
                } else {
                    lemma_app_resolves(s, lo + 1, t);
                }
            } else {
                assert(keys(s).take(lo) =~= keys(s));
            }
        },
        TyV::Arrow(a, b) => {
            lemma_app_resolves(s, lo, *a);
            lemma_app_resolves(s, lo, *b);
        },
        TyV::Tuple(ts) => {
            lemma_app_list_resolves(s, lo, ts);
        },
        TyV::App(_, ts) => {
            lemma_app_list_resolves(s, lo, ts);
        },
        TyV::Con(_) => {},
    }
}

pub proof fn lemma_app_list_resolves(s: Seq<(u32, TyV)>, lo: int, ts: Seq<TyV>)
    requires
        acyclic(s),
        0 <= lo <= s.len(),
        avoids_all(ts, keys(s).take(lo)),
    ensures
        avoids_all(app_list(s, lo, ts), keys(s)),
    decreases s.len() - lo, ts,
{
    if ts.len() > 0 {
        lemma_app_list_resolves(s, lo, ts.drop_last());
        lemma_app_resolves(s, lo, ts.last());
        let r = app_list(s, lo, ts);
        assert(r.drop_last() =~= app_list(s, lo, ts.drop_last()));
    }
}

/// Reading from the end of `s` leaves a type as it is.
pub proof fn lemma_app_past_end(s: Seq<(u32, TyV)>, lo: int, t: TyV)
    requires
        s.len() == lo,
    ensures
        app(s, lo, t) == t,
{
    lemma_avoids_empty(t, keys(s).skip(lo));
    lemma_app_avoiding(s, lo, t);
}

/// Every type avoids an empty sequence of variables.
pub proof fn lemma_avoids_empty(t: TyV, ks: Seq<u32>)
    requires
        ks.len() == 0,
    ensures
        avoids(t, ks),
    decreases t,
{
    match t {
        TyV::Arrow(a, b) => {
            lemma_avoids_empty(*a, ks);
            lemma_avoids_empty(*b, ks);
        },
        TyV::Tuple(ts) => lemma_avoids_all_empty(ts, ks),
        TyV::App(_, ts) => lemma_avoids_all_empty(ts, ks),
        _ => {},
    }
}

pub proof fn lemma_avoids_all_empty(ts: Seq<TyV>, ks: Seq<u32>)
    requires
        ks.len() == 0,
    ensures
        avoids_all(ts, ks),
    decreases ts,
{
    if ts.len() > 0 {
        lemma_avoids_all_empty(ts.drop_last(), ks);
        lemma_avoids_empty(ts.last(), ks);
    }
}

/// The bindings after a prefix `p` act as they do on their own.
pub proof fn lemma_app_shift(p: Seq<(u32, TyV)>, e: Seq<(u32, TyV)>, k: int, t: TyV)
    requires
        0 <= k,
    ensures
        app(p + e, p.len() + k, t) == app(e, k, t),
    decreases e.len() - k, t,
{
    let s = p + e;
    match t {
        TyV::Var(v) => {
            if k < e.len() {
                assert(s[p.len() + k] == e[k]);
                if e[k].0 == v {
                    lemma_app_shift(p, e, k + 1, e[k].1);
                } else {
                    lemma_app_shift(p, e, k + 1, t);
                }
            }
        },
        TyV::Arrow(a, b) => {
            lemma_app_shift(p, e, k, *a);
            lemma_app_shift(p, e, k, *b);
        },
        TyV::Tuple(ts) => lemma_app_list_shift(p, e, k, ts),
        TyV::App(_, ts) => lemma_app_list_shift(p, e, k, ts),
        TyV::Con(_) => {},
    }
}

pub proof fn lemma_app_list_shift(p: Seq<(u32, TyV)>, e: Seq<(u32, TyV)>, k: int, ts: Seq<TyV>)
    requires
        0 <= k,
    ensures
        app_list(p + e, p.len() + k, ts) == app_list(e, k, ts),
    decreases e.len() - k, ts,
{
    if ts.len() > 0 {
        lemma_app_list_shift(p, e, k, ts.drop_last());
        lemma_app_shift(p, e, k, ts.last());
    }
}

/// Reading under `s` followed by `e` is reading under `s`, then under `e`.
pub proof fn lemma_app_compose(s: Seq<(u32, TyV)>, e: Seq<(u32, TyV)>, lo: int, t: TyV)
    requires
        0 <= lo <= s.len(),
    ensures
        app(s + e, lo, t) == app(e, 0, app(s, lo, t)),
    decreases s.len() - lo, t,
{
    let se = s + e;
    match t {
        TyV::Var(v) => {
            if lo < s.len() {
                assert(se[lo] == s[lo]);
                if s[lo].0 == v {
                    lemma_app_compose(s, e, lo + 1, s[lo].1);
                } else {
                    lemma_app_compose(s, e, lo + 1, t);
                }
            } else {
                lemma_app_shift(s, e, 0, t);
            }
        },
        TyV::Arrow(a, b) => {
            lemma_app_compose(s, e, lo, *a);
            lemma_app_compose(s, e, lo, *b);
        },
        TyV::Tuple(ts) => lemma_app_list_compose(s, e, lo, ts),
        TyV::App(_, ts) => lemma_app_list_compose(s, e, lo, ts),
        TyV::Con(_) => {},
    }
}

pub proof fn lemma_app_list_compose(s: Seq<(u32, TyV)>, e: Seq<(u32, TyV)>, lo: int, ts: Seq<TyV>)
    requires
        0 <= lo <= s.len(),
    ensures
        app_list(s + e, lo, ts) == app_list(e, 0, app_list(s, lo, ts)),
    decreases s.len() - lo, ts,
{
    if ts.len() > 0 {
        lemma_app_list_compose(s, e, lo, ts.drop_last());
        lemma_app_compose(s, e, lo, ts.last());
        let r = app_list(s, lo, ts);
        assert(r.drop_last() =~= app_list(s, lo, ts.drop_last()));
    }
}

/// A distinct sequence of variables below `n` has at most `n` of them.
pub proof fn lemma_distinct_below(ks: Seq<u32>, n: nat)
    requires
        ks.no_duplicates(),
        forall|j: int| 0 <= j < ks.len() ==> ks[j] < n,
    ensures
        ks.len() <= n,
{
    let ints = ks.map_values(|x: u32| x as int);
    assert(ints.no_duplicates()) by {
        assert forall|i: int, j: int| 0 <= i < ints.len() && 0 <= j < ints.len() && i != j implies ints[i]
            != ints[j] by {
            assert(ks[i] != ks[j]);
        }
    }
    ints.unique_seq_to_set();
    vstd::set_lib::lemma_int_range(0, n as int);
    assert(ints.to_set().subset_of(vstd::set_lib::set_int_range(0, n as int)));
    vstd::set_lib::lemma_len_subset(ints.to_set(), vstd::set_lib::set_int_range(0, n as int));
}


/// Reading under bindings that mention only variables below `n` keeps a type
/// below `n`.
pub proof fn lemma_app_below(s: Seq<(u32, TyV)>, lo: int, t: TyV, n: nat)
    requires
        forall|j: int| 0 <= j < s.len() ==> below((#[trigger] s[j]).1, n),
        below(t, n),
    ensures
        below(app(s, lo, t), n),
    decreases s.len() - lo, t,
{
    match t {
        TyV::Var(v) => {
            if 0 <= lo < s.len() {
                if s[lo].0 == v {
                    lemma_app_below(s, lo + 1, s[lo].1, n);
                } else {
                    lemma_app_below(s, lo + 1, t, n);
                }
            }
        },
        TyV::Arrow(a, b) => {
            lemma_app_below(s, lo, *a, n);
            lemma_app_below(s, lo, *b, n);
        },
        TyV::Tuple(ts) => lemma_app_list_below(s, lo, ts, n),
        TyV::App(_, ts) => lemma_app_list_below(s, lo, ts, n),
        TyV::Con(_) => {},
    }
}

pub proof fn lemma_app_list_below(s: Seq<(u32, TyV)>, lo: int, ts: Seq<TyV>, n: nat)
    requires
        forall|j: int| 0 <= j < s.len() ==> below((#[trigger] s[j]).1, n),
        below_all(ts, n),
    ensures
        below_all(app_list(s, lo, ts), n),
    decreases s.len() - lo, ts,
{
    if ts.len() > 0 {
        lemma_app_list_below(s, lo, ts.drop_last(), n);
        lemma_app_below(s, lo, ts.last(), n);
        let r = app_list(s, lo, ts);
        assert(r.drop_last() =~= app_list(s, lo, ts.drop_last()));
    }
}

/// A type that avoids `ks` and does not mention `x` avoids `ks` with `x`.
pub proof fn lemma_avoids_push(t: TyV, ks: Seq<u32>, x: u32)
    requires
        avoids(t, ks),
        !occurs_v(x, t),
    ensures
        avoids(t, ks.push(x)),
    decreases t,
{
    match t {
        TyV::Var(v) => {
            assert(!ks.push(x).contains(v)) by {
                if ks.push(x).contains(v) {
                    let k = choose|k: int| 0 <= k < ks.push(x).len() && #[trigger] ks.push(x)[k] == v;
                    if k < ks.len() {
                        assert(ks[k] == v);
                    }
                }
            }
        },
        TyV::Arrow(a, b) => {
            lemma_avoids_push(*a, ks, x);
            lemma_avoids_push(*b, ks, x);
        },
        TyV::Tuple(ts) => lemma_avoids_all_push(ts, ks, x),
        TyV::App(_, ts) => lemma_avoids_all_push(ts, ks, x),
        TyV::Con(_) => {},
    }
}

pub proof fn lemma_avoids_all_push(ts: Seq<TyV>, ks: Seq<u32>, x: u32)
    requires
        avoids_all(ts, ks),
        !occurs_vs(x, ts),
    ensures
        avoids_all(ts, ks.push(x)),
    decreases ts,
{
    if ts.len() > 0 {
        lemma_avoids_all_push(ts.drop_last(), ks, x);
        lemma_avoids_push(ts.last(), ks, x);
    }
}

/// What holds of a list of types holds of each of them.
pub proof fn lemma_list_index(ts: Seq<TyV>, ks: Seq<u32>, n: nat)
    ensures
        avoids_all(ts, ks) ==> forall|i: int| 0 <= i < ts.len() ==> avoids(#[trigger] ts[i], ks),
        below_all(ts, n) ==> forall|i: int| 0 <= i < ts.len() ==> below(#[trigger] ts[i], n),
        forall|i: int| 0 <= i < ts.len() ==> tsize(#[trigger] ts[i]) <= tsizes(ts),
    decreases ts.len(),
{
    if ts.len() > 0 {
        lemma_list_index(ts.drop_last(), ks, n);
        assert forall|i: int| 0 <= i < ts.len() - 1 implies #[trigger] ts[i] == ts.drop_last()[i] by {}
    }
}

/// `app_list` reads each type of the list.
pub proof fn lemma_app_list_index(s: Seq<(u32, TyV)>, lo: int, ts: Seq<TyV>)
    ensures
        app_list(s, lo, ts).len() == ts.len(),
        forall|i: int| 0 <= i < ts.len() ==> #[trigger] app_list(s, lo, ts)[i] == app(s, lo, ts[i]),
    decreases ts.len(),
{
    if ts.len() > 0 {
        lemma_app_list_index(s, lo, ts.drop_last());
        assert forall|i: int| 0 <= i < ts.len() - 1 implies #[trigger] ts[i] == ts.drop_last()[i] by {}
    }
}


/// `v` occurs in a list exactly when it occurs in one of its types.
pub proof fn lemma_occurs_vs_index(v: u32, ts: Seq<TyV>)
    ensures
        occurs_vs(v, ts) == exists|i: int| 0 <= i < ts.len() && occurs_v(v, #[trigger] ts[i]),
    decreases ts.len(),
{
    if ts.len() > 0 {
        lemma_occurs_vs_index(v, ts.drop_last());
        if occurs_vs(v, ts.drop_last()) {
            let i = choose|i: int| 0 <= i < ts.drop_last().len() && occurs_v(v, #[trigger] ts.drop_last()[i]);
            assert(ts[i] == ts.drop_last()[i]);
        }
        if exists|i: int| 0 <= i < ts.len() && occurs_v(v, #[trigger] ts[i]) {
            let i = choose|i: int| 0 <= i < ts.len() && occurs_v(v, #[trigger] ts[i]);
            if i < ts.len() - 1 {
                assert(ts.drop_last()[i] == ts[i]);
            }
        }
    }
}

/// Reading under an acyclic substitution that mentions only variables below
/// `n`: the result has no bound variable, stays below `n`, and reading it
/// again changes nothing.
pub proof fn lemma_resolved(s: Seq<(u32, TyV)>, n: nat, t: TyV)
    requires
        subst_ok(s, n),
        below(t, n),
    ensures
        avoids(app(s, 0, t), keys(s)),
        below(app(s, 0, t), n),
        app(s, 0, app(s, 0, t)) == app(s, 0, t),
{
    lemma_avoids_empty(t, keys(s).take(0));
    lemma_app_resolves(s, 0, t);
    assert forall|j: int| 0 <= j < s.len() implies below((#[trigger] s[j]).1, n) by {}
    lemma_app_below(s, 0, t, n);
    assert(keys(s).skip(0) =~= keys(s));
    lemma_app_avoiding(s, 0, app(s, 0, t));
}


/// The last entry of `m` for `v`.
pub open spec fn lookup_last(m: Seq<(u32, TyV)>, v: u32) -> Option<TyV>
    decreases m.len(),
{
    if m.len() == 0 {
        None
    } else if m.last().0 == v {
        Some(m.last().1)
    } else {
        lookup_last(m.drop_last(), v)
    }
}

/// `t` with each variable that `m` maps replaced by its (last) image, at
/// once and without reading the images again.
pub open spec fn subst_vars(t: TyV, m: Seq<(u32, TyV)>) -> TyV
    decreases t,
{
    match t {
        TyV::Var(v) => match lookup_last(m, v) {
            Some(x) => x,
            None => t,
        },
        TyV::Arrow(a, b) => TyV::Arrow(Box::new(subst_vars(*a, m)), Box::new(subst_vars(*b, m))),
        TyV::Tuple(ts) => TyV::Tuple(subst_vars_list(ts, m)),
        TyV::App(n, ts) => TyV::App(n, subst_vars_list(ts, m)),
        TyV::Con(_) => t,
    }
}

pub open spec fn subst_vars_list(ts: Seq<TyV>, m: Seq<(u32, TyV)>) -> Seq<TyV>
    decreases ts,
{
    if ts.len() == 0 {
        Seq::empty()
    } else {
        subst_vars_list(ts.drop_last(), m).push(subst_vars(ts.last(), m))
    }
}

/// The `i`-th of `vs` mapped to the variable `n + i`.
pub open spec fn fresh_map(vs: Seq<u32>, n: nat) -> Seq<(u32, TyV)> {
    Seq::new(vs.len(), |i: int| (vs[i], TyV::Var((n + i) as u32)))
}


/// What a sequence with one more element contains.
pub proof fn lemma_push_contains(s: Seq<u32>, x: u32, w: u32)
    ensures
        s.push(x).contains(w) == (s.contains(w) || w == x),
{
    if s.push(x).contains(w) {
        let c = choose|c: int| 0 <= c < s.push(x).len() && #[trigger] s.push(x)[c] == w;
        if c < s.len() {
            assert(s[c] == w);
        }
    }
    if s.contains(w) {
        let c = choose|c: int| 0 <= c < s.len() && #[trigger] s[c] == w;
        assert(s.push(x)[c] == w);
    }
    if w == x {
        assert(s.push(x)[s.len() as int] == w);
    }
}

} // verus!

//! Exhaustiveness and redundancy checking of pattern matches, after
//! Maranget's usefulness algorithm ("Warnings for pattern matching", 2007).
//!
//! A pattern vector is useful with respect to a matrix of pattern rows when
//! some value is matched by the vector and by no row. A match is exhaustive
//! when the wildcard is not useful against all its clauses, and a clause is
//! redundant when it is not useful against the clauses before it.
//!
//! A row shorter than the vector it is compared with reads as wildcards in
//! its missing columns; a column with no type description is treated as an
//! open (infinite) domain.
use vstd::prelude::*;
use crate::syntax::ast::{Pat, PatKind};
use crate::text::{clone_string, string_eq};

verus! {

/// A constructor that a simplified pattern can test for.
#[derive(Debug)]
pub enum Constructor {
    Adt(String, u16),
    BoolTrue,
    BoolFalse,
    Unit,
    Nil,
    Cons,
    Tuple(usize),
    IntLit(i64),
    /// A float literal by its text (a leading `-` when negated).
    FloatLit(String),
    StringLit(String),
    CharLit(char),
}

/// The mathematical value of a constructor.
pub enum Ctor {
    Adt(Seq<char>, u16),
    BoolTrue,
    BoolFalse,
    Unit,
    Nil,
    Cons,
    Tuple(usize),
    IntLit(i64),
    FloatLit(Seq<char>),
    StringLit(Seq<char>),
    CharLit(char),
}

impl View for Constructor {
    type V = Ctor;

    open spec fn view(&self) -> Ctor {
        match self {
            Constructor::Adt(n, t) => Ctor::Adt(n@, *t),
            Constructor::BoolTrue => Ctor::BoolTrue,
            Constructor::BoolFalse => Ctor::BoolFalse,
            Constructor::Unit => Ctor::Unit,
            Constructor::Nil => Ctor::Nil,
            Constructor::Cons => Ctor::Cons,
            Constructor::Tuple(n) => Ctor::Tuple(*n),
            Constructor::IntLit(n) => Ctor::IntLit(*n),
            Constructor::FloatLit(s) => Ctor::FloatLit(s@),
            Constructor::StringLit(s) => Ctor::StringLit(s@),
            Constructor::CharLit(c) => Ctor::CharLit(*c),
        }
    }
}

/// A simplified pattern: a wildcard or a constructor applied to sub-patterns.
#[derive(Debug)]
pub enum SPat {
    Wild,
    Con(Constructor, Vec<SPat>),
}

/// The mathematical value of a simplified pattern.
pub enum SP {
    Wild,
    Con(Ctor, Seq<SP>),
}

pub open spec fn sp_of(p: SPat) -> SP
    decreases p, 1nat,
{
    match p {
        SPat::Wild => SP::Wild,
        SPat::Con(c, subs) => SP::Con(c@, sps_of(subs@)),
    }
}

pub open spec fn sps_of(ps: Seq<SPat>) -> Seq<SP>
    decreases ps, 0nat,
{
    if ps.len() == 0 {
        Seq::empty()
    } else {
        sps_of(ps.drop_last()).push(sp_of(ps.last()))
    }
}

/// Information about a type's constructors: all of them with their arities,
/// and whether the type has finitely many.
#[derive(Debug)]
pub struct TypeInfo {
    pub constructors: Vec<(Constructor, usize)>,
    pub is_finite: bool,
}

/// The mathematical value of a type description.
pub struct TI {
    pub ctors: Seq<(Ctor, usize)>,
    pub finite: bool,
}

pub open spec fn ctors_view(cs: Seq<(Constructor, usize)>) -> Seq<(Ctor, usize)> {
    cs.map_values(|p: (Constructor, usize)| (p.0@, p.1))
}

impl View for TypeInfo {
    type V = TI;

    open spec fn view(&self) -> TI {
        TI { ctors: ctors_view(self.constructors@), finite: self.is_finite }
    }
}

pub open spec fn bool_ti() -> TI {
    TI { ctors: seq![(Ctor::BoolTrue, 0usize), (Ctor::BoolFalse, 0usize)], finite: true }
}

pub open spec fn unit_ti() -> TI {
    TI { ctors: seq![(Ctor::Unit, 0usize)], finite: true }
}

pub open spec fn list_ti() -> TI {
    TI { ctors: seq![(Ctor::Nil, 0usize), (Ctor::Cons, 2usize)], finite: true }
}

pub open spec fn tuple_ti(n: usize) -> TI {
    TI { ctors: seq![(Ctor::Tuple(n), n)], finite: true }
}

pub open spec fn infinite_ti() -> TI {
    TI { ctors: Seq::empty(), finite: false }
}

/// The constructors of a declared datatype: each named one gets its position
/// as tag.
pub open spec fn adt_ti(cons: Seq<(Seq<char>, usize)>) -> TI {
    TI {
        ctors: Seq::new(cons.len(), |i: int| (Ctor::Adt(cons[i].0, i as u16), cons[i].1)),
        finite: true,
    }
}

// ── Pattern matrices ─────────────────────────────────────────────────

/// The first column of a row (a wildcard when the row is empty).
pub open spec fn head(r: Seq<SP>) -> SP {
    if r.len() > 0 {
        r[0]
    } else {
        SP::Wild
    }
}

/// A row without its first column.
pub open spec fn tail(r: Seq<SP>) -> Seq<SP> {
    if r.len() > 0 {
        r.drop_first()
    } else {
        r
    }
}

pub open spec fn wilds(n: nat) -> Seq<SP> {
    Seq::new(n, |i: int| SP::Wild)
}

/// The rows matching constructor `c` (of arity `k`), with `c`'s
/// sub-patterns in place of their head; wildcard heads become `k` wildcards.
pub open spec fn specialize(m: Seq<Seq<SP>>, c: Ctor, k: nat) -> Seq<Seq<SP>>
    decreases m.len(),
{
    if m.len() == 0 {
        Seq::empty()
    } else {
        let rest = specialize(m.drop_last(), c, k);
        let r = m.last();
        match head(r) {
            SP::Con(rc, subs) => if rc == c {
                rest.push(subs + tail(r))
            } else {
                rest
            },
            SP::Wild => rest.push(wilds(k) + tail(r)),
        }
    }
}

/// The rows with a wildcard head, without it.
pub open spec fn default_rows(m: Seq<Seq<SP>>) -> Seq<Seq<SP>>
    decreases m.len(),
{
    if m.len() == 0 {
        Seq::empty()
    } else {
        let rest = default_rows(m.drop_last());
        if head(m.last()) is Wild {
            rest.push(tail(m.last()))
        } else {
            rest
        }
    }
}

/// Some row's head is constructor `c`.
pub open spec fn has_head(m: Seq<Seq<SP>>, c: Ctor) -> bool
    decreases m.len(),
{
    if m.len() == 0 {
        false
    } else {
        has_head(m.drop_last(), c) || (head(m.last()) matches SP::Con(rc, _) && rc == c)
    }
}

/// Every constructor of `cs` is the head of some row.
pub open spec fn all_covered(cs: Seq<(Ctor, usize)>, m: Seq<Seq<SP>>) -> bool
    decreases cs.len(),
{
    if cs.len() == 0 {
        true
    } else {
        all_covered(cs.drop_last(), m) && has_head(m, cs.last().0)
    }
}

// ── Sizes ────────────────────────────────────────────────────────────

/// The number of constructor nodes in a pattern.
pub open spec fn size(p: SP) -> nat
    decreases p, 1nat,
{
    match p {
        SP::Wild => 0,
        SP::Con(_, subs) => 1 + size_row(subs),
    }
}

pub open spec fn size_row(r: Seq<SP>) -> nat
    decreases r, 0nat,
{
    if r.len() == 0 {
        0
    } else {
        size_row(r.drop_last()) + size(r.last())
    }
}

pub open spec fn size_matrix(m: Seq<Seq<SP>>) -> nat
    decreases m.len(),
{
    if m.len() == 0 {
        0
    } else {
        size_matrix(m.drop_last()) + size_row(m.last())
    }
}

pub proof fn lemma_size_row_concat(a: Seq<SP>, b: Seq<SP>)
    ensures
        size_row(a + b) == size_row(a) + size_row(b),
    decreases b.len(),
{
    if b.len() == 0 {
        assert(a + b =~= a);
    } else {
        lemma_size_row_concat(a, b.drop_last());
        assert((a + b).drop_last() =~= a + b.drop_last());
    }
}

pub proof fn lemma_size_row_first(r: Seq<SP>)
    ensures
        size_row(r) == size(head(r)) + size_row(tail(r)),
{
    if r.len() > 0 {
        assert(r =~= seq![r[0]] + r.drop_first());
        lemma_size_row_concat(seq![r[0]], r.drop_first());
        assert(seq![r[0]].drop_last() =~= Seq::<SP>::empty());
        assert(size_row(seq![r[0]]) == size_row(Seq::<SP>::empty()) + size(r[0]));
    }
}

pub proof fn lemma_size_wilds(n: nat)
    ensures
        size_row(wilds(n)) == 0,
    decreases n,
{
    if n == 0 {
        assert(wilds(n).len() == 0);
    } else {
        assert(wilds(n).drop_last() =~= wilds((n - 1) as nat));
        assert(wilds(n).last() == SP::Wild);
        lemma_size_wilds((n - 1) as nat);
        assert(size(SP::Wild) == 0);
        assert(size_row(wilds(n)) == size_row(wilds(n).drop_last()) + size(wilds(n).last()));
    }
}

pub proof fn lemma_size_specialize(m: Seq<Seq<SP>>, c: Ctor, k: nat)
    ensures
        size_matrix(specialize(m, c, k)) <= size_matrix(m),
        has_head(m, c) ==> size_matrix(specialize(m, c, k)) < size_matrix(m),
    decreases m.len(),
{
    if m.len() > 0 {
        lemma_size_specialize(m.drop_last(), c, k);
        let rest = specialize(m.drop_last(), c, k);
        let r = m.last();
        lemma_size_row_first(r);
        match head(r) {
            SP::Con(rc, subs) => {
                if rc == c {
                    lemma_size_row_concat(subs, tail(r));
                    assert(rest.push(subs + tail(r)).drop_last() =~= rest);
                }
            },
            SP::Wild => {
                lemma_size_row_concat(wilds(k), tail(r));
                lemma_size_wilds(k);
                assert(rest.push(wilds(k) + tail(r)).drop_last() =~= rest);
            },
        }
    }
}

pub proof fn lemma_size_default(m: Seq<Seq<SP>>)
    ensures
        size_matrix(default_rows(m)) <= size_matrix(m),
    decreases m.len(),
{
    if m.len() > 0 {
        lemma_size_default(m.drop_last());
        lemma_size_row_first(m.last());
        let rest = default_rows(m.drop_last());
        if head(m.last()) is Wild {
            assert(rest.push(tail(m.last())).drop_last() =~= rest);
        }
    }
}

// ── Column descriptions ──────────────────────────────────────────────

/// A datatype's constructor list that names `name`, searching the declared
/// datatypes in order.
pub open spec fn find_datatype(dt: Seq<Seq<(Seq<char>, usize)>>, name: Seq<char>) -> Option<
    Seq<(Seq<char>, usize)>,
>
    decreases dt.len(),
{
    if dt.len() == 0 {
        None
    } else if exists|j: int| 0 <= j < dt[0].len() && #[trigger] dt[0][j].0 == name {
        Some(dt[0])
    } else {
        find_datatype(dt.drop_first(), name)
    }
}

/// The distinct datatype constructors seen in column `col` of the rows, with
/// the number of sub-patterns they were seen with, in order of appearance.
pub open spec fn seen_adts(m: Seq<Seq<SP>>, col: int) -> Seq<(Seq<char>, u16, usize)>
    decreases m.len(),
{
    if m.len() == 0 {
        Seq::empty()
    } else {
        let acc = seen_adts(m.drop_last(), col);
        let r = m.last();
        if 0 <= col < r.len() {
            match r[col] {
                SP::Con(Ctor::Adt(name, tag), subs) => if exists|j: int|
                    0 <= j < acc.len() && #[trigger] acc[j].0 == name && acc[j].1 == tag {
                    acc
                } else {
                    acc.push((name, tag, subs.len() as usize))
                },
                _ => acc,
            }
        } else {
            acc
        }
    }
}

pub open spec fn seen_ti(seen: Seq<(Seq<char>, u16, usize)>) -> TI {
    TI {
        ctors: Seq::new(seen.len(), |i: int| (Ctor::Adt(seen[i].0, seen[i].1), seen[i].2)),
        finite: true,
    }
}

/// The description of the type a constructor belongs to.
pub open spec fn ctor_ti(c: Ctor, m: Seq<Seq<SP>>, col: int, dt: Seq<Seq<(Seq<char>, usize)>>) -> TI {
    match c {
        Ctor::BoolTrue | Ctor::BoolFalse => bool_ti(),
        Ctor::Unit => unit_ti(),
        Ctor::Nil | Ctor::Cons => list_ti(),
        Ctor::Tuple(n) => tuple_ti(n),
        Ctor::Adt(name, _) => match find_datatype(dt, name) {
            Some(cons) => adt_ti(cons),
            None => seen_ti(seen_adts(m, col)),
        },
        _ => infinite_ti(),
    }
}

/// The description of column `col`, read from the first row that has a
/// constructor there (an open domain when none has).
pub open spec fn col_ti_from(m: Seq<Seq<SP>>, i: int, col: int, dt: Seq<Seq<(Seq<char>, usize)>>) -> TI
    decreases m.len() - i,
{
    if i >= m.len() || i < 0 {
        infinite_ti()
    } else if 0 <= col < m[i].len() && m[i][col] is Con {
        ctor_ti(m[i][col]->Con_0, m, col, dt)
    } else {
        col_ti_from(m, i + 1, col, dt)
    }
}

pub open spec fn col_tis(m: Seq<Seq<SP>>, k: nat, dt: Seq<Seq<(Seq<char>, usize)>>) -> Seq<TI> {
    Seq::new(k, |i: int| col_ti_from(m, 0, i, dt))
}

pub open spec fn head_ti(tis: Seq<TI>) -> TI {
    if tis.len() > 0 {
        tis[0]
    } else {
        infinite_ti()
    }
}

pub open spec fn tail_tis(tis: Seq<TI>) -> Seq<TI> {
    if tis.len() > 0 {
        tis.drop_first()
    } else {
        tis
    }
}

// ── Usefulness ───────────────────────────────────────────────────────

/// Whether the pattern vector `q` is useful against the rows `m`, the
/// columns being described by `tis` and the declared datatypes by `dt`.
pub open spec fn useful(m: Seq<Seq<SP>>, q: Seq<SP>, tis: Seq<TI>, dt: Seq<Seq<(Seq<char>, usize)>>) -> bool
    decreases size_matrix(m) + size_row(q), q.len(), 1nat, 0nat,
{
    if q.len() == 0 {
        m.len() == 0
    } else {
        proof {
            lemma_size_row_first(q);
        }
        match q[0] {
            SP::Con(c, subs) => {
                let sm = specialize(m, c, subs.len());
                proof {
                    lemma_size_specialize(m, c, subs.len());
                    lemma_size_row_concat(subs, q.drop_first());
                }
                useful(sm, subs + q.drop_first(), col_tis(sm, subs.len(), dt) + tail_tis(tis), dt)
            },
            SP::Wild => {
                let ti = head_ti(tis);
                if ti.finite && all_covered(ti.ctors, m) {
                    useful_some(m, q, tis, dt, ti.ctors, 0)
                } else {
                    proof {
                        lemma_size_default(m);
                    }
                    useful(default_rows(m), q.drop_first(), tail_tis(tis), dt)
                }
            },
        }
    }
}

/// Whether `q`'s wildcard head, replaced by one of the constructors
/// `cs[i..]`, leaves a useful vector.
pub open spec fn useful_some(
    m: Seq<Seq<SP>>,
    q: Seq<SP>,
    tis: Seq<TI>,
    dt: Seq<Seq<(Seq<char>, usize)>>,
    cs: Seq<(Ctor, usize)>,
    i: int,
) -> bool
    decreases size_matrix(m) + size_row(q), q.len(), 0nat, cs.len() - i,
    when 0 <= i && all_covered(cs, m) && q.len() > 0 && q[0] is Wild
{
    if i >= cs.len() {
        false
    } else {
        let c = cs[i].0;
        let k = cs[i].1 as nat;
        let sm = specialize(m, c, k);
        proof {
            lemma_covered_has_head(cs, m, i);
            lemma_size_specialize(m, c, k);
            lemma_size_row_first(q);
            lemma_size_row_concat(wilds(k), q.drop_first());
            lemma_size_wilds(k);
        }
        useful(sm, wilds(k) + q.drop_first(), col_tis(sm, k, dt) + tail_tis(tis), dt)
            || useful_some(m, q, tis, dt, cs, i + 1)
    }
}

pub proof fn lemma_covered_has_head(cs: Seq<(Ctor, usize)>, m: Seq<Seq<SP>>, i: int)
    requires
        all_covered(cs, m),
        0 <= i < cs.len(),
    ensures
        has_head(m, cs[i].0),
    decreases cs.len(),
{
    if i < cs.len() - 1 {
        assert(cs.drop_last()[i] == cs[i]);
        lemma_covered_has_head(cs.drop_last(), m, i);
    }
}

// ── Laws ─────────────────────────────────────────────────────────────

/// Every column of the row is a wildcard.
pub open spec fn all_wild(r: Seq<SP>) -> bool {
    forall|j: int| 0 <= j < r.len() ==> #[trigger] r[j] is Wild
}

pub proof fn lemma_specialize_keeps_wild(m: Seq<Seq<SP>>, c: Ctor, k: nat, r: Seq<SP>)
    requires
        m.contains(r),
        all_wild(r),
    ensures
        specialize(m, c, k).contains(wilds(k) + tail(r)),
        all_wild(wilds(k) + tail(r)),
    decreases m.len(),
{
    let w = wilds(k) + tail(r);
    assert forall|j: int| 0 <= j < w.len() implies #[trigger] w[j] is Wild by {
        if j >= k {
            assert(w[j] == tail(r)[j - k]);
            assert(tail(r)[j - k] == r[j - k + 1]);
        }
    }
    let last = m.last();
    let rest = specialize(m.drop_last(), c, k);
    if last == r {
        if r.len() > 0 {
            assert(r[0] is Wild);
        }
        assert(specialize(m, c, k) == rest.push(w));
        assert(specialize(m, c, k)[rest.len() as int] == w);
    } else {
        let idx = choose|idx: int| 0 <= idx < m.len() && m[idx] == r;
        assert(idx < m.len() - 1);
        assert(m.drop_last()[idx] == r);
        lemma_specialize_keeps_wild(m.drop_last(), c, k, r);
        let idx2 = choose|idx2: int| 0 <= idx2 < rest.len() && rest[idx2] == w;
        match head(last) {
            SP::Con(rc, subs) => {
                if rc == c {
                    assert(specialize(m, c, k)[idx2] == w);
                } else {
                    assert(specialize(m, c, k)[idx2] == w);
                }
            },
            SP::Wild => {
                assert(specialize(m, c, k)[idx2] == w);
            },
        }
    }
}

pub proof fn lemma_default_keeps_wild(m: Seq<Seq<SP>>, r: Seq<SP>)
    requires
        m.contains(r),
        all_wild(r),
    ensures
        default_rows(m).contains(tail(r)),
        all_wild(tail(r)),
    decreases m.len(),
{
    let t = tail(r);
    assert forall|j: int| 0 <= j < t.len() implies #[trigger] t[j] is Wild by {
        assert(t[j] == r[j + 1]);
    }
    let last = m.last();
    let rest = default_rows(m.drop_last());
    if last == r {
        if r.len() > 0 {
            assert(r[0] is Wild);
        }
        assert(default_rows(m)[rest.len() as int] == t);
    } else {
        let idx = choose|idx: int| 0 <= idx < m.len() && m[idx] == r;
        assert(idx < m.len() - 1);
        assert(m.drop_last()[idx] == r);
        lemma_default_keeps_wild(m.drop_last(), r);
        let idx2 = choose|idx2: int| 0 <= idx2 < rest.len() && rest[idx2] == t;
        assert(default_rows(m)[idx2] == t);
    }
}

/// A row made only of wildcards covers every value: nothing is useful
/// against a matrix that holds one.
pub proof fn lemma_wild_row_not_useful(
    m: Seq<Seq<SP>>,
    q: Seq<SP>,
    tis: Seq<TI>,
    dt: Seq<Seq<(Seq<char>, usize)>>,
    r: Seq<SP>,
)
    requires
        m.contains(r),
        all_wild(r),
    ensures
        !useful(m, q, tis, dt),
    decreases size_matrix(m) + size_row(q), q.len(), 1nat, 0nat,
{
    if q.len() == 0 {
    } else {
        lemma_size_row_first(q);
        match q[0] {
            SP::Con(c, subs) => {
                let sm = specialize(m, c, subs.len());
                lemma_size_specialize(m, c, subs.len());
                lemma_size_row_concat(subs, q.drop_first());
                lemma_specialize_keeps_wild(m, c, subs.len(), r);
                lemma_wild_row_not_useful(
                    sm,
                    subs + q.drop_first(),
                    col_tis(sm, subs.len(), dt) + tail_tis(tis),
                    dt,
                    wilds(subs.len()) + tail(r),
                );
            },
            SP::Wild => {
                let ti = head_ti(tis);
                if ti.finite && all_covered(ti.ctors, m) {
                    lemma_wild_row_not_useful_some(m, q, tis, dt, ti.ctors, 0, r);
                } else {
                    lemma_size_default(m);
                    lemma_default_keeps_wild(m, r);
                    lemma_wild_row_not_useful(
                        default_rows(m),
                        q.drop_first(),
                        tail_tis(tis),
                        dt,
                        tail(r),
                    );
                }
            },
        }
    }
}

pub proof fn lemma_wild_row_not_useful_some(
    m: Seq<Seq<SP>>,
    q: Seq<SP>,
    tis: Seq<TI>,
    dt: Seq<Seq<(Seq<char>, usize)>>,
    cs: Seq<(Ctor, usize)>,
    i: int,
    r: Seq<SP>,
)
    requires
        m.contains(r),
        all_wild(r),
        0 <= i,
        all_covered(cs, m),
        q.len() > 0,
        q[0] is Wild,
    ensures
        !useful_some(m, q, tis, dt, cs, i),
    decreases size_matrix(m) + size_row(q), q.len(), 0nat, cs.len() - i,
{
    if i < cs.len() {
        let c = cs[i].0;
        let k = cs[i].1 as nat;
        let sm = specialize(m, c, k);
        lemma_covered_has_head(cs, m, i);
        lemma_size_specialize(m, c, k);
        lemma_size_row_first(q);
        lemma_size_row_concat(wilds(k), q.drop_first());
        lemma_size_wilds(k);
        lemma_specialize_keeps_wild(m, c, k, r);
        lemma_wild_row_not_useful(
            sm,
            wilds(k) + q.drop_first(),
            col_tis(sm, k, dt) + tail_tis(tis),
            dt,
            wilds(k) + tail(r),
        );
        lemma_wild_row_not_useful_some(m, q, tis, dt, cs, i + 1, r);
    }
}

/// Every described column is inhabited: an open domain or a type with at
/// least one constructor.
pub open spec fn all_inhabited(tis: Seq<TI>) -> bool {
    forall|i: int| 0 <= i < tis.len() ==> !(#[trigger] tis[i]).finite || tis[i].ctors.len() > 0
}

pub proof fn lemma_has_head_empty(c: Ctor)
    ensures
        !has_head(Seq::<Seq<SP>>::empty(), c),
{
}

/// Against no rows at all, every vector is useful as long as every column's
/// type has a value.
pub proof fn lemma_empty_matrix_useful(q: Seq<SP>, tis: Seq<TI>, dt: Seq<Seq<(Seq<char>, usize)>>)
    requires
        all_inhabited(tis),
    ensures
        useful(Seq::empty(), q, tis, dt),
    decreases size_row(q), q.len(),
{
    let m = Seq::<Seq<SP>>::empty();
    if q.len() > 0 {
        lemma_size_row_first(q);
        match q[0] {
            SP::Con(c, subs) => {
                let sm = specialize(m, c, subs.len());
                assert(sm =~= m);
                lemma_size_row_concat(subs, q.drop_first());
                let st = col_tis(sm, subs.len(), dt) + tail_tis(tis);
                assert forall|i: int| 0 <= i < st.len() implies !(#[trigger] st[i]).finite
                    || st[i].ctors.len() > 0 by {
                    if i >= subs.len() {
                        assert(st[i] == tis[i - subs.len() + 1]);
                    }
                }
                lemma_empty_matrix_useful(subs + q.drop_first(), st, dt);
            },
            SP::Wild => {
                let ti = head_ti(tis);
                if ti.finite {
                    assert(ti.ctors.len() > 0);
                    let cs = ti.ctors;
                    assert(!all_covered(cs, m)) by {
                        if all_covered(cs, m) {
                            lemma_covered_has_head(cs, m, 0);
                        }
                    }
                }
                assert(default_rows(m) =~= m);
                let tt = tail_tis(tis);
                assert forall|i: int| 0 <= i < tt.len() implies !(#[trigger] tt[i]).finite
                    || tt[i].ctors.len() > 0 by {
                    assert(tt[i] == tis[i + 1]);
                }
                lemma_empty_matrix_useful(q.drop_first(), tt, dt);
            },
        }
    }
}

// ── Executable checking ──────────────────────────────────────────────

pub open spec fn rows_view(m: Seq<Vec<SPat>>) -> Seq<Seq<SP>> {
    m.map_values(|r: Vec<SPat>| sps_of(r@))
}

pub open spec fn tis_view(tis: Seq<TypeInfo>) -> Seq<TI> {
    tis.map_values(|t: TypeInfo| t@)
}

pub open spec fn dt_view(dt: Seq<(String, Vec<(String, usize)>)>) -> Seq<Seq<(Seq<char>, usize)>> {
    dt.map_values(
        |e: (String, Vec<(String, usize)>)| e.1@.map_values(|p: (String, usize)| (p.0@, p.1)),
    )
}

pub proof fn lemma_sps_of(ps: Seq<SPat>)
    ensures
        sps_of(ps).len() == ps.len(),
        forall|i: int| 0 <= i < ps.len() ==> #[trigger] sps_of(ps)[i] == sp_of(ps[i]),
    decreases ps.len(),
{
    if ps.len() > 0 {
        lemma_sps_of(ps.drop_last());
        assert forall|i: int| 0 <= i < ps.len() implies #[trigger] sps_of(ps)[i] == sp_of(
            ps[i],
        ) by {
            if i < ps.len() - 1 {
                assert(ps.drop_last()[i] == ps[i]);
            }
        }
    }
}

pub proof fn lemma_sps_push(ps: Seq<SPat>, p: SPat)
    ensures
        sps_of(ps.push(p)) == sps_of(ps).push(sp_of(p)),
{
    assert(ps.push(p).drop_last() =~= ps);
}

fn copy_ctor(c: &Constructor) -> (r: Constructor)
    ensures
        r@ == c@,
{
    match c {
        Constructor::Adt(n, t) => Constructor::Adt(clone_string(n), *t),
        Constructor::BoolTrue => Constructor::BoolTrue,
        Constructor::BoolFalse => Constructor::BoolFalse,
        Constructor::Unit => Constructor::Unit,
        Constructor::Nil => Constructor::Nil,
        Constructor::Cons => Constructor::Cons,
        Constructor::Tuple(n) => Constructor::Tuple(*n),
        Constructor::IntLit(n) => Constructor::IntLit(*n),
        Constructor::FloatLit(s) => Constructor::FloatLit(clone_string(s)),
        Constructor::StringLit(s) => Constructor::StringLit(clone_string(s)),
        Constructor::CharLit(c) => Constructor::CharLit(*c),
    }
}

fn ctor_eq(a: &Constructor, b: &Constructor) -> (r: bool)
    ensures
        r == (a@ == b@),
{
    match (a, b) {
        (Constructor::Adt(n1, t1), Constructor::Adt(n2, t2)) => *t1 == *t2 && string_eq(n1, n2),
        (Constructor::BoolTrue, Constructor::BoolTrue) => true,
        (Constructor::BoolFalse, Constructor::BoolFalse) => true,
        (Constructor::Unit, Constructor::Unit) => true,
        (Constructor::Nil, Constructor::Nil) => true,
        (Constructor::Cons, Constructor::Cons) => true,
        (Constructor::Tuple(x), Constructor::Tuple(y)) => *x == *y,
        (Constructor::IntLit(x), Constructor::IntLit(y)) => *x == *y,
        (Constructor::FloatLit(x), Constructor::FloatLit(y)) => string_eq(x, y),
        (Constructor::StringLit(x), Constructor::StringLit(y)) => string_eq(x, y),
        (Constructor::CharLit(x), Constructor::CharLit(y)) => *x == *y,
        _ => false,
    }
}

fn copy_spat(p: &SPat) -> (r: SPat)
    ensures
        sp_of(r) == sp_of(*p),
    decreases *p,
{
    match p {
        SPat::Wild => SPat::Wild,
        SPat::Con(c, subs) => {
            let mut out: Vec<SPat> = Vec::new();
            let mut i: usize = 0;
            while i < subs.len()
                invariant
                    i <= subs@.len(),
                    decreases_to!(*p => subs@),
                    sps_of(out@) == sps_of(subs@.take(i as int)),
                decreases subs@.len() - i,
            {
                proof {
                    assert(subs@.take(i + 1).drop_last() =~= subs@.take(i as int));
                    assert(decreases_to!(subs@ => subs@[i as int]));
                }
                let x = copy_spat(&subs[i]);
                proof {
                    lemma_sps_push(out@, x);
                }
                out.push(x);
                i = i + 1;
            }
            assert(subs@.take(subs@.len() as int) =~= subs@);
            SPat::Con(copy_ctor(c), out)
        },
    }
}

/// Appends copies of `src[from..]` to `out`.
fn extend_from(out: &mut Vec<SPat>, src: &Vec<SPat>, from: usize)
    requires
        from <= src@.len(),
    ensures
        sps_of(final(out)@) == sps_of(old(out)@) + sps_of(src@).subrange(
            from as int,
            src@.len() as int,
        ),
{
    proof {
        lemma_sps_of(src@);
    }
    let ghost start = sps_of(out@);
    let mut i = from;
    while i < src.len()
        invariant
            from <= i <= src@.len(),
            sps_of(src@).len() == src@.len(),
            forall|j: int| 0 <= j < src@.len() ==> #[trigger] sps_of(src@)[j] == sp_of(src@[j]),
            sps_of(out@) == start + sps_of(src@).subrange(from as int, i as int),
        decreases src@.len() - i,
    {
        let x = copy_spat(&src[i]);
        proof {
            lemma_sps_push(out@, x);
            assert(sps_of(src@).subrange(from as int, i + 1) =~= sps_of(src@).subrange(
                from as int,
                i as int,
            ).push(sps_of(src@)[i as int]));
        }
        out.push(x);
        i = i + 1;
    }
}

fn wild_row(k: usize) -> (r: Vec<SPat>)
    ensures
        sps_of(r@) == wilds(k as nat),
{
    let mut out: Vec<SPat> = Vec::new();
    let mut i: usize = 0;
    while i < k
        invariant
            i <= k,
            sps_of(out@) == wilds(i as nat),
        decreases k - i,
    {
        proof {
            lemma_sps_push(out@, SPat::Wild);
            assert(wilds((i + 1) as nat) =~= wilds(i as nat).push(SP::Wild));
        }
        out.push(SPat::Wild);
        i = i + 1;
    }
    out
}

pub proof fn lemma_rows_push(m: Seq<Vec<SPat>>, r: Vec<SPat>)
    ensures
        rows_view(m.push(r)) == rows_view(m).push(sps_of(r@)),
{
    assert(rows_view(m.push(r)) =~= rows_view(m).push(sps_of(r@)));
}

pub proof fn lemma_head_tail(row: Seq<SPat>)
    ensures
        row.len() > 0 ==> head(sps_of(row)) == sp_of(row[0]),
        row.len() > 0 ==> tail(sps_of(row)) == sps_of(row).subrange(1, row.len() as int),
        row.len() == 0 ==> head(sps_of(row)) == SP::Wild && tail(sps_of(row)) == Seq::<SP>::empty(),
{
    lemma_sps_of(row);
    if row.len() > 0 {
        assert(sps_of(row).drop_first() =~= sps_of(row).subrange(1, row.len() as int));
    } else {
        assert(sps_of(row) =~= Seq::<SP>::empty());
    }
}

#[verifier::loop_isolation(false)]
fn specialize_rows(m: &Vec<Vec<SPat>>, c: &Constructor, k: usize) -> (r: Vec<Vec<SPat>>)
    ensures
        rows_view(r@) == specialize(rows_view(m@), c@, k as nat),
{
    let ghost mv = rows_view(m@);
    let mut out: Vec<Vec<SPat>> = Vec::new();
    let mut i: usize = 0;
    while i < m.len()
        invariant
            i <= m@.len(),
            rows_view(out@) == specialize(mv.take(i as int), c@, k as nat),
        decreases m@.len() - i,
    {
        let row = &m[i];
        proof {
            assert(mv.take(i + 1).drop_last() =~= mv.take(i as int));
            assert(mv.take(i + 1).last() == sps_of(row@));
            lemma_head_tail(row@);
            lemma_sps_of(row@);
        }
        if row.len() == 0 {
            let nr = wild_row(k);
            proof {
                lemma_rows_push(out@, nr);
                assert(wilds(k as nat) + Seq::<SP>::empty() =~= wilds(k as nat));
            }
            out.push(nr);
        } else {
            match &row[0] {
                SPat::Con(rc, subs) => {
                    if ctor_eq(rc, c) {
                        let mut nr: Vec<SPat> = Vec::new();
                        extend_from(&mut nr, subs, 0);
                        extend_from(&mut nr, row, 1);
                        proof {
                            lemma_sps_of(subs@);
                            assert(sps_of(Seq::<SPat>::empty()) + sps_of(subs@).subrange(
                                0,
                                subs@.len() as int,
                            ) =~= sps_of(subs@));
                            lemma_rows_push(out@, nr);
                        }
                        out.push(nr);
                    }
                },
                SPat::Wild => {
                    let mut nr = wild_row(k);
                    extend_from(&mut nr, row, 1);
                    proof {
                        lemma_rows_push(out@, nr);
                    }
                    out.push(nr);
                },
            }
        }
        i = i + 1;
    }
    assert(mv.take(m@.len() as int) =~= mv);
    out
}

#[verifier::loop_isolation(false)]
fn default_matrix(m: &Vec<Vec<SPat>>) -> (r: Vec<Vec<SPat>>)
    ensures
        rows_view(r@) == default_rows(rows_view(m@)),
{
    let ghost mv = rows_view(m@);
    let mut out: Vec<Vec<SPat>> = Vec::new();
    let mut i: usize = 0;
    while i < m.len()
        invariant
            i <= m@.len(),
            rows_view(out@) == default_rows(mv.take(i as int)),
        decreases m@.len() - i,
    {
        let row = &m[i];
        proof {
            assert(mv.take(i + 1).drop_last() =~= mv.take(i as int));
            assert(mv.take(i + 1).last() == sps_of(row@));
            lemma_head_tail(row@);
        }
        if row.len() == 0 {
            let nr: Vec<SPat> = Vec::new();
            proof {
                lemma_rows_push(out@, nr);
                assert(sps_of(nr@) =~= Seq::<SP>::empty());
            }
            out.push(nr);
        } else {
            match &row[0] {
                SPat::Con(_, _) => {},
                SPat::Wild => {
                    let mut nr: Vec<SPat> = Vec::new();
                    extend_from(&mut nr, row, 1);
                    proof {
                        assert(sps_of(Seq::<SPat>::empty()) + sps_of(row@).subrange(
                            1,
                            row@.len() as int,
                        ) =~= sps_of(row@).subrange(1, row@.len() as int));
                        lemma_rows_push(out@, nr);
                    }
                    out.push(nr);
                },
            }
        }
        i = i + 1;
    }
    assert(mv.take(m@.len() as int) =~= mv);
    out
}

#[verifier::loop_isolation(false)]
fn has_head_ctor(m: &Vec<Vec<SPat>>, c: &Constructor) -> (r: bool)
    ensures
        r == has_head(rows_view(m@), c@),
{
    let ghost mv = rows_view(m@);
    let mut i: usize = 0;
    while i < m.len()
        invariant
            i <= m@.len(),
            !has_head(mv.take(i as int), c@),
        decreases m@.len() - i,
    {
        let row = &m[i];
        proof {
            assert(mv.take(i + 1).drop_last() =~= mv.take(i as int));
            assert(mv.take(i + 1).last() == sps_of(row@));
            lemma_head_tail(row@);
        }
        if row.len() > 0 {
            if let SPat::Con(rc, _) = &row[0] {
                if ctor_eq(rc, c) {
                    proof {
                        lemma_has_head_prefix(mv, i + 1, c@);
                    }
                    return true;
                }
            }
        }
        i = i + 1;
    }
    assert(mv.take(m@.len() as int) =~= mv);
    false
}

pub proof fn lemma_has_head_prefix(m: Seq<Seq<SP>>, n: int, c: Ctor)
    requires
        0 <= n <= m.len(),
        has_head(m.take(n), c),
    ensures
        has_head(m, c),
    decreases m.len() - n,
{
    if n < m.len() {
        assert(m.take(n + 1).drop_last() =~= m.take(n));
        lemma_has_head_prefix(m, n + 1, c);
    } else {
        assert(m.take(n) =~= m);
    }
}

pub proof fn lemma_covered_prefix(cs: Seq<(Ctor, usize)>, n: int, m: Seq<Seq<SP>>)
    requires
        0 <= n <= cs.len(),
        !all_covered(cs.take(n), m),
    ensures
        !all_covered(cs, m),
    decreases cs.len() - n,
{
    if n < cs.len() {
        assert(cs.take(n + 1).drop_last() =~= cs.take(n));
        lemma_covered_prefix(cs, n + 1, m);
    } else {
        assert(cs.take(n) =~= cs);
    }
}

#[verifier::loop_isolation(false)]
fn covers_all(cs: &Vec<(Constructor, usize)>, m: &Vec<Vec<SPat>>) -> (r: bool)
    ensures
        r == all_covered(ctors_view(cs@), rows_view(m@)),
{
    let ghost cv = ctors_view(cs@);
    let mut i: usize = 0;
    while i < cs.len()
        invariant
            i <= cs@.len(),
            all_covered(cv.take(i as int), rows_view(m@)),
        decreases cs@.len() - i,
    {
        proof {
            assert(cv.take(i + 1).drop_last() =~= cv.take(i as int));
            assert(cv.take(i + 1).last() == cv[i as int]);
        }
        if !has_head_ctor(m, &cs[i].0) {
            proof {
                lemma_covered_prefix(cv, i + 1, rows_view(m@));
            }
            return false;
        }
        i = i + 1;
    }
    assert(cv.take(cs@.len() as int) =~= cv);
    true
}

impl TypeInfo {
    pub fn bool_type() -> (r: Self)
        ensures
            r@ == bool_ti(),
    {
        let r = TypeInfo {
            constructors: vec![(Constructor::BoolTrue, 0), (Constructor::BoolFalse, 0)],
            is_finite: true,
        };
        assert(ctors_view(r.constructors@) =~= bool_ti().ctors);
        r
    }

    pub fn unit_type() -> (r: Self)
        ensures
            r@ == unit_ti(),
    {
        let r = TypeInfo { constructors: vec![(Constructor::Unit, 0)], is_finite: true };
        assert(ctors_view(r.constructors@) =~= unit_ti().ctors);
        r
    }

    pub fn list_type() -> (r: Self)
        ensures
            r@ == list_ti(),
    {
        let r = TypeInfo {
            constructors: vec![(Constructor::Nil, 0), (Constructor::Cons, 2)],
            is_finite: true,
        };
        assert(ctors_view(r.constructors@) =~= list_ti().ctors);
        r
    }

    pub fn tuple_type(arity: usize) -> (r: Self)
        ensures
            r@ == tuple_ti(arity),
    {
        let r = TypeInfo { constructors: vec![(Constructor::Tuple(arity), arity)], is_finite: true };
        assert(ctors_view(r.constructors@) =~= tuple_ti(arity).ctors);
        r
    }

    /// The constructors of a datatype, tagged by position; the type's name
    /// plays no part.
    pub fn adt_type(_type_name: &str, constructors: &Vec<(String, usize)>) -> (r: Self)
        ensures
            r@ == adt_ti(constructors@.map_values(|p: (String, usize)| (p.0@, p.1))),
    {
        let ghost cv = constructors@.map_values(|p: (String, usize)| (p.0@, p.1));
        let mut out: Vec<(Constructor, usize)> = Vec::new();
        let mut i: usize = 0;
        while i < constructors.len()
            invariant
                i <= constructors@.len(),
                cv == constructors@.map_values(|p: (String, usize)| (p.0@, p.1)),
                ctors_view(out@) =~= adt_ti(cv).ctors.take(i as int),
            decreases constructors@.len() - i,
        {
            let (name, arity) = &constructors[i];
            let ghost before = out@;
            out.push((Constructor::Adt(clone_string(name), i as u16), *arity));
            assert(ctors_view(out@) =~= ctors_view(before).push(
                (Ctor::Adt(name@, i as u16), *arity),
            ));
            i = i + 1;
        }
        assert(adt_ti(cv).ctors.take(constructors@.len() as int) =~= adt_ti(cv).ctors);
        TypeInfo { constructors: out, is_finite: true }
    }

    /// An open domain (integers, floats, strings, characters).
    pub fn infinite() -> (r: Self)
        ensures
            r@ == infinite_ti(),
    {
        let r = TypeInfo { constructors: Vec::new(), is_finite: false };
        assert(ctors_view(r.constructors@) =~= infinite_ti().ctors);
        r
    }

    fn copy(&self) -> (r: Self)
        ensures
            r@ == self@,
    {
        let mut out: Vec<(Constructor, usize)> = Vec::new();
        let mut i: usize = 0;
        while i < self.constructors.len()
            invariant
                i <= self.constructors@.len(),
                ctors_view(out@) =~= ctors_view(self.constructors@).take(i as int),
            decreases self.constructors@.len() - i,
        {
            let (c, k) = &self.constructors[i];
            let ghost before = out@;
            out.push((copy_ctor(c), *k));
            assert(ctors_view(out@) =~= ctors_view(before).push((c@, *k)));
            i = i + 1;
        }
        assert(ctors_view(self.constructors@).take(self.constructors@.len() as int) =~= ctors_view(
            self.constructors@,
        ));
        TypeInfo { constructors: out, is_finite: self.is_finite }
    }
}

/// The index of the first declared datatype with a constructor called `name`.
#[verifier::loop_isolation(false)]
fn find_datatype_index(dt: &Vec<(String, Vec<(String, usize)>)>, name: &String) -> (r: Option<
    usize,
>)
    ensures
        match (r, find_datatype(dt_view(dt@), name@)) {
            (Some(i), Some(cons)) => i < dt@.len() && dt_view(dt@)[i as int] == cons,
            (None, None) => true,
            _ => false,
        },
{
    let ghost dv = dt_view(dt@);
    let mut i: usize = 0;
    assert(dv.subrange(0, dv.len() as int) =~= dv);
    while i < dt.len()
        invariant
            i <= dt@.len(),
            dv.len() == dt@.len(),
            find_datatype(dv, name@) == find_datatype(dv.subrange(i as int, dv.len() as int), name@),
        decreases dt@.len() - i,
    {
        let ghost rest = dv.subrange(i as int, dv.len() as int);
        assert(rest.drop_first() =~= dv.subrange(i + 1, dv.len() as int));
        let cons = &dt[i].1;
        let ghost cv = dv[i as int];
        assert(rest[0] == cv);
        let mut j: usize = 0;
        let mut found = false;
        while j < cons.len() && !found
            invariant
                j <= cons@.len(),
                cv.len() == cons@.len(),
                cv == cons@.map_values(|p: (String, usize)| (p.0@, p.1)),
                found ==> j < cons@.len() && cv[j as int].0 == name@,
                !found ==> forall|jj: int| 0 <= jj < j ==> cv[jj].0 != name@,
            decreases cons@.len() - j, if found { 0int } else { 1int },
        {
            if string_eq(&cons[j].0, name) {
                found = true;
            } else {
                j = j + 1;
            }
        }
        if found {
            assert(cv[j as int].0 == name@);
            return Some(i);
        }
        assert(!(exists|jj: int| 0 <= jj < cv.len() && #[trigger] cv[jj].0 == name@));
        i = i + 1;
    }
    None
}

pub open spec fn seen_view(v: Seq<(String, u16, usize)>) -> Seq<(Seq<char>, u16, usize)> {
    v.map_values(|e: (String, u16, usize)| (e.0@, e.1, e.2))
}

/// The distinct datatype constructors in column `col`, as a finite type.
#[verifier::loop_isolation(false)]
fn seen_info(m: &Vec<Vec<SPat>>, col: usize) -> (r: TypeInfo)
    ensures
        r@ == seen_ti(seen_adts(rows_view(m@), col as int)),
{
    let ghost mv = rows_view(m@);
    let mut acc: Vec<(String, u16, usize)> = Vec::new();
    let mut i: usize = 0;
    while i < m.len()
        invariant
            i <= m@.len(),
            seen_view(acc@) == seen_adts(mv.take(i as int), col as int),
        decreases m@.len() - i,
    {
        let row = &m[i];
        proof {
            assert(mv.take(i + 1).drop_last() =~= mv.take(i as int));
            assert(mv.take(i + 1).last() == sps_of(row@));
            lemma_sps_of(row@);
        }
        if col < row.len() {
            if let SPat::Con(Constructor::Adt(name, tag), subs) = &row[col] {
                proof {
                    lemma_sps_of(subs@);
                }
                let ghost av = seen_view(acc@);
                let mut j: usize = 0;
                let mut dup = false;
                while j < acc.len() && !dup
                    invariant
                        j <= acc@.len(),
                        av == seen_view(acc@),
                        dup ==> j < acc@.len() && av[j as int].0 == name@ && av[j as int].1 == *tag,
                        !dup ==> forall|jj: int|
                            0 <= jj < j ==> !(av[jj].0 == name@ && av[jj].1 == *tag),
                    decreases acc@.len() - j, if dup { 0int } else { 1int },
                {
                    if acc[j].1 == *tag && string_eq(&acc[j].0, name) {
                        dup = true;
                    } else {
                        j = j + 1;
                    }
                }
                if !dup {
                    assert(!(exists|jj: int|
                        0 <= jj < av.len() && #[trigger] av[jj].0 == name@ && av[jj].1 == *tag));
                    let ghost before = acc@;
                    acc.push((clone_string(name), *tag, subs.len()));
                    assert(seen_view(acc@) =~= seen_view(before).push((name@, *tag, subs@.len() as usize)));
                } else {
                    assert(av[j as int].0 == name@ && av[j as int].1 == *tag);
                }
            }
        }
        i = i + 1;
    }
    assert(mv.take(m@.len() as int) =~= mv);
    let ghost sv = seen_view(acc@);
    let mut out: Vec<(Constructor, usize)> = Vec::new();
    let mut k: usize = 0;
    while k < acc.len()
        invariant
            k <= acc@.len(),
            sv == seen_view(acc@),
            ctors_view(out@) =~= seen_ti(sv).ctors.take(k as int),
        decreases acc@.len() - k,
    {
        let (name, tag, arity) = &acc[k];
        let ghost before = out@;
        out.push((Constructor::Adt(clone_string(name), *tag), *arity));
        assert(ctors_view(out@) =~= ctors_view(before).push((Ctor::Adt(name@, *tag), *arity)));
        k = k + 1;
    }
    assert(seen_ti(sv).ctors.take(acc@.len() as int) =~= seen_ti(sv).ctors);
    TypeInfo { constructors: out, is_finite: true }
}

fn ctor_info(
    c: &Constructor,
    m: &Vec<Vec<SPat>>,
    col: usize,
    dt: &Vec<(String, Vec<(String, usize)>)>,
) -> (r: TypeInfo)
    ensures
        r@ == ctor_ti(c@, rows_view(m@), col as int, dt_view(dt@)),
{
    match c {
        Constructor::BoolTrue | Constructor::BoolFalse => TypeInfo::bool_type(),
        Constructor::Unit => TypeInfo::unit_type(),
        Constructor::Nil | Constructor::Cons => TypeInfo::list_type(),
        Constructor::Tuple(n) => TypeInfo::tuple_type(*n),
        Constructor::Adt(name, _) => match find_datatype_index(dt, name) {
            Some(i) => TypeInfo::adt_type("", &dt[i].1),
            None => seen_info(m, col),
        },
        _ => TypeInfo::infinite(),
    }
}

#[verifier::loop_isolation(false)]
fn column_info(m: &Vec<Vec<SPat>>, col: usize, dt: &Vec<(String, Vec<(String, usize)>)>) -> (r:
    TypeInfo)
    ensures
        r@ == col_ti_from(rows_view(m@), 0, col as int, dt_view(dt@)),
{
    let ghost mv = rows_view(m@);
    let mut i: usize = 0;
    while i < m.len()
        invariant
            i <= m@.len(),
            mv.len() == m@.len(),
            col_ti_from(mv, 0, col as int, dt_view(dt@)) == col_ti_from(
                mv,
                i as int,
                col as int,
                dt_view(dt@),
            ),
        decreases m@.len() - i,
    {
        let row = &m[i];
        proof {
            lemma_sps_of(row@);
            assert(mv[i as int] == sps_of(row@));
        }
        if col < row.len() {
            if let SPat::Con(c, _) = &row[col] {
                return ctor_info(c, m, col, dt);
            }
        }
        i = i + 1;
    }
    TypeInfo::infinite()
}

/// The descriptions of the first `k` columns of `m`, then those of `tis`
/// after its first.
#[verifier::loop_isolation(false)]
fn shifted_infos(
    m: &Vec<Vec<SPat>>,
    k: usize,
    dt: &Vec<(String, Vec<(String, usize)>)>,
    tis: &Vec<TypeInfo>,
) -> (r: Vec<TypeInfo>)
    ensures
        tis_view(r@) == col_tis(rows_view(m@), k as nat, dt_view(dt@)) + tail_tis(tis_view(tis@)),
{
    let mut out: Vec<TypeInfo> = Vec::new();
    let mut i: usize = 0;
    while i < k
        invariant
            i <= k,
            tis_view(out@) =~= col_tis(rows_view(m@), k as nat, dt_view(dt@)).take(i as int),
        decreases k - i,
    {
        let ti = column_info(m, i, dt);
        let ghost before = out@;
        out.push(ti);
        assert(tis_view(out@) =~= tis_view(before).push(ti@));
        i = i + 1;
    }
    let mut j: usize = 1;
    let ghost tv = tis_view(tis@);
    while j < tis.len()
        invariant
            1 <= j <= tis@.len() || (tis@.len() == 0 && j == 1),
            tv == tis_view(tis@),
            tis_view(out@) =~= col_tis(rows_view(m@), k as nat, dt_view(dt@)) + tv.subrange(
                if tv.len() > 0 { 1 } else { 0 },
                if tv.len() > 0 { j as int } else { 0 },
            ),
        decreases tis@.len() - j,
    {
        let ti = tis[j].copy();
        let ghost before = out@;
        out.push(ti);
        assert(tis_view(out@) =~= tis_view(before).push(ti@));
        j = j + 1;
    }
    proof {
        if tv.len() > 0 {
            assert(tail_tis(tv) =~= tv.subrange(1, tv.len() as int));
        } else {
            assert(tail_tis(tv) =~= tv.subrange(0, 0));
        }
    }
    out
}

/// Whether `q` is useful against the rows `m`.
#[verifier::loop_isolation(false)]
fn is_useful(
    m: &Vec<Vec<SPat>>,
    q: &Vec<SPat>,
    tis: &Vec<TypeInfo>,
    dt: &Vec<(String, Vec<(String, usize)>)>,
) -> (r: bool)
    ensures
        r == useful(rows_view(m@), sps_of(q@), tis_view(tis@), dt_view(dt@)),
    decreases size_matrix(rows_view(m@)) + size_row(sps_of(q@)), q@.len(), 1nat, 0nat,
{
    let ghost mv = rows_view(m@);
    let ghost qv = sps_of(q@);
    let ghost tv = tis_view(tis@);
    let ghost dv = dt_view(dt@);
    proof {
        lemma_sps_of(q@);
    }
    if q.len() == 0 {
        return m.len() == 0;
    }
    proof {
        lemma_size_row_first(qv);
        lemma_head_tail(q@);
    }
    match &q[0] {
        SPat::Con(c, subs) => {
            let k = subs.len();
            proof {
                lemma_sps_of(subs@);
            }
            let sm = specialize_rows(m, c, k);
            let mut sq: Vec<SPat> = Vec::new();
            extend_from(&mut sq, subs, 0);
            extend_from(&mut sq, q, 1);
            let st = shifted_infos(&sm, k, dt, tis);
            proof {
                assert(sps_of(subs@).subrange(0, subs@.len() as int) =~= sps_of(subs@));
                assert(Seq::<SP>::empty() + sps_of(subs@) =~= sps_of(subs@));
                assert(sps_of(sq@) == sps_of(subs@) + qv.drop_first());
                lemma_size_specialize(mv, c@, k as nat);
                lemma_size_row_concat(sps_of(subs@), qv.drop_first());
            }
            is_useful(&sm, &sq, &st, dt)
        },
        SPat::Wild => {
            let covered = tis.len() > 0 && tis[0].is_finite && covers_all(&tis[0].constructors, m);
            if covered {
                let cs = &tis[0].constructors;
                let ghost cv = ctors_view(cs@);
                assert(head_ti(tv) == tis[0]@);
                let mut i: usize = 0;
                while i < cs.len()
                    invariant
                        i <= cs@.len(),
                        all_covered(cv, mv),
                        cv == ctors_view(cs@),
                        useful(mv, qv, tv, dv) == useful_some(mv, qv, tv, dv, cv, i as int),
                    decreases cs@.len() - i,
                {
                    let (c, k) = &cs[i];
                    let sm = specialize_rows(m, c, *k);
                    let mut sq = wild_row(*k);
                    extend_from(&mut sq, q, 1);
                    let st = shifted_infos(&sm, *k, dt, tis);
                    proof {
                        assert(cv[i as int] == (c@, *k));
                        lemma_covered_has_head(cv, mv, i as int);
                        lemma_size_specialize(mv, c@, *k as nat);
                        lemma_size_row_concat(wilds(*k as nat), qv.drop_first());
                        lemma_size_wilds(*k as nat);
                    }
                    if is_useful(&sm, &sq, &st, dt) {
                        return true;
                    }
                    i = i + 1;
                }
                false
            } else {
                let dm = default_matrix(m);
                let mut dq: Vec<SPat> = Vec::new();
                extend_from(&mut dq, q, 1);
                let empty: Vec<Vec<SPat>> = Vec::new();
                let dtis = shifted_infos(&empty, 0, dt, tis);
                proof {
                    assert(sps_of(Seq::<SPat>::empty()) =~= Seq::<SP>::empty());
                    assert(Seq::<SP>::empty() + qv.subrange(1, q@.len() as int) =~= qv.drop_first());
                    assert(sps_of(dq@) == qv.drop_first());
                    lemma_sps_of(dq@);
                    assert(size(head(qv)) == 0);
                    assert(col_tis(rows_view(empty@), 0, dv) + tail_tis(tv) =~= tail_tis(tv));
                    if tis@.len() > 0 {
                        assert(head_ti(tv) == tis[0]@);
                    }
                    lemma_size_default(mv);
                }
                is_useful(&dm, &dq, &dtis, dt)
            }
        },
    }
}

// ── From surface patterns ───────────────────────────────────────────

/// The tag of the first constructor called `name` (0 when none is).
pub open spec fn tag_of(tags: Seq<(Seq<char>, u16)>, name: Seq<char>) -> u16
    decreases tags.len(),
{
    if tags.len() == 0 {
        0
    } else if tags[0].0 == name {
        tags[0].1
    } else {
        tag_of(tags.drop_first(), name)
    }
}

/// The simplified form of a surface pattern: variables become wildcards,
/// literals and constructors become constructor tests, a list literal
/// becomes nested conses ending in nil, and `as`, parentheses and type
/// annotations are looked through.
pub open spec fn spat_of(p: Pat, tags: Seq<(Seq<char>, u16)>) -> SP
    decreases p, 1nat,
{
    match p.kind {
        PatKind::Wildcard | PatKind::Var(_) => SP::Wild,
        PatKind::BoolLit(b) => SP::Con(
            if b {
                Ctor::BoolTrue
            } else {
                Ctor::BoolFalse
            },
            Seq::empty(),
        ),
        PatKind::Unit => SP::Con(Ctor::Unit, Seq::empty()),
        PatKind::IntLit(n) => SP::Con(Ctor::IntLit(n), Seq::empty()),
        PatKind::FloatLit(t) => SP::Con(Ctor::FloatLit(t@), Seq::empty()),
        PatKind::StringLit(s) => SP::Con(Ctor::StringLit(s@), Seq::empty()),
        PatKind::CharLit(c) => SP::Con(Ctor::CharLit(c), Seq::empty()),
        PatKind::Constructor(name, payload) => SP::Con(
            Ctor::Adt(name@, tag_of(tags, name@)),
            match payload {
                Some(q) => seq![spat_of(*q, tags)],
                None => Seq::empty(),
            },
        ),
        PatKind::Tuple(ps) => SP::Con(Ctor::Tuple(ps@.len() as usize), spats_of(ps@, tags)),
        PatKind::Cons(hd, tl) => SP::Con(Ctor::Cons, seq![spat_of(*hd, tags), spat_of(*tl, tags)]),
        PatKind::List(ps) => list_spat(ps@, tags),
        PatKind::Ann(q, _) => spat_of(*q, tags),
        PatKind::As(_, q) => spat_of(*q, tags),
        PatKind::Paren(q) => spat_of(*q, tags),
    }
}

pub open spec fn spats_of(ps: Seq<Pat>, tags: Seq<(Seq<char>, u16)>) -> Seq<SP>
    decreases ps, 0nat,
{
    if ps.len() == 0 {
        Seq::empty()
    } else {
        spats_of(ps.drop_last(), tags).push(spat_of(ps.last(), tags))
    }
}

pub open spec fn list_spat(ps: Seq<Pat>, tags: Seq<(Seq<char>, u16)>) -> SP
    decreases ps, 0nat,
{
    if ps.len() == 0 {
        SP::Con(Ctor::Nil, Seq::empty())
    } else {
        SP::Con(Ctor::Cons, seq![spat_of(ps[0], tags), list_spat(ps.drop_first(), tags)])
    }
}

pub open spec fn tags_view(tags: Seq<(String, u16)>) -> Seq<(Seq<char>, u16)> {
    tags.map_values(|p: (String, u16)| (p.0@, p.1))
}

#[verifier::loop_isolation(false)]
fn tag_for(tags: &Vec<(String, u16)>, name: &String) -> (r: u16)
    ensures
        r == tag_of(tags_view(tags@), name@),
{
    let ghost tv = tags_view(tags@);
    let mut i: usize = 0;
    assert(tv.subrange(0, tv.len() as int) =~= tv);
    while i < tags.len()
        invariant
            i <= tags@.len(),
            tv.len() == tags@.len(),
            tag_of(tv, name@) == tag_of(tv.subrange(i as int, tv.len() as int), name@),
        decreases tags@.len() - i,
    {
        let ghost rest = tv.subrange(i as int, tv.len() as int);
        assert(rest.drop_first() =~= tv.subrange(i + 1, tv.len() as int));
        assert(rest[0] == tv[i as int]);
        if string_eq(&tags[i].0, name) {
            return tags[i].1;
        }
        i = i + 1;
    }
    0
}

pub proof fn lemma_sps_one(a: SPat)
    ensures
        sps_of(seq![a]) == seq![sp_of(a)],
{
    assert(seq![a] =~= Seq::<SPat>::empty().push(a));
    lemma_sps_push(Seq::<SPat>::empty(), a);
    assert(sps_of(Seq::<SPat>::empty()) =~= Seq::<SP>::empty());
    assert(Seq::<SP>::empty().push(sp_of(a)) =~= seq![sp_of(a)]);
}

pub proof fn lemma_sps_two(a: SPat, b: SPat)
    ensures
        sps_of(seq![a, b]) == seq![sp_of(a), sp_of(b)],
{
    lemma_sps_one(a);
    assert(seq![a, b] =~= seq![a].push(b));
    lemma_sps_push(seq![a], b);
    assert(seq![sp_of(a)].push(sp_of(b)) =~= seq![sp_of(a), sp_of(b)]);
}

fn one(p: SPat) -> (r: Vec<SPat>)
    ensures
        sps_of(r@) == seq![sp_of(p)],
{
    let ghost pp = p;
    let v = vec![p];
    proof {
        assert(v@ =~= seq![pp]);
        lemma_sps_one(pp);
    }
    v
}

#[verifier::loop_isolation(false)]
fn simplify_pat(pat: &Pat, tags: &Vec<(String, u16)>) -> (r: SPat)
    ensures
        sp_of(r) == spat_of(*pat, tags_view(tags@)),
    decreases *pat,
{
    let ghost tv = tags_view(tags@);
    proof {
        assert(decreases_to!(*pat => pat.kind));
    }
    match &pat.kind {
        PatKind::Wildcard | PatKind::Var(_) => SPat::Wild,
        PatKind::BoolLit(b) => {
            let c = if *b {
                Constructor::BoolTrue
            } else {
                Constructor::BoolFalse
            };
            let r = SPat::Con(c, Vec::new());
            assert(sps_of(Seq::<SPat>::empty()) =~= Seq::<SP>::empty());
            r
        },
        PatKind::Unit => {
            assert(sps_of(Seq::<SPat>::empty()) =~= Seq::<SP>::empty());
            SPat::Con(Constructor::Unit, Vec::new())
        },
        PatKind::IntLit(n) => {
            assert(sps_of(Seq::<SPat>::empty()) =~= Seq::<SP>::empty());
            SPat::Con(Constructor::IntLit(*n), Vec::new())
        },
        PatKind::FloatLit(t) => {
            assert(sps_of(Seq::<SPat>::empty()) =~= Seq::<SP>::empty());
            SPat::Con(Constructor::FloatLit(clone_string(t)), Vec::new())
        },
        PatKind::StringLit(s) => {
            assert(sps_of(Seq::<SPat>::empty()) =~= Seq::<SP>::empty());
            SPat::Con(Constructor::StringLit(clone_string(s)), Vec::new())
        },
        PatKind::CharLit(c) => {
            assert(sps_of(Seq::<SPat>::empty()) =~= Seq::<SP>::empty());
            SPat::Con(Constructor::CharLit(*c), Vec::new())
        },
        PatKind::Constructor(name, payload) => {
            let tag = tag_for(tags, name);
            let subs = match payload {
                Some(q) => one(simplify_pat(q, tags)),
                None => {
                    assert(sps_of(Seq::<SPat>::empty()) =~= Seq::<SP>::empty());
                    Vec::new()
                },
            };
            SPat::Con(Constructor::Adt(clone_string(name), tag), subs)
        },
        PatKind::Tuple(ps) => {
            proof {
                assert(decreases_to!(pat.kind => pat.kind->Tuple_0));
                assert(decreases_to!(pat.kind->Tuple_0 => ps@));
            }
            let mut subs: Vec<SPat> = Vec::new();
            let mut i: usize = 0;
            while i < ps.len()
                invariant
                    i <= ps@.len(),
                    sps_of(subs@) == spats_of(ps@.take(i as int), tv),
                decreases ps@.len() - i,
            {
                proof {
                    assert(ps@.take(i + 1).drop_last() =~= ps@.take(i as int));
                    assert(decreases_to!(ps@ => ps@[i as int]));
                }
                let x = simplify_pat(&ps[i], tags);
                proof {
                    lemma_sps_push(subs@, x);
                }
                subs.push(x);
                i = i + 1;
            }
            assert(ps@.take(ps@.len() as int) =~= ps@);
            SPat::Con(Constructor::Tuple(ps.len()), subs)
        },
        PatKind::Cons(hd, tl) => {
            let h = simplify_pat(hd, tags);
            let t = simplify_pat(tl, tags);
            let v = vec![h, t];
            proof {
                lemma_sps_two(h, t);
            }
            SPat::Con(Constructor::Cons, v)
        },
        PatKind::List(ps) => {
            proof {
                assert(decreases_to!(pat.kind => pat.kind->List_0));
                assert(decreases_to!(pat.kind->List_0 => ps@));
                assert(sps_of(Seq::<SPat>::empty()) =~= Seq::<SP>::empty());
                assert(ps@.subrange(ps@.len() as int, ps@.len() as int) =~= Seq::<Pat>::empty());
            }
            let mut result = SPat::Con(Constructor::Nil, Vec::new());
            let mut i: usize = ps.len();
            while i > 0
                invariant
                    i <= ps@.len(),
                    sp_of(result) == list_spat(ps@.subrange(i as int, ps@.len() as int), tv),
                decreases i,
            {
                proof {
                    assert(decreases_to!(ps@ => ps@[i - 1]));
                    let s1 = ps@.subrange(i - 1, ps@.len() as int);
                    assert(s1[0] == ps@[i - 1]);
                    assert(s1.drop_first() =~= ps@.subrange(i as int, ps@.len() as int));
                }
                let x = simplify_pat(&ps[i - 1], tags);
                let ghost old_result = result;
                let v = vec![x, result];
                proof {
                    lemma_sps_two(x, old_result);
                }
                result = SPat::Con(Constructor::Cons, v);
                i = i - 1;
            }
            assert(ps@.subrange(0, ps@.len() as int) =~= ps@);
            result
        },
        PatKind::Ann(q, _) => simplify_pat(q, tags),
        PatKind::As(_, q) => simplify_pat(q, tags),
        PatKind::Paren(q) => simplify_pat(q, tags),
    }
}

// ── Checking a match ─────────────────────────────────────────────────

/// The outcome of checking a case expression.
#[derive(Debug)]
pub struct CheckResult {
    /// True if the match is exhaustive.
    pub exhaustive: bool,
    /// Indices of redundant clauses (0-based), in increasing order.
    pub redundant_clauses: Vec<usize>,
}

/// The clause matrix: one single-column row per clause.
pub open spec fn clause_rows(pats: Seq<Pat>, tags: Seq<(Seq<char>, u16)>) -> Seq<Seq<SP>> {
    Seq::new(pats.len(), |i: int| seq![spat_of(pats[i], tags)])
}

/// The match is exhaustive: the wildcard is not useful against all clauses.
pub open spec fn match_exhaustive(rows: Seq<Seq<SP>>, ti: TI, dt: Seq<Seq<(Seq<char>, usize)>>) -> bool {
    !useful(rows, seq![SP::Wild], seq![ti], dt)
}

/// Clause `i` is redundant: it is not useful against the clauses before it.
pub open spec fn clause_redundant(
    rows: Seq<Seq<SP>>,
    i: int,
    ti: TI,
    dt: Seq<Seq<(Seq<char>, usize)>>,
) -> bool {
    !useful(rows.take(i), rows[i], seq![ti], dt)
}

/// The redundant clauses among the first `n`, in increasing order.
pub open spec fn redundant_upto(
    rows: Seq<Seq<SP>>,
    n: nat,
    ti: TI,
    dt: Seq<Seq<(Seq<char>, usize)>>,
) -> Seq<usize>
    decreases n,
{
    if n == 0 {
        Seq::empty()
    } else {
        let prev = redundant_upto(rows, (n - 1) as nat, ti, dt);
        if clause_redundant(rows, n - 1, ti, dt) {
            prev.push((n - 1) as usize)
        } else {
            prev
        }
    }
}

pub open spec fn pats_of(ps: Seq<&Pat>) -> Seq<Pat> {
    ps.map_values(|p: &Pat| *p)
}

/// Checks a match's clauses for exhaustiveness and redundancy, given the
/// scrutinee's type description, the constructor tags, and the declared
/// datatypes with their constructors and arities.
#[verifier::loop_isolation(false)]
pub fn check_match(
    patterns: &[&Pat],
    type_info: &TypeInfo,
    con_tags: &Vec<(String, u16)>,
    dt_constructors: &Vec<(String, Vec<(String, usize)>)>,
) -> (r: CheckResult)
    ensures
        r.exhaustive == match_exhaustive(
            clause_rows(pats_of(patterns@), tags_view(con_tags@)),
            type_info@,
            dt_view(dt_constructors@),
        ),
        r.redundant_clauses@ == redundant_upto(
            clause_rows(pats_of(patterns@), tags_view(con_tags@)),
            patterns@.len(),
            type_info@,
            dt_view(dt_constructors@),
        ),
{
    let ghost tv = tags_view(con_tags@);
    let ghost rows = clause_rows(pats_of(patterns@), tv);
    let ghost dv = dt_view(dt_constructors@);
    let mut matrix: Vec<Vec<SPat>> = Vec::new();
    let mut i: usize = 0;
    while i < patterns.len()
        invariant
            i <= patterns@.len(),
            rows_view(matrix@) =~= rows.take(i as int),
        decreases patterns@.len() - i,
    {
        let p = simplify_pat(patterns[i], con_tags);
        let row = one(p);
        proof {
            lemma_rows_push(matrix@, row);
        }
        matrix.push(row);
        i = i + 1;
    }
    assert(rows.take(patterns@.len() as int) =~= rows);
    let wildcard = one(SPat::Wild);
    let infos = vec![type_info.copy()];
    assert(tis_view(infos@) =~= seq![type_info@]);
    let exhaustive = !is_useful(&matrix, &wildcard, &infos, dt_constructors);
    let mut redundant_clauses: Vec<usize> = Vec::new();
    let mut preceding: Vec<Vec<SPat>> = Vec::new();
    let mut j: usize = 0;
    while j < matrix.len()
        invariant
            j <= matrix@.len(),
            matrix@.len() == patterns@.len(),
            rows_view(matrix@) == rows,
            rows_view(preceding@) =~= rows.take(j as int),
            redundant_clauses@ == redundant_upto(rows, j as nat, type_info@, dv),
        decreases matrix@.len() - j,
    {
        let row = &matrix[j];
        assert(sps_of(row@) == rows[j as int]);
        if !is_useful(&preceding, row, &infos, dt_constructors) {
            redundant_clauses.push(j);
        }
        let mut copy: Vec<SPat> = Vec::new();
        extend_from(&mut copy, row, 0);
        proof {
            lemma_sps_of(row@);
            assert(sps_of(Seq::<SPat>::empty()) + sps_of(row@).subrange(0, row@.len() as int)
                =~= sps_of(row@));
            lemma_rows_push(preceding@, copy);
        }
        preceding.push(copy);
        j = j + 1;
    }
    CheckResult { exhaustive, redundant_clauses }
}

/// A match with a clause that binds or ignores the whole value (a wildcard
/// or a variable, possibly under `as`, parentheses or an annotation) is
/// exhaustive.
pub proof fn law_catch_all_clause_exhaustive(
    pats: Seq<Pat>,
    tags: Seq<(Seq<char>, u16)>,
    ti: TI,
    dt: Seq<Seq<(Seq<char>, usize)>>,
    j: int,
)
    requires
        0 <= j < pats.len(),
        spat_of(pats[j], tags) is Wild,
    ensures
        match_exhaustive(clause_rows(pats, tags), ti, dt),
{
    let rows = clause_rows(pats, tags);
    assert(rows[j] == seq![SP::Wild]);
    assert(all_wild(rows[j]));
    lemma_wild_row_not_useful(rows, seq![SP::Wild], seq![ti], dt, rows[j]);
}

/// Every clause after a catch-all clause is redundant.
pub proof fn law_clauses_after_catch_all_redundant(
    pats: Seq<Pat>,
    tags: Seq<(Seq<char>, u16)>,
    ti: TI,
    dt: Seq<Seq<(Seq<char>, usize)>>,
    j: int,
    i: int,
)
    requires
        0 <= j < i < pats.len(),
        spat_of(pats[j], tags) is Wild,
    ensures
        clause_redundant(clause_rows(pats, tags), i, ti, dt),
{
    let rows = clause_rows(pats, tags);
    assert(rows.take(i)[j] == rows[j]);
    assert(all_wild(rows[j]));
    lemma_wild_row_not_useful(rows.take(i), rows[i], seq![ti], dt, rows[j]);
}

/// The first clause is never redundant, provided the scrutinee's type has a
/// value (it is an open domain or has a constructor).
pub proof fn law_first_clause_not_redundant(
    pats: Seq<Pat>,
    tags: Seq<(Seq<char>, u16)>,
    ti: TI,
    dt: Seq<Seq<(Seq<char>, usize)>>,
)
    requires
        pats.len() > 0,
        !ti.finite || ti.ctors.len() > 0,
    ensures
        !clause_redundant(clause_rows(pats, tags), 0, ti, dt),
{
    let rows = clause_rows(pats, tags);
    assert(rows.take(0) =~= Seq::<Seq<SP>>::empty());
    assert(all_inhabited(seq![ti]));
    lemma_empty_matrix_useful(rows[0], seq![ti], dt);
}

/// A literal pattern: an integer, float, string or character literal.
pub open spec fn literal_pat(p: Pat) -> bool {
    p.kind is IntLit || p.kind is FloatLit || p.kind is StringLit || p.kind is CharLit
}

/// Two patterns are the same literal.
pub open spec fn same_literal(p: Pat, q: Pat) -> bool {
    match (p.kind, q.kind) {
        (PatKind::IntLit(a), PatKind::IntLit(b)) => a == b,
        (PatKind::FloatLit(a), PatKind::FloatLit(b)) => a@ == b@,
        (PatKind::StringLit(a), PatKind::StringLit(b)) => a@ == b@,
        (PatKind::CharLit(a), PatKind::CharLit(b)) => a == b,
        _ => false,
    }
}

proof fn lemma_default_rows_of_cons(m: Seq<Seq<SP>>)
    requires
        forall|k: int| 0 <= k < m.len() ==> #[trigger] head(m[k]) is Con,
    ensures
        default_rows(m).len() == 0,
    decreases m.len(),
{
    if m.len() > 0 {
        assert(head(m[m.len() - 1]) is Con);
        lemma_default_rows_of_cons(m.drop_last());
    }
}

proof fn lemma_specialize_other(m: Seq<Seq<SP>>, c: Ctor, n: nat)
    requires
        forall|k: int| 0 <= k < m.len() ==> (#[trigger] head(m[k]) matches SP::Con(rc, _) && rc != c),
    ensures
        specialize(m, c, n).len() == 0,
    decreases m.len(),
{
    if m.len() > 0 {
        assert(head(m[m.len() - 1]) matches SP::Con(rc, _) && rc != c);
        assert forall|k: int| 0 <= k < m.drop_last().len() implies (#[trigger] head(m.drop_last()[k]) matches SP::Con(
            rc,
            _,
        ) && rc != c) by {
            assert(m.drop_last()[k] == m[k]);
        }
        lemma_specialize_other(m.drop_last(), c, n);
    }
}

/// A match whose clauses are all literal patterns does not cover a type with
/// unboundedly many values (integers, strings, characters, floats): some
/// value matches none of its clauses.
pub proof fn law_literal_clauses_not_exhaustive(
    pats: Seq<Pat>,
    tags: Seq<(Seq<char>, u16)>,
    ti: TI,
    dt: Seq<Seq<(Seq<char>, usize)>>,
)
    requires
        !ti.finite,
        forall|k: int| 0 <= k < pats.len() ==> literal_pat(#[trigger] pats[k]),
    ensures
        !match_exhaustive(clause_rows(pats, tags), ti, dt),
{
    let rows = clause_rows(pats, tags);
    assert forall|k: int| 0 <= k < rows.len() implies #[trigger] head(rows[k]) is Con by {
        assert(literal_pat(pats[k]));
        assert(rows[k] == seq![spat_of(pats[k], tags)]);
    }
    lemma_default_rows_of_cons(rows);
    let q = seq![SP::Wild];
    assert(q.drop_first() =~= Seq::<SP>::empty());
    assert(head_ti(seq![ti]) == ti);
    assert(useful(default_rows(rows), q.drop_first(), tail_tis(seq![ti]), dt));
    assert(useful(rows, q, seq![ti], dt));
}

/// A literal clause is never redundant after clauses that are all other
/// literals: a value equal to its literal matches it and none before it.
pub proof fn law_new_literal_clause_not_redundant(
    pats: Seq<Pat>,
    tags: Seq<(Seq<char>, u16)>,
    ti: TI,
    dt: Seq<Seq<(Seq<char>, usize)>>,
    i: int,
)
    requires
        0 <= i < pats.len(),
        literal_pat(pats[i]),
        forall|k: int| 0 <= k < i ==> literal_pat(#[trigger] pats[k]) && !same_literal(pats[k], pats[i]),
    ensures
        !clause_redundant(clause_rows(pats, tags), i, ti, dt),
{
    let rows = clause_rows(pats, tags);
    let m = rows.take(i);
    let q = rows[i];
    assert(q == seq![spat_of(pats[i], tags)]);
    let c = spat_of(pats[i], tags)->Con_0;
    assert(spat_of(pats[i], tags) == SP::Con(c, Seq::empty()));
    assert forall|k: int| 0 <= k < m.len() implies (#[trigger] head(m[k]) matches SP::Con(rc, _) && rc != c) by {
        assert(m[k] == rows[k]);
        assert(rows[k] == seq![spat_of(pats[k], tags)]);
        assert(literal_pat(pats[k]) && !same_literal(pats[k], pats[i]));
    }
    lemma_specialize_other(m, c, 0);
    let sm = specialize(m, c, 0);
    assert(Seq::<SP>::empty() + q.drop_first() =~= Seq::<SP>::empty());
    assert(useful(sm, Seq::<SP>::empty() + q.drop_first(), col_tis(sm, 0, dt) + tail_tis(seq![ti]), dt));
    assert(useful(m, q, seq![ti], dt));
}

proof fn lemma_specialize_keeps(m: Seq<Seq<SP>>, c: Ctor, n: nat, k: int)
    requires
        0 <= k < m.len(),
        head(m[k]) matches SP::Con(rc, _) && rc == c,
    ensures
        specialize(m, c, n).len() > 0,
    decreases m.len(),
{
    if k < m.len() - 1 {
        assert(m.drop_last()[k] == m[k]);
        lemma_specialize_keeps(m.drop_last(), c, n, k);
    }
}

/// A literal clause after a clause with the same literal is redundant: every
/// value it matches, the earlier clause matched first.
pub proof fn law_repeated_literal_clause_redundant(
    pats: Seq<Pat>,
    tags: Seq<(Seq<char>, u16)>,
    ti: TI,
    dt: Seq<Seq<(Seq<char>, usize)>>,
    k: int,
    i: int,
)
    requires
        0 <= k < i < pats.len(),
        literal_pat(pats[i]),
        same_literal(pats[k], pats[i]),
    ensures
        clause_redundant(clause_rows(pats, tags), i, ti, dt),
{
    let rows = clause_rows(pats, tags);
    let m = rows.take(i);
    let q = rows[i];
    assert(q == seq![spat_of(pats[i], tags)]);
    let c = spat_of(pats[i], tags)->Con_0;
    assert(spat_of(pats[i], tags) == SP::Con(c, Seq::empty()));
    assert(m[k] == rows[k]);
    assert(rows[k] == seq![spat_of(pats[k], tags)]);
    assert(spat_of(pats[k], tags) == SP::Con(c, Seq::empty()));
    lemma_specialize_keeps(m, c, 0, k);
    let sm = specialize(m, c, 0);
    assert(Seq::<SP>::empty() + q.drop_first() =~= Seq::<SP>::empty());
    assert(!useful(sm, Seq::<SP>::empty() + q.drop_first(), col_tis(sm, 0, dt) + tail_tis(seq![ti]), dt));
    assert(!useful(m, q, seq![ti], dt));
}

proof fn lemma_has_head_at(m: Seq<Seq<SP>>, c: Ctor, k: int)
    requires
        0 <= k < m.len(),
        head(m[k]) matches SP::Con(rc, _) && rc == c,
    ensures
        has_head(m, c),
    decreases m.len(),
{
    if k < m.len() - 1 {
        assert(m.drop_last()[k] == m[k]);
        lemma_has_head_at(m.drop_last(), c, k);
    }
}

/// A match on a boolean with a `true` clause and a `false` clause is
/// exhaustive.
pub proof fn law_true_and_false_clauses_exhaustive(
    pats: Seq<Pat>,
    tags: Seq<(Seq<char>, u16)>,
    dt: Seq<Seq<(Seq<char>, usize)>>,
    j: int,
    k: int,
)
    requires
        0 <= j < pats.len(),
        0 <= k < pats.len(),
        pats[j].kind == PatKind::BoolLit(true),
        pats[k].kind == PatKind::BoolLit(false),
    ensures
        match_exhaustive(clause_rows(pats, tags), bool_ti(), dt),
{
    let rows = clause_rows(pats, tags);
    let ti = bool_ti();
    let tis = seq![ti];
    let q = seq![SP::Wild];
    assert(rows[j] == seq![spat_of(pats[j], tags)]);
    assert(rows[k] == seq![spat_of(pats[k], tags)]);
    assert(head(rows[j]) == SP::Con(Ctor::BoolTrue, Seq::empty()));
    assert(head(rows[k]) == SP::Con(Ctor::BoolFalse, Seq::empty()));
    lemma_has_head_at(rows, Ctor::BoolTrue, j);
    lemma_has_head_at(rows, Ctor::BoolFalse, k);
    let cs = ti.ctors;
    assert(cs.drop_last() =~= seq![(Ctor::BoolTrue, 0usize)]);
    assert(cs.drop_last().drop_last() =~= Seq::<(Ctor, usize)>::empty());
    assert(all_covered(cs.drop_last().drop_last(), rows));
    assert(all_covered(cs.drop_last(), rows));
    assert(all_covered(cs, rows));
    assert(head_ti(tis) == ti);
    lemma_specialize_keeps(rows, Ctor::BoolTrue, 0, j);
    lemma_specialize_keeps(rows, Ctor::BoolFalse, 0, k);
    let rest = q.drop_first();
    assert(rest =~= Seq::<SP>::empty());
    assert(wilds(0) + rest =~= Seq::<SP>::empty());
    let st = specialize(rows, Ctor::BoolTrue, 0);
    let sf = specialize(rows, Ctor::BoolFalse, 0);
    assert(!useful(st, wilds(0) + rest, col_tis(st, 0, dt) + tail_tis(tis), dt));
    assert(!useful(sf, wilds(0) + rest, col_tis(sf, 0, dt) + tail_tis(tis), dt));
    assert(!useful_some(rows, q, tis, dt, cs, 2));
    assert(!useful_some(rows, q, tis, dt, cs, 1));
    assert(!useful_some(rows, q, tis, dt, cs, 0));
    assert(!useful(rows, q, tis, dt));
}

} // verus!

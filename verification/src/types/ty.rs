//! Monomorphic types and type schemes.
use vstd::prelude::*;
use crate::text::{push_char, push_str, to_string};
use crate::syntax::pretty::{digits, push_digits};

verus! {

/// A type: a named constant, a variable, an applied constructor, a function
/// type or a tuple.
#[derive(Debug, PartialEq)]
pub enum Type {
    Con(String),
    Var(u32),
    App(String, Vec<Type>),
    Arrow(Box<Type>, Box<Type>),
    Tuple(Vec<Type>),
}

/// A type generalized over the variables `vars`.
#[derive(Debug)]
pub struct Scheme {
    pub vars: Vec<u32>,
    pub ty: Type,
}

/// `t` is the named constant type `name`.
pub open spec fn is_con(t: Type, name: Seq<char>) -> bool {
    t matches Type::Con(n) && n@ == name
}

/// Names of the base types whose values can be compared for equality.
pub open spec fn equality_base(n: Seq<char>) -> bool {
    n == "Int"@ || n == "Float"@ || n == "Word"@ || n == "Bool"@ || n == "String"@ || n == "Char"@
        || n == "Unit"@ || n == "Bytes"@ || n == "Pid"@
}

/// Types whose values can be compared for equality: the equality base types
/// and tuples of equality types. A type variable is not one (yet).
pub open spec fn equality_type(t: Type) -> bool
    decreases t, 1nat,
{
    match t {
        Type::Con(n) => equality_base(n@),
        Type::Tuple(ts) => all_equality(ts@),
        _ => false,
    }
}

pub open spec fn all_equality(ts: Seq<Type>) -> bool
    decreases ts, 0nat,
{
    if ts.len() == 0 {
        true
    } else {
        all_equality(ts.drop_last()) && equality_type(ts.last())
    }
}

/// `acc` followed by the type variables of `t` not already in it, in order of
/// first occurrence.
pub open spec fn collect_vars(t: Type, acc: Seq<u32>) -> Seq<u32>
    decreases t, 1nat,
{
    match t {
        Type::Var(v) => if acc.contains(v) {
            acc
        } else {
            acc.push(v)
        },
        Type::Arrow(a, b) => collect_vars(*b, collect_vars(*a, acc)),
        Type::Tuple(ts) => collect_list_vars(ts@, acc),
        Type::App(_, ts) => collect_list_vars(ts@, acc),
        Type::Con(_) => acc,
    }
}

pub open spec fn collect_list_vars(ts: Seq<Type>, acc: Seq<u32>) -> Seq<u32>
    decreases ts, 0nat,
{
    if ts.len() == 0 {
        acc
    } else {
        collect_vars(ts.last(), collect_list_vars(ts.drop_last(), acc))
    }
}

/// The free type variables of `t`, each once, in order of first occurrence.
pub open spec fn free_vars_of(t: Type) -> Seq<u32> {
    collect_vars(t, Seq::empty())
}

/// `v` occurs in `t`.
pub open spec fn occurs(v: u32, t: Type) -> bool
    decreases t, 1nat,
{
    match t {
        Type::Var(w) => v == w,
        Type::Arrow(a, b) => occurs(v, *a) || occurs(v, *b),
        Type::Tuple(ts) => occurs_list(v, ts@),
        Type::App(_, ts) => occurs_list(v, ts@),
        Type::Con(_) => false,
    }
}

pub open spec fn occurs_list(v: u32, ts: Seq<Type>) -> bool
    decreases ts, 0nat,
{
    if ts.len() == 0 {
        false
    } else {
        occurs_list(v, ts.drop_last()) || occurs(v, ts.last())
    }
}

fn con(name: &str) -> (r: Type)
    ensures
        is_con(r, name@),
{
    Type::Con(to_string(name))
}

impl Type {
    pub fn int_type() -> (r: Type)
        ensures
            is_con(r, "Int"@),
    {
        con("Int")
    }

    pub fn float() -> (r: Type)
        ensures
            is_con(r, "Float"@),
    {
        con("Float")
    }

    pub fn word() -> (r: Type)
        ensures
            is_con(r, "Word"@),
    {
        con("Word")
    }

    pub fn bool() -> (r: Type)
        ensures
            is_con(r, "Bool"@),
    {
        con("Bool")
    }

    pub fn string() -> (r: Type)
        ensures
            is_con(r, "String"@),
    {
        con("String")
    }

    pub fn char() -> (r: Type)
        ensures
            is_con(r, "Char"@),
    {
        con("Char")
    }

    pub fn bytes() -> (r: Type)
        ensures
            is_con(r, "Bytes"@),
    {
        con("Bytes")
    }

    pub fn rng() -> (r: Type)
        ensures
            is_con(r, "Rng"@),
    {
        con("Rng")
    }

    pub fn unit() -> (r: Type)
        ensures
            is_con(r, "Unit"@),
    {
        con("Unit")
    }

    pub fn pid() -> (r: Type)
        ensures
            is_con(r, "Pid"@),
    {
        con("Pid")
    }

    /// The list type over `elem`.
    pub fn list(elem: Type) -> (r: Type)
        ensures
            r matches Type::App(n, args) && n@ == "list"@ && args@ == seq![elem],
    {
        Type::App(to_string("list"), vec![elem])
    }

    /// The function type from `from` to `to`.
    pub fn arrow(from: Type, to: Type) -> (r: Type)
        ensures
            r == Type::Arrow(Box::new(from), Box::new(to)),
    {
        Type::Arrow(Box::new(from), Box::new(to))
    }

    /// Whether values of this type can be compared for equality.
    pub fn is_equality(&self) -> (r: bool)
        ensures
            r == equality_type(*self),
        decreases *self, 1nat,
    {
        match self {
            Type::Con(n) => {
                let s = n.as_str();
                crate::text::str_eq(s, "Int") || crate::text::str_eq(s, "Float")
                    || crate::text::str_eq(s, "Word") || crate::text::str_eq(s, "Bool")
                    || crate::text::str_eq(s, "String") || crate::text::str_eq(s, "Char")
                    || crate::text::str_eq(s, "Unit") || crate::text::str_eq(s, "Bytes")
                    || crate::text::str_eq(s, "Pid")
            },
            Type::Tuple(ts) => {
                proof {
                    assert(decreases_to!(*self => ts@));
                }
                Self::all_are_equality(ts, Ghost(*self))
            },
            _ => false,
        }
    }

    fn all_are_equality(ts: &Vec<Type>, Ghost(outer): Ghost<Type>) -> (r: bool)
        requires
            decreases_to!(outer => ts@),
        ensures
            r == all_equality(ts@),
        decreases outer, 0nat,
    {
        let mut i: usize = 0;
        while i < ts.len()
            invariant
                i <= ts@.len(),
                decreases_to!(outer => ts@),
                all_equality(ts@.take(i as int)),
            decreases ts@.len() - i,
        {
            assert(ts@.take(i + 1).drop_last() =~= ts@.take(i as int));
            assert(decreases_to!(ts@ => ts@[i as int]));
            if !ts[i].is_equality() {
                proof {
                    lemma_all_equality_prefix(ts@, i as int + 1);
                }
                return false;
            }
            i = i + 1;
        }
        assert(ts@.take(ts@.len() as int) =~= ts@);
        true
    }

    /// The free type variables, each once, in order of first occurrence.
    pub fn free_vars(&self) -> (r: Vec<u32>)
        ensures
            r@ == free_vars_of(*self),
    {
        let mut vars: Vec<u32> = Vec::new();
        self.collect_free_vars(&mut vars);
        vars
    }

    fn collect_free_vars(&self, vars: &mut Vec<u32>)
        ensures
            final(vars)@ == collect_vars(*self, old(vars)@),
        decreases *self, 1nat,
    {
        match self {
            Type::Var(v) => {
                if !contains_u32(vars, *v) {
                    vars.push(*v);
                }
            },
            Type::Arrow(a, b) => {
                a.collect_free_vars(vars);
                b.collect_free_vars(vars);
            },
            Type::Tuple(ts) => {
                proof {
                    assert(decreases_to!(*self => ts@));
                }
                Self::collect_list_free_vars(ts, vars, Ghost(*self));
            },
            Type::App(_, ts) => {
                proof {
                    assert(decreases_to!(*self => ts@));
                }
                Self::collect_list_free_vars(ts, vars, Ghost(*self));
            },
            Type::Con(_) => {},
        }
    }

    fn collect_list_free_vars(ts: &Vec<Type>, vars: &mut Vec<u32>, Ghost(outer): Ghost<Type>)
        requires
            decreases_to!(outer => ts@),
        ensures
            final(vars)@ == collect_list_vars(ts@, old(vars)@),
        decreases outer, 0nat,
    {
        let ghost start = vars@;
        let mut i: usize = 0;
        while i < ts.len()
            invariant
                i <= ts@.len(),
                decreases_to!(outer => ts@),
                vars@ == collect_list_vars(ts@.take(i as int), start),
            decreases ts@.len() - i,
        {
            assert(ts@.take(i + 1).drop_last() =~= ts@.take(i as int));
            assert(decreases_to!(ts@ => ts@[i as int]));
            ts[i].collect_free_vars(vars);
            i = i + 1;
        }
        assert(ts@.take(ts@.len() as int) =~= ts@);
    }
}

proof fn lemma_all_equality_prefix(ts: Seq<Type>, n: int)
    requires
        0 <= n <= ts.len(),
        !all_equality(ts.take(n)),
    ensures
        !all_equality(ts),
    decreases ts.len() - n,
{
    if n < ts.len() {
        assert(ts.take(n + 1).drop_last() =~= ts.take(n));
        lemma_all_equality_prefix(ts, n + 1);
    } else {
        assert(ts.take(n) =~= ts);
    }
}

pub(crate) fn contains_u32(v: &Vec<u32>, x: u32) -> (r: bool)
    ensures
        r == v@.contains(x),
{
    let mut i: usize = 0;
    while i < v.len()
        invariant
            i <= v@.len(),
            forall|j: int| 0 <= j < i ==> v@[j] != x,
        decreases v@.len() - i,
    {
        if v[i] == x {
            return true;
        }
        i = i + 1;
    }
    false
}

impl Scheme {
    /// A scheme with no quantified variables.
    pub fn mono(ty: Type) -> (r: Scheme)
        ensures
            r.vars@.len() == 0,
            r.ty == ty,
    {
        Scheme { vars: Vec::new(), ty }
    }
}

/// The mathematical value of a type: names become character sequences.
pub enum TyV {
    Con(Seq<char>),
    Var(u32),
    App(Seq<char>, Seq<TyV>),
    Arrow(Box<TyV>, Box<TyV>),
    Tuple(Seq<TyV>),
}

pub open spec fn ty_view(t: Type) -> TyV
    decreases t, 1nat,
{
    match t {
        Type::Con(n) => TyV::Con(n@),
        Type::Var(v) => TyV::Var(v),
        Type::App(n, ts) => TyV::App(n@, tys_view(ts@)),
        Type::Arrow(a, b) => TyV::Arrow(Box::new(ty_view(*a)), Box::new(ty_view(*b))),
        Type::Tuple(ts) => TyV::Tuple(tys_view(ts@)),
    }
}

pub open spec fn tys_view(ts: Seq<Type>) -> Seq<TyV>
    decreases ts, 0nat,
{
    if ts.len() == 0 {
        Seq::empty()
    } else {
        tys_view(ts.drop_last()).push(ty_view(ts.last()))
    }
}

/// The mathematical value of a scheme.
pub struct SchemeV {
    pub vars: Seq<u32>,
    pub ty: TyV,
}

pub open spec fn scheme_view(s: Scheme) -> SchemeV {
    SchemeV { vars: s.vars@, ty: ty_view(s.ty) }
}

pub proof fn lemma_tys_push(ts: Seq<Type>, t: Type)
    ensures
        tys_view(ts.push(t)) == tys_view(ts).push(ty_view(t)),
{
    assert(ts.push(t).drop_last() =~= ts);
}

impl Type {
    /// A copy with the same value.
    pub fn duplicate(&self) -> (r: Type)
        ensures
            ty_view(r) == ty_view(*self),
        decreases *self, 1nat,
    {
        match self {
            Type::Con(n) => Type::Con(crate::text::clone_string(n)),
            Type::Var(v) => Type::Var(*v),
            Type::App(n, ts) => {
                proof {
                    assert(decreases_to!(*self => ts@));
                }
                Type::App(crate::text::clone_string(n), Self::duplicate_all(ts, Ghost(*self)))
            },
            Type::Arrow(a, b) => Type::Arrow(Box::new(a.duplicate()), Box::new(b.duplicate())),
            Type::Tuple(ts) => {
                proof {
                    assert(decreases_to!(*self => ts@));
                }
                Type::Tuple(Self::duplicate_all(ts, Ghost(*self)))
            },
        }
    }

    fn duplicate_all(ts: &Vec<Type>, Ghost(outer): Ghost<Type>) -> (r: Vec<Type>)
        requires
            decreases_to!(outer => ts@),
        ensures
            tys_view(r@) == tys_view(ts@),
        decreases outer, 0nat,
    {
        let mut out: Vec<Type> = Vec::new();
        let mut i: usize = 0;
        while i < ts.len()
            invariant
                i <= ts@.len(),
                decreases_to!(outer => ts@),
                tys_view(out@) == tys_view(ts@.take(i as int)),
            decreases ts@.len() - i,
        {
            assert(ts@.take(i + 1).drop_last() =~= ts@.take(i as int));
            assert(decreases_to!(ts@ => ts@[i as int]));
            let t = ts[i].duplicate();
            proof {
                lemma_tys_push(out@, t);
            }
            out.push(t);
            i = i + 1;
        }
        assert(ts@.take(ts@.len() as int) =~= ts@);
        out
    }
}

impl Scheme {
    /// A copy with the same value.
    pub fn duplicate(&self) -> (r: Scheme)
        ensures
            scheme_view(r) == scheme_view(*self),
    {
        let mut vars: Vec<u32> = Vec::new();
        let mut i: usize = 0;
        while i < self.vars.len()
            invariant
                i <= self.vars@.len(),
                vars@ == self.vars@.take(i as int),
            decreases self.vars@.len() - i,
        {
            vars.push(self.vars[i]);
            assert(vars@ =~= self.vars@.take(i + 1));
            i = i + 1;
        }
        assert(self.vars@.take(self.vars@.len() as int) =~= self.vars@);
        Scheme { vars, ty: self.ty.duplicate() }
    }
}


/// The elements of `tys_view(ts)` are the views of the elements of `ts`.
pub proof fn lemma_tys_view_index(ts: Seq<Type>)
    ensures
        tys_view(ts).len() == ts.len(),
        forall|i: int| 0 <= i < ts.len() ==> #[trigger] tys_view(ts)[i] == ty_view(ts[i]),
    decreases ts.len(),
{
    if ts.len() > 0 {
        lemma_tys_view_index(ts.drop_last());
    }
}

// ── Type text ────────────────────────────────────────────────────────────

/// The name a type constant is shown by: the primitive types in lower case.
pub open spec fn display_name(n: Seq<char>) -> Seq<char> {
    if n == "Int"@ {
        "int"@
    } else if n == "Float"@ {
        "float"@
    } else if n == "Word"@ {
        "word"@
    } else if n == "Bool"@ {
        "bool"@
    } else if n == "String"@ {
        "string"@
    } else if n == "Char"@ {
        "char"@
    } else if n == "Unit"@ {
        "unit"@
    } else if n == "Bytes"@ {
        "bytes"@
    } else if n == "Rng"@ {
        "rng"@
    } else if n == "Pid"@ {
        "pid"@
    } else {
        n
    }
}

/// A type variable's text: a quote, a letter for `v % 26`, and `v / 26` when
/// it is not zero.
pub open spec fn var_text(v: u32) -> Seq<char> {
    seq!['\'', ((v % 26) + 97) as char] + if v >= 26 {
        digits((v / 26) as nat)
    } else {
        Seq::empty()
    }
}

/// Parentheses round `s`.
pub open spec fn paren(s: Seq<char>) -> Seq<char> {
    "("@ + s + ")"@
}

/// The text of a type.
pub open spec fn show(t: TyV) -> Seq<char>
    decreases t, 1nat,
{
    match t {
        TyV::Con(n) => display_name(n),
        TyV::Var(v) => var_text(v),
        TyV::Arrow(a, b) => (if *a is Arrow {
            paren(show(*a))
        } else {
            show(*a)
        }) + " -> "@ + show(*b),
        TyV::Tuple(ts) => show_tuple(ts),
        TyV::App(n, args) => if args.len() == 1 {
            (if args[0] is Arrow || args[0] is Tuple || args[0] is App {
                paren(show(args[0]))
            } else {
                show(args[0])
            }) + " "@ + display_name(n)
        } else {
            "("@ + show_args(args) + ") "@ + display_name(n)
        },
    }
}

/// Tuple elements joined by ` * `, a function or tuple element in
/// parentheses.
pub open spec fn show_tuple(ts: Seq<TyV>) -> Seq<char>
    decreases ts, 0nat,
{
    if ts.len() == 0 {
        Seq::empty()
    } else {
        let last = if ts.last() is Arrow || ts.last() is Tuple {
            paren(show(ts.last()))
        } else {
            show(ts.last())
        };
        if ts.len() == 1 {
            last
        } else {
            show_tuple(ts.drop_last()) + " * "@ + last
        }
    }
}

/// Type arguments joined by `, `.
pub open spec fn show_args(ts: Seq<TyV>) -> Seq<char>
    decreases ts, 0nat,
{
    if ts.len() == 0 {
        Seq::empty()
    } else if ts.len() == 1 {
        show(ts.last())
    } else {
        show_args(ts.drop_last()) + ", "@ + show(ts.last())
    }
}

fn push_display_name(buf: &mut String, n: &String)
    ensures
        final(buf)@ == old(buf)@ + display_name(n@),
{
    let s = n.as_str();
    let shown = if crate::text::str_eq(s, "Int") {
        "int"
    } else if crate::text::str_eq(s, "Float") {
        "float"
    } else if crate::text::str_eq(s, "Word") {
        "word"
    } else if crate::text::str_eq(s, "Bool") {
        "bool"
    } else if crate::text::str_eq(s, "String") {
        "string"
    } else if crate::text::str_eq(s, "Char") {
        "char"
    } else if crate::text::str_eq(s, "Unit") {
        "unit"
    } else if crate::text::str_eq(s, "Bytes") {
        "bytes"
    } else if crate::text::str_eq(s, "Rng") {
        "rng"
    } else if crate::text::str_eq(s, "Pid") {
        "pid"
    } else {
        s
    };
    push_str(buf, shown);
}

fn is_arrow(t: &Type) -> (r: bool)
    ensures
        r == (ty_view(*t) is Arrow),
{
    match t {
        Type::Arrow(_, _) => true,
        _ => false,
    }
}

fn is_compound(t: &Type) -> (r: bool)
    ensures
        r == (ty_view(*t) is Arrow || ty_view(*t) is Tuple || ty_view(*t) is App),
{
    match t {
        Type::Arrow(_, _) | Type::Tuple(_) | Type::App(_, _) => true,
        _ => false,
    }
}

fn is_arrow_or_tuple(t: &Type) -> (r: bool)
    ensures
        r == (ty_view(*t) is Arrow || ty_view(*t) is Tuple),
{
    match t {
        Type::Arrow(_, _) | Type::Tuple(_) => true,
        _ => false,
    }
}

impl Type {
    /// Appends the text of the type.
    pub fn push_text(&self, buf: &mut String)
        ensures
            final(buf)@ == old(buf)@ + show(ty_view(*self)),
        decreases *self, 1nat,
    {
        let ghost start = buf@;
        match self {
            Type::Con(n) => push_display_name(buf, n),
            Type::Var(v) => {
                push_char(buf, '\'');
                let d = (*v % 26) as u8;
                push_char(buf, (d + 97) as char);
                if *v >= 26 {
                    push_digits(buf, (*v / 26) as u64);
                }
                assert(buf@ =~= start + var_text(*v));
            },
            Type::Arrow(a, b) => {
                if is_arrow(a) {
                    push_str(buf, "(");
                    a.push_text(buf);
                    push_str(buf, ")");
                } else {
                    a.push_text(buf);
                }
                push_str(buf, " -> ");
                b.push_text(buf);
                assert(buf@ =~= start + show(ty_view(*self)));
            },
            Type::Tuple(ts) => {
                proof {
                    assert(decreases_to!(*self => ts@));
                }
                Self::push_tuple_text(buf, ts, Ghost(*self));
            },
            Type::App(n, args) => {
                proof {
                    assert(decreases_to!(*self => args@));
                    lemma_tys_view_index(args@);
                }
                if args.len() == 1 {
                    proof {
                        assert(decreases_to!(args@ => args@[0]));
                    }
                    if is_compound(&args[0]) {
                        push_str(buf, "(");
                        args[0].push_text(buf);
                        push_str(buf, ")");
                    } else {
                        args[0].push_text(buf);
                    }
                    push_str(buf, " ");
                    push_display_name(buf, n);
                } else {
                    push_str(buf, "(");
                    Self::push_args_text(buf, args, Ghost(*self));
                    push_str(buf, ") ");
                    push_display_name(buf, n);
                }
                assert(buf@ =~= start + show(ty_view(*self)));
            },
        }
    }

    fn push_tuple_text(buf: &mut String, ts: &Vec<Type>, Ghost(outer): Ghost<Type>)
        requires
            decreases_to!(outer => ts@),
        ensures
            final(buf)@ == old(buf)@ + show_tuple(tys_view(ts@)),
        decreases outer, 0nat,
    {
        let ghost start = buf@;
        proof {
            lemma_tys_view_index(ts@);
        }
        let mut i: usize = 0;
        while i < ts.len()
            invariant
                i <= ts@.len(),
                decreases_to!(outer => ts@),
                tys_view(ts@).len() == ts@.len(),
                forall|k: int| 0 <= k < ts@.len() ==> #[trigger] tys_view(ts@)[k] == ty_view(ts@[k]),
                buf@ == start + show_tuple(tys_view(ts@).take(i as int)),
            decreases ts@.len() - i,
        {
            let ghost before = buf@;
            assert(decreases_to!(ts@ => ts@[i as int]));
            if i > 0 {
                push_str(buf, " * ");
            }
            if is_arrow_or_tuple(&ts[i]) {
                push_str(buf, "(");
                ts[i].push_text(buf);
                push_str(buf, ")");
            } else {
                ts[i].push_text(buf);
            }
            proof {
                let pre = tys_view(ts@).take(i + 1);
                assert(pre.drop_last() =~= tys_view(ts@).take(i as int));
                assert(pre.last() == ty_view(ts@[i as int]));
                if i == 0 {
                    assert(tys_view(ts@).take(0) =~= Seq::<TyV>::empty());
                }
                assert(buf@ =~= start + show_tuple(pre));
            }
            i = i + 1;
        }
        assert(tys_view(ts@).take(ts@.len() as int) =~= tys_view(ts@));
    }

    fn push_args_text(buf: &mut String, ts: &Vec<Type>, Ghost(outer): Ghost<Type>)
        requires
            decreases_to!(outer => ts@),
        ensures
            final(buf)@ == old(buf)@ + show_args(tys_view(ts@)),
        decreases outer, 0nat,
    {
        let ghost start = buf@;
        proof {
            lemma_tys_view_index(ts@);
        }
        let mut i: usize = 0;
        while i < ts.len()
            invariant
                i <= ts@.len(),
                decreases_to!(outer => ts@),
                tys_view(ts@).len() == ts@.len(),
                forall|k: int| 0 <= k < ts@.len() ==> #[trigger] tys_view(ts@)[k] == ty_view(ts@[k]),
                buf@ == start + show_args(tys_view(ts@).take(i as int)),
            decreases ts@.len() - i,
        {
            assert(decreases_to!(ts@ => ts@[i as int]));
            if i > 0 {
                push_str(buf, ", ");
            }
            ts[i].push_text(buf);
            proof {
                let pre = tys_view(ts@).take(i + 1);
                assert(pre.drop_last() =~= tys_view(ts@).take(i as int));
                assert(pre.last() == ty_view(ts@[i as int]));
                if i == 0 {
                    assert(tys_view(ts@).take(0) =~= Seq::<TyV>::empty());
                }
                assert(buf@ =~= start + show_args(pre));
            }
            i = i + 1;
        }
        assert(tys_view(ts@).take(ts@.len() as int) =~= tys_view(ts@));
    }

    /// The text of the type.
    pub fn text(&self) -> (r: String)
        ensures
            r@ == show(ty_view(*self)),
    {
        let mut buf = String::new();
        self.push_text(&mut buf);
        assert(buf@ =~= show(ty_view(*self)));
        buf
    }
}


/// The variables collected from `t` are those already collected and those
/// occurring in `t`.
pub proof fn lemma_collect_vars(t: Type, acc: Seq<u32>, v: u32)
    ensures
        collect_vars(t, acc).contains(v) == (acc.contains(v) || crate::types::subst::occurs_v(
            v,
            ty_view(t),
        )),
    decreases t, 1nat,
{
    match t {
        Type::Var(w) => {
            if !acc.contains(w) {
                assert(acc.push(w).contains(v) == (acc.contains(v) || v == w)) by {
                    if acc.push(w).contains(v) && v != w {
                        let k = choose|k: int| 0 <= k < acc.push(w).len() && #[trigger] acc.push(w)[k] == v;
                        assert(acc[k] == v);
                    }
                    if v == w {
                        assert(acc.push(w)[acc.len() as int] == w);
                    }
                    if acc.contains(v) {
                        let k = choose|k: int| 0 <= k < acc.len() && #[trigger] acc[k] == v;
                        assert(acc.push(w)[k] == v);
                    }
                }
            }
        },
        Type::Arrow(a, b) => {
            lemma_collect_vars(*a, acc, v);
            lemma_collect_vars(*b, collect_vars(*a, acc), v);
        },
        Type::Tuple(ts) => {
            lemma_collect_list_vars(ts@, acc, v);
        },
        Type::App(_, ts) => {
            lemma_collect_list_vars(ts@, acc, v);
        },
        Type::Con(_) => {},
    }
}

pub proof fn lemma_collect_list_vars(ts: Seq<Type>, acc: Seq<u32>, v: u32)
    ensures
        collect_list_vars(ts, acc).contains(v) == (acc.contains(v) || crate::types::subst::occurs_vs(
            v,
            tys_view(ts),
        )),
    decreases ts, 0nat,
{
    if ts.len() > 0 {
        lemma_collect_list_vars(ts.drop_last(), acc, v);
        lemma_collect_vars(ts.last(), collect_list_vars(ts.drop_last(), acc), v);
        assert(tys_view(ts).drop_last() =~= tys_view(ts.drop_last()));
    }
}

} // verus!

//! Reading the type text of builtin signatures: base type names, `'a`,
//! postfix `list`, `*` for tuples, right-associative `->`, and parentheses.
use vstd::prelude::*;
use crate::text::{chars_of, str_eq, string_between};
use crate::types::infer::{base_type, base_type_name};
use crate::types::ty::{lemma_tys_push, lemma_tys_view_index, ty_view, tys_view, Type, TyV};

verus! {

/// A character of a type name.
pub open spec fn name_char(c: char) -> bool {
    ('a' <= c && c <= 'z') || ('0' <= c && c <= '9') || c == '_'
}

/// The position after the spaces at `i`.
pub open spec fn skip_spaces(cs: Seq<char>, i: int) -> int
    decreases cs.len() - i,
{
    if 0 <= i < cs.len() && cs[i] == ' ' {
        skip_spaces(cs, i + 1)
    } else {
        i
    }
}

/// The end of the name that starts at `i` (`i` itself when none does).
pub open spec fn name_end(cs: Seq<char>, i: int) -> int
    decreases cs.len() - i,
{
    if 0 <= i < cs.len() && name_char(cs[i]) {
        name_end(cs, i + 1)
    } else {
        i
    }
}

/// A type starting at `i`, and the position after it.
pub open spec fn sig_ty(cs: Seq<char>, i: int, f: nat) -> Option<(TyV, int)>
    decreases f,
{
    if f == 0 {
        None
    } else {
        match sig_items(cs, i, (f - 1) as nat, Seq::empty()) {
            None => None,
            Some((ts, j)) => {
                let t = if ts.len() == 1 {
                    ts[0]
                } else {
                    TyV::Tuple(ts)
                };
                let k = skip_spaces(cs, j);
                if 0 <= k && k + 1 < cs.len() && cs[k] == '-' && cs[k + 1] == '>' {
                    match sig_ty(cs, k + 2, (f - 1) as nat) {
                        Some((u, m)) => Some((TyV::Arrow(Box::new(t), Box::new(u)), m)),
                        None => None,
                    }
                } else {
                    Some((t, j))
                }
            },
        }
    }
}

/// The `*`-separated types starting at `i`, after those in `acc`.
pub open spec fn sig_items(cs: Seq<char>, i: int, f: nat, acc: Seq<TyV>) -> Option<(Seq<TyV>, int)>
    decreases f,
{
    if f == 0 {
        None
    } else {
        match sig_app(cs, i, (f - 1) as nat) {
            None => None,
            Some((t, j)) => {
                let k = skip_spaces(cs, j);
                if 0 <= k < cs.len() && cs[k] == '*' {
                    sig_items(cs, k + 1, (f - 1) as nat, acc.push(t))
                } else {
                    Some((acc.push(t), j))
                }
            },
        }
    }
}

/// An atom followed by any number of `list`s.
pub open spec fn sig_app(cs: Seq<char>, i: int, f: nat) -> Option<(TyV, int)>
    decreases f,
{
    if f == 0 {
        None
    } else {
        match sig_atom(cs, i, (f - 1) as nat) {
            None => None,
            Some((t, j)) => sig_post(cs, t, j, (f - 1) as nat),
        }
    }
}

/// `t` with each `list` that follows `j` applied to it.
pub open spec fn sig_post(cs: Seq<char>, t: TyV, j: int, f: nat) -> Option<(TyV, int)>
    decreases f,
{
    if f == 0 {
        None
    } else {
        let k = skip_spaces(cs, j);
        let e = name_end(cs, k);
        if e > k {
            if cs.subrange(k, e) == "list"@ {
                sig_post(cs, TyV::App("list"@, seq![t]), e, (f - 1) as nat)
            } else {
                None
            }
        } else {
            Some((t, j))
        }
    }
}

/// A type variable (read as variable `0`), a base type name, or a type in
/// parentheses.
pub open spec fn sig_atom(cs: Seq<char>, i: int, f: nat) -> Option<(TyV, int)>
    decreases f,
{
    if f == 0 {
        None
    } else {
        let k = skip_spaces(cs, i);
        if 0 <= k < cs.len() && cs[k] == '\'' {
            let e = name_end(cs, k + 1);
            if e > k + 1 {
                Some((TyV::Var(0), e))
            } else {
                None
            }
        } else if 0 <= k < cs.len() && cs[k] == '(' {
            match sig_ty(cs, k + 1, (f - 1) as nat) {
                Some((t, j)) => {
                    let m = skip_spaces(cs, j);
                    if 0 <= m < cs.len() && cs[m] == ')' {
                        Some((t, m + 1))
                    } else {
                        None
                    }
                },
                None => None,
            }
        } else {
            let e = name_end(cs, k);
            if e > k {
                match base_type_name(cs.subrange(k, e)) {
                    Some(c) => Some((TyV::Con(c), e)),
                    None => None,
                }
            } else {
                None
            }
        }
    }
}

/// The nesting a signature may use.
pub open spec fn sig_fuel() -> nat {
    4096
}

/// The type that a signature's text denotes, `'a` read as variable `0`;
/// none when the text is not a whole type.
pub open spec fn sig_type(cs: Seq<char>) -> Option<TyV> {
    match sig_ty(cs, 0, sig_fuel()) {
        Some((t, j)) => if skip_spaces(cs, j) == cs.len() {
            Some(t)
        } else {
            None
        },
        None => None,
    }
}

/// `r` is the parse `s`.
pub open spec fn same_parse(r: Option<(Type, usize)>, s: Option<(TyV, int)>) -> bool {
    match (r, s) {
        (Some((t, j)), Some((v, k))) => ty_view(t) == v && j == k,
        (None, None) => true,
        _ => false,
    }
}

pub open spec fn same_items(r: Option<(Vec<Type>, usize)>, s: Option<(Seq<TyV>, int)>) -> bool {
    match (r, s) {
        (Some((ts, j)), Some((vs, k))) => tys_view(ts@) == vs && j == k,
        (None, None) => true,
        _ => false,
    }
}

fn skip(cs: &Vec<char>, i: usize) -> (r: usize)
    requires
        i <= cs@.len(),
    ensures
        r == skip_spaces(cs@, i as int),
        i <= r <= cs@.len(),
{
    let mut j = i;
    while j < cs.len() && cs[j] == ' '
        invariant
            i <= j <= cs@.len(),
            skip_spaces(cs@, i as int) == skip_spaces(cs@, j as int),
        decreases cs@.len() - j,
    {
        j = j + 1;
    }
    j
}

fn name_stop(cs: &Vec<char>, i: usize) -> (r: usize)
    requires
        i <= cs@.len(),
    ensures
        r == name_end(cs@, i as int),
        i <= r <= cs@.len(),
{
    let mut j = i;
    while j < cs.len() && (('a' <= cs[j] && cs[j] <= 'z') || ('0' <= cs[j] && cs[j] <= '9') || cs[j] == '_')
        invariant
            i <= j <= cs@.len(),
            name_end(cs@, i as int) == name_end(cs@, j as int),
        decreases cs@.len() - j,
    {
        j = j + 1;
    }
    j
}

fn parse_ty(cs: &Vec<char>, i: usize, f: u64) -> (r: Option<(Type, usize)>)
    requires
        i <= cs@.len(),
    ensures
        same_parse(r, sig_ty(cs@, i as int, f as nat)),
        r matches Some((_, j)) ==> j <= cs@.len(),
    decreases f,
{
    if f == 0 {
        return None;
    }
    let (mut ts, j) = match parse_items(cs, i, f - 1, Vec::new()) {
        None => return None,
        Some(x) => x,
    };
    proof {
        lemma_tys_view_index(ts@);
        assert(tys_view(Seq::<Type>::empty()) =~= Seq::<TyV>::empty());
    }
    let ghost vs = tys_view(ts@);
    let ghost tv = if vs.len() == 1 {
        vs[0]
    } else {
        TyV::Tuple(vs)
    };
    let t = if ts.len() == 1 {
        let ghost only = ts@[0];
        match ts.pop() {
            Some(t) => {
                assert(t == only);
                t
            },
            None => return None,
        }
    } else {
        Type::Tuple(ts)
    };
    assert(ty_view(t) == tv);
    let k = skip(cs, j);
    if k < cs.len() && cs[k] == '-' && k + 1 < cs.len() && cs[k + 1] == '>' {
        match parse_ty(cs, k + 2, f - 1) {
            Some((u, m)) => Some((Type::arrow(t, u), m)),
            None => None,
        }
    } else {
        Some((t, j))
    }
}

fn parse_items(cs: &Vec<char>, i: usize, f: u64, acc: Vec<Type>) -> (r: Option<(Vec<Type>, usize)>)
    requires
        i <= cs@.len(),
    ensures
        same_items(r, sig_items(cs@, i as int, f as nat, tys_view(acc@))),
        r matches Some((_, j)) ==> j <= cs@.len(),
    decreases f,
{
    if f == 0 {
        return None;
    }
    let (t, j) = match parse_app(cs, i, f - 1) {
        None => return None,
        Some(x) => x,
    };
    let mut acc = acc;
    let ghost a0 = acc@;
    proof {
        lemma_tys_push(a0, t);
    }
    acc.push(t);
    let k = skip(cs, j);
    if k < cs.len() && cs[k] == '*' {
        parse_items(cs, k + 1, f - 1, acc)
    } else {
        Some((acc, j))
    }
}

fn parse_app(cs: &Vec<char>, i: usize, f: u64) -> (r: Option<(Type, usize)>)
    requires
        i <= cs@.len(),
    ensures
        same_parse(r, sig_app(cs@, i as int, f as nat)),
        r matches Some((_, j)) ==> j <= cs@.len(),
    decreases f,
{
    if f == 0 {
        return None;
    }
    match parse_atom(cs, i, f - 1) {
        None => None,
        Some((t, j)) => parse_post(cs, t, j, f - 1),
    }
}

fn parse_post(cs: &Vec<char>, t: Type, j: usize, f: u64) -> (r: Option<(Type, usize)>)
    requires
        j <= cs@.len(),
    ensures
        same_parse(r, sig_post(cs@, ty_view(t), j as int, f as nat)),
        r matches Some((_, m)) ==> m <= cs@.len(),
    decreases f,
{
    if f == 0 {
        return None;
    }
    let k = skip(cs, j);
    let e = name_stop(cs, k);
    if e > k {
        let name = string_between(cs, k, e);
        if str_eq(name.as_str(), "list") {
            let applied = Type::list(t);
            proof {
                lemma_tys_push(Seq::empty(), t);
                assert(Seq::<Type>::empty().push(t) =~= seq![t]);
                assert(tys_view(Seq::<Type>::empty()) =~= Seq::<TyV>::empty());
                assert(ty_view(applied) == TyV::App("list"@, seq![ty_view(t)]));
            }
            parse_post(cs, applied, e, f - 1)
        } else {
            None
        }
    } else {
        Some((t, j))
    }
}

fn parse_atom(cs: &Vec<char>, i: usize, f: u64) -> (r: Option<(Type, usize)>)
    requires
        i <= cs@.len(),
    ensures
        same_parse(r, sig_atom(cs@, i as int, f as nat)),
        r matches Some((_, j)) ==> j <= cs@.len(),
    decreases f,
{
    if f == 0 {
        return None;
    }
    let k = skip(cs, i);
    if k < cs.len() && cs[k] == '\'' {
        let e = name_stop(cs, k + 1);
        if e > k + 1 {
            Some((Type::Var(0), e))
        } else {
            None
        }
    } else if k < cs.len() && cs[k] == '(' {
        match parse_ty(cs, k + 1, f - 1) {
            Some((t, j)) => {
                let m = skip(cs, j);
                if m < cs.len() && cs[m] == ')' {
                    Some((t, m + 1))
                } else {
                    None
                }
            },
            None => None,
        }
    } else {
        let e = name_stop(cs, k);
        if e > k {
            let name = string_between(cs, k, e);
            match base_type(&name) {
                Some(t) => Some((t, e)),
                None => None,
            }
        } else {
            None
        }
    }
}

/// The type that a builtin signature's text denotes, `'a` read as variable
/// `0`.
pub fn signature_type(text: &str) -> (r: Option<Type>)
    ensures
        match (r, sig_type(text@)) {
            (Some(t), Some(v)) => ty_view(t) == v,
            (None, None) => true,
            _ => false,
        },
{
    let cs = chars_of(text);
    match parse_ty(&cs, 0, 4096) {
        Some((t, j)) => {
            if skip(&cs, j) == cs.len() {
                Some(t)
            } else {
                None
            }
        },
        None => None,
    }
}

} // verus!

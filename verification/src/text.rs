//! Small string utilities shared by the library.
use vstd::prelude::*;
use vstd::string::StringSliceAdditionalSpecFns;

verus! {

/// `String::push`: appends one character.
#[verifier::external_body]
pub fn push_char(s: &mut String, c: char)
    ensures
        final(s)@ == old(s)@.push(c),
{
    s.push(c);
}

/// `String::push_str`: appends a string slice.
#[verifier::external_body]
pub fn push_str(s: &mut String, t: &str)
    ensures
        final(s)@ == old(s)@ + t@,
{
    s.push_str(t);
}

/// `String::pop`: removes the last character.
#[verifier::external_body]
pub fn pop_char(s: &mut String) -> (r: Option<char>)
    ensures
        old(s)@.len() == 0 ==> r is None && final(s)@ == old(s)@,
        old(s)@.len() > 0 ==> r == Some(old(s)@.last()) && final(s)@ == old(s)@.drop_last(),
{
    s.pop()
}

/// Copies a string slice into a fresh `String`.
pub fn to_string(s: &str) -> (r: String)
    ensures
        r@ == s@,
{
    s.to_owned()
}

/// Equality of two string slices by their characters.
pub fn str_eq(a: &str, b: &str) -> (r: bool)
    ensures
        r == (a@ == b@),
{
    let ab = a.as_bytes();
    let bb = b.as_bytes();
    proof {
        vstd::utf8::encode_utf8_decode_utf8(a@);
        vstd::utf8::encode_utf8_decode_utf8(b@);
    }
    if ab.len() != bb.len() {
        return false;
    }
    let mut i: usize = 0;
    while i < ab.len()
        invariant
            ab@.len() == bb@.len(),
            ab@ == a.spec_bytes(),
            bb@ == b.spec_bytes(),
            i <= ab@.len(),
            ab@.subrange(0, i as int) == bb@.subrange(0, i as int),
        decreases ab@.len() - i,
    {
        if ab[i] != bb[i] {
            assert(ab@[i as int] != bb@[i as int]);
            return false;
        }
        assert(ab@.subrange(0, i + 1) == ab@.subrange(0, i as int).push(ab@[i as int]));
        assert(bb@.subrange(0, i + 1) == bb@.subrange(0, i as int).push(bb@[i as int]));
        i = i + 1;
    }
    assert(ab@ == ab@.subrange(0, ab@.len() as int));
    assert(bb@ == bb@.subrange(0, bb@.len() as int));
    true
}

/// Equality of two owned strings by their characters.
pub fn string_eq(a: &String, b: &String) -> (r: bool)
    ensures
        r == (a@ == b@),
{
    str_eq(a.as_str(), b.as_str())
}

/// Copies an owned string.
pub fn clone_string(s: &String) -> (r: String)
    ensures
        r@ == s@,
{
    s.clone()
}

/// The characters of a string slice, in order.
pub fn chars_of(s: &str) -> (r: Vec<char>)
    ensures
        r@ == s@,
{
    let mut out: Vec<char> = Vec::new();
    broadcast use vstd::string::axiom_spec_iter;
    for c in it: s.chars()
        invariant
            out@ == it.seq().take(it.index() as int),
            it.seq() == s@,
    {
        out.push(c);
    }
    out
}

/// `p` is a prefix of `s`.
pub open spec fn has_prefix(s: Seq<char>, p: Seq<char>) -> bool {
    p.len() <= s.len() && s.subrange(0, p.len() as int) == p
}

/// Whether `p` is a prefix of `s`.
pub fn starts_with(s: &str, p: &str) -> (r: bool)
    ensures
        r == has_prefix(s@, p@),
{
    let sc = chars_of(s);
    let pc = chars_of(p);
    if pc.len() > sc.len() {
        return false;
    }
    let mut i: usize = 0;
    while i < pc.len()
        invariant
            i <= pc@.len() <= sc@.len(),
            sc@ == s@,
            pc@ == p@,
            sc@.subrange(0, i as int) == pc@.subrange(0, i as int),
        decreases pc@.len() - i,
    {
        if sc[i] != pc[i] {
            assert(sc@.subrange(0, pc@.len() as int)[i as int] != pc@[i as int]);
            return false;
        }
        assert(sc@.subrange(0, i + 1) =~= sc@.subrange(0, i as int).push(sc@[i as int]));
        assert(pc@.subrange(0, i + 1) =~= pc@.subrange(0, i as int).push(pc@[i as int]));
        i = i + 1;
    }
    assert(pc@.subrange(0, pc@.len() as int) =~= pc@);
    true
}

/// The characters `cs[from..]` as a string.
pub fn string_from(cs: &Vec<char>, from: usize) -> (r: String)
    requires
        from <= cs@.len(),
    ensures
        r@ == cs@.subrange(from as int, cs@.len() as int),
{
    let mut out = String::new();
    let mut i = from;
    while i < cs.len()
        invariant
            from <= i <= cs@.len(),
            out@ == cs@.subrange(from as int, i as int),
        decreases cs@.len() - i,
    {
        push_char(&mut out, cs[i]);
        assert(cs@.subrange(from as int, i + 1) =~= cs@.subrange(from as int, i as int).push(
            cs@[i as int],
        ));
        i = i + 1;
    }
    out
}

/// `s` with the prefix `p` removed, if `s` starts with it.
pub open spec fn without_prefix(s: Seq<char>, p: Seq<char>) -> Option<Seq<char>> {
    if has_prefix(s, p) {
        Some(s.subrange(p.len() as int, s.len() as int))
    } else {
        None
    }
}

/// `s` with the prefix `p` removed, if `s` starts with it (`str::strip_prefix`).
pub fn strip_prefix(s: &str, p: &str) -> (r: Option<String>)
    ensures
        match (r, without_prefix(s@, p@)) {
            (Some(x), Some(y)) => x@ == y,
            (None, None) => true,
            _ => false,
        },
{
    if starts_with(s, p) {
        let sc = chars_of(s);
        let pc = chars_of(p);
        Some(string_from(&sc, pc.len()))
    } else {
        None
    }
}

/// `s` with every leading repetition of `p` removed
/// (`str::trim_start_matches` with a string pattern).
pub open spec fn trim_prefixes(s: Seq<char>, p: Seq<char>) -> Seq<char>
    decreases s.len(),
{
    if p.len() > 0 && has_prefix(s, p) {
        trim_prefixes(s.subrange(p.len() as int, s.len() as int), p)
    } else {
        s
    }
}

/// `s` with every leading repetition of `p` removed.
pub fn trim_start_matches(s: &str, p: &str) -> (r: String)
    ensures
        r@ == trim_prefixes(s@, p@),
{
    let mut cur = to_string(s);
    if chars_of(p).len() == 0 {
        return cur;
    }
    loop
        invariant
            trim_prefixes(cur@, p@) == trim_prefixes(s@, p@),
            p@.len() > 0,
        decreases cur@.len(),
    {
        match strip_prefix(cur.as_str(), p) {
            Some(rest) => {
                cur = rest;
            },
            None => {
                return cur;
            },
        }
    }
}

/// The first position at or after `i` where `p` occurs in `s`.
pub open spec fn find_from(s: Seq<char>, p: Seq<char>, i: int) -> Option<int>
    decreases s.len() + 1 - i,
{
    if i < 0 || i + p.len() > s.len() {
        None
    } else if s.subrange(i, i + p.len()) == p {
        Some(i)
    } else {
        find_from(s, p, i + 1)
    }
}

/// The first position where `p` occurs in `s`.
pub open spec fn find(s: Seq<char>, p: Seq<char>) -> Option<int> {
    find_from(s, p, 0)
}

pub proof fn lemma_find_from_bounds(s: Seq<char>, p: Seq<char>, i: int)
    ensures
        find_from(s, p, i) matches Some(j) ==> i <= j && j + p.len() <= s.len() && s.subrange(
            j,
            j + p.len(),
        ) == p,
    decreases s.len() + 1 - i,
{
    if !(i < 0 || i + p.len() > s.len()) && s.subrange(i, i + p.len()) != p {
        lemma_find_from_bounds(s, p, i + 1);
    }
}

/// Whether `p` occurs in `cs` at position `i`.
pub fn occurs_at(cs: &Vec<char>, p: &Vec<char>, i: usize) -> (r: bool)
    requires
        i <= cs@.len(),
    ensures
        r == (i + p@.len() <= cs@.len() && cs@.subrange(i as int, i + p@.len()) == p@),
{
    if p.len() > cs.len() - i {
        return false;
    }
    let mut k: usize = 0;
    while k < p.len()
        invariant
            k <= p@.len(),
            i + p@.len() <= cs@.len(),
            cs@.len() <= usize::MAX,
            cs@.subrange(i as int, i + k) == p@.subrange(0, k as int),
        decreases p@.len() - k,
    {
        if cs[i + k] != p[k] {
            assert(cs@.subrange(i as int, i + p@.len())[k as int] != p@[k as int]);
            return false;
        }
        assert(cs@.subrange(i as int, i + k + 1) =~= cs@.subrange(i as int, i + k).push(
            cs@[i + k],
        ));
        assert(p@.subrange(0, k + 1) =~= p@.subrange(0, k as int).push(p@[k as int]));
        k = k + 1;
    }
    assert(p@.subrange(0, p@.len() as int) =~= p@);
    true
}

/// The first position at or after `from` where `p` occurs in `cs`.
pub fn find_chars(cs: &Vec<char>, p: &Vec<char>, from: usize) -> (r: Option<usize>)
    requires
        from <= cs@.len(),
    ensures
        match (r, find_from(cs@, p@, from as int)) {
            (Some(x), Some(y)) => x == y,
            (None, None) => true,
            _ => false,
        },
{
    let mut i = from;
    while i <= cs.len()
        invariant
            from <= i <= cs@.len() + 1,
            find_from(cs@, p@, from as int) == find_from(cs@, p@, i as int),
        decreases cs@.len() + 1 - i,
    {
        if occurs_at(cs, p, i) {
            return Some(i);
        }
        if i == cs.len() {
            proof {
                reveal_with_fuel(find_from, 2);
            }
            return None;
        }
        i = i + 1;
    }
    None
}

/// The characters `cs[a..b]` as a string.
pub fn string_between(cs: &Vec<char>, a: usize, b: usize) -> (r: String)
    requires
        a <= b <= cs@.len(),
    ensures
        r@ == cs@.subrange(a as int, b as int),
{
    let mut out = String::new();
    let mut i = a;
    while i < b
        invariant
            a <= i <= b <= cs@.len(),
            out@ == cs@.subrange(a as int, i as int),
        decreases b - i,
    {
        push_char(&mut out, cs[i]);
        assert(cs@.subrange(a as int, i + 1) =~= cs@.subrange(a as int, i as int).push(
            cs@[i as int],
        ));
        i = i + 1;
    }
    out
}

/// Appends the characters `cs[a..b]`.
pub fn push_between(out: &mut String, cs: &Vec<char>, a: usize, b: usize)
    requires
        a <= b <= cs@.len(),
    ensures
        final(out)@ == old(out)@ + cs@.subrange(a as int, b as int),
{
    let piece = string_between(cs, a, b);
    push_str(out, piece.as_str());
}

/// `s` with every occurrence of `p` (found left to right, not overlapping)
/// replaced by `q`.
pub open spec fn replace_all(s: Seq<char>, p: Seq<char>, q: Seq<char>) -> Seq<char>
    decreases s.len(),
{
    if p.len() == 0 {
        s
    } else {
        match find(s, p) {
            None => s,
            Some(i) => if 0 <= i && i + p.len() <= s.len() {
                s.subrange(0, i) + q + replace_all(s.subrange(i + p.len(), s.len() as int), p, q)
            } else {
                s
            },
        }
    }
}

/// `s` with every occurrence of `p` replaced by `q` (`str::replace`).
pub fn replace(s: &str, p: &str, q: &str) -> (r: String)
    ensures
        r@ == replace_all(s@, p@, q@),
{
    let cs = chars_of(s);
    let pc = chars_of(p);
    if pc.len() == 0 {
        return to_string(s);
    }
    let mut out = String::new();
    let mut pos: usize = 0;
    let n = cs.len();
    proof {
        assert(cs@.subrange(0, cs@.len() as int) =~= cs@);
        assert(out@ + replace_all(s@, p@, q@) =~= replace_all(s@, p@, q@));
    }
    loop
        invariant
            pos <= cs@.len(),
            n == cs@.len(),
            cs@ == s@,
            pc@ == p@,
            pc@.len() > 0,
            out@ + replace_all(cs@.subrange(pos as int, cs@.len() as int), p@, q@) == replace_all(
                s@,
                p@,
                q@,
            ),
        decreases cs@.len() - pos,
    {
        let ghost rest = cs@.subrange(pos as int, cs@.len() as int);
        match find_chars(&cs, &pc, pos) {
            None => {
                proof {
                    lemma_find_shift(cs@, p@, pos as int);
                }
                push_between(&mut out, &cs, pos, cs.len());
                return out;
            },
            Some(i) => {
                proof {
                    lemma_find_shift(cs@, p@, pos as int);
                    lemma_find_from_bounds(cs@, p@, pos as int);
                    assert(find_from(cs@, p@, pos as int) == Some(i as int));
                    assert(pos <= i && i + p@.len() <= cs@.len());
                    assert(rest.subrange(0, i - pos) =~= cs@.subrange(pos as int, i as int));
                    assert(rest.subrange(i - pos + p@.len(), rest.len() as int)
                        =~= cs@.subrange(i + p@.len(), cs@.len() as int));
                }
                push_between(&mut out, &cs, pos, i);
                push_str(&mut out, q);
                pos = i + pc.len();
            },
        }
    }
}

/// Searching a suffix is searching the whole from the suffix's start.
pub proof fn lemma_find_shift(s: Seq<char>, p: Seq<char>, k: int)
    requires
        0 <= k <= s.len(),
    ensures
        find(s.subrange(k, s.len() as int), p) == match find_from(s, p, k) {
            Some(j) => Some(j - k),
            None => None,
        },
{
    lemma_find_shift_from(s, p, k, 0);
}

pub proof fn lemma_find_shift_from(s: Seq<char>, p: Seq<char>, k: int, i: int)
    requires
        0 <= k <= s.len(),
        0 <= i,
    ensures
        find_from(s.subrange(k, s.len() as int), p, i) == match find_from(s, p, k + i) {
            Some(j) => Some(j - k),
            None => None,
        },
    decreases s.len() + 1 - k - i,
{
    let t = s.subrange(k, s.len() as int);
    if i + p.len() <= t.len() {
        assert(t.subrange(i, i + p.len()) =~= s.subrange(k + i, k + i + p.len()));
        if t.subrange(i, i + p.len()) != p {
            lemma_find_shift_from(s, p, k, i + 1);
        }
    }
}


/// An occurrence of `p` at `j`, at or after `i`, is found from `i`.
pub proof fn lemma_find_some(s: Seq<char>, p: Seq<char>, i: int, j: int)
    requires
        0 <= i <= j,
        j + p.len() <= s.len(),
        s.subrange(j, j + p.len()) == p,
    ensures
        find_from(s, p, i) is Some,
    decreases j - i,
{
    if s.subrange(i, i + p.len()) != p {
        lemma_find_some(s, p, i + 1, j);
    }
}

/// Whether `p` occurs in `s` (`str::contains`).
pub fn contains(s: &str, p: &str) -> (r: bool)
    ensures
        r == (find(s@, p@) is Some),
{
    let cs = chars_of(s);
    let pc = chars_of(p);
    find_chars(&cs, &pc, 0).is_some()
}

/// `s` with its first occurrence of `p`, if any, replaced by `q`.
pub open spec fn replace_once(s: Seq<char>, p: Seq<char>, q: Seq<char>) -> Seq<char> {
    match find(s, p) {
        Some(i) => s.subrange(0, i) + q + s.subrange(i + p.len(), s.len() as int),
        None => s,
    }
}

/// `s` with its first occurrence of `p` replaced by `q` (`str::replacen`
/// with a count of one).
pub fn replace_first(s: &str, p: &str, q: &str) -> (r: String)
    ensures
        r@ == replace_once(s@, p@, q@),
{
    let cs = chars_of(s);
    let pc = chars_of(p);
    let n = cs.len();
    match find_chars(&cs, &pc, 0) {
        None => to_string(s),
        Some(i) => {
            proof {
                lemma_find_from_bounds(cs@, pc@, 0);
                assert(find_from(cs@, pc@, 0) == Some(i as int));
            }
            let mut out = string_between(&cs, 0, i);
            push_str(&mut out, q);
            push_between(&mut out, &cs, i + pc.len(), n);
            out
        },
    }
}

/// The first position at or after `i` where `c` stands in `s`.
pub open spec fn char_index_from(s: Seq<char>, c: char, i: int) -> Option<int>
    decreases s.len() - i,
{
    if i < 0 || i >= s.len() {
        None
    } else if s[i] == c {
        Some(i)
    } else {
        char_index_from(s, c, i + 1)
    }
}

/// The last position before `n` where `c` stands in `s`.
pub open spec fn char_rindex(s: Seq<char>, c: char, n: int) -> Option<int>
    decreases n,
{
    if n <= 0 || n > s.len() {
        None
    } else if s[n - 1] == c {
        Some(n - 1)
    } else {
        char_rindex(s, c, n - 1)
    }
}

/// The first position at or after `from` where `c` stands.
pub fn find_char(cs: &Vec<char>, c: char, from: usize) -> (r: Option<usize>)
    ensures
        match (r, char_index_from(cs@, c, from as int)) {
            (Some(a), Some(b)) => a == b,
            (None, None) => true,
            _ => false,
        },
        r matches Some(a) ==> from <= a < cs@.len() && cs@[a as int] == c,
{
    let mut i = from;
    while i < cs.len()
        invariant
            from <= i,
            char_index_from(cs@, c, from as int) == char_index_from(cs@, c, i as int),
        decreases cs@.len() - i,
    {
        if cs[i] == c {
            return Some(i);
        }
        i = i + 1;
    }
    None
}

/// The last position where `c` stands.
pub fn rfind_char(cs: &Vec<char>, c: char) -> (r: Option<usize>)
    ensures
        match (r, char_rindex(cs@, c, cs@.len() as int)) {
            (Some(a), Some(b)) => a == b,
            (None, None) => true,
            _ => false,
        },
        r matches Some(a) ==> a < cs@.len() && cs@[a as int] == c,
{
    let mut n = cs.len();
    while n > 0
        invariant
            n <= cs@.len(),
            char_rindex(cs@, c, cs@.len() as int) == char_rindex(cs@, c, n as int),
        decreases n,
    {
        if cs[n - 1] == c {
            return Some(n - 1);
        }
        n = n - 1;
    }
    None
}

/// `s` without the repetitions of `c` at its end.
pub open spec fn trim_end_char(s: Seq<char>, c: char) -> Seq<char>
    decreases s.len(),
{
    if s.len() > 0 && s.last() == c {
        trim_end_char(s.drop_last(), c)
    } else {
        s
    }
}

/// `s` without the repetitions of `c` at its end (`str::trim_end_matches`
/// with a character).
pub fn trim_end_matches_char(s: &str, c: char) -> (r: String)
    ensures
        r@ == trim_end_char(s@, c),
{
    let cs = chars_of(s);
    let mut e = cs.len();
    assert(cs@.subrange(0, e as int) =~= cs@);
    while e > 0 && cs[e - 1] == c
        invariant
            e <= cs@.len(),
            trim_end_char(cs@, c) == trim_end_char(cs@.subrange(0, e as int), c),
        decreases e,
    {
        assert(cs@.subrange(0, e - 1) =~= cs@.subrange(0, e as int).drop_last());
        e = e - 1;
    }
    string_between(&cs, 0, e)
}

/// A character with ASCII upper case letters made lower case.
pub open spec fn ascii_lower_char(c: char) -> char {
    if 'A' <= c <= 'Z' {
        ((c as u32) + 32) as char
    } else {
        c
    }
}

/// `s` with ASCII upper case letters made lower case.
pub open spec fn ascii_lower(s: Seq<char>) -> Seq<char> {
    s.map_values(|c: char| ascii_lower_char(c))
}

/// `s` with ASCII upper case letters made lower case
/// (`str::to_ascii_lowercase`).
pub fn to_ascii_lowercase(s: &str) -> (r: String)
    ensures
        r@ == ascii_lower(s@),
{
    let cs = chars_of(s);
    let mut out = String::new();
    let mut i: usize = 0;
    while i < cs.len()
        invariant
            i <= cs@.len(),
            out@ == ascii_lower(cs@.subrange(0, i as int)),
        decreases cs@.len() - i,
    {
        let c = cs[i];
        let d = if 'A' <= c && c <= 'Z' {
            let v = (c as u32) + 32;
            match crate::syntax::lexer::char_from_u32(v) {
                Some(d) => d,
                None => c,
            }
        } else {
            c
        };
        push_char(&mut out, d);
        assert(ascii_lower(cs@.subrange(0, i + 1)) =~= ascii_lower(cs@.subrange(0, i as int)).push(ascii_lower_char(c)));
        i = i + 1;
    }
    assert(cs@.subrange(0, cs@.len() as int) =~= cs@);
    out
}

/// No occurrence of `p` in `x + y` starts in `x` and ends in `y`.
pub open spec fn no_straddle(x: Seq<char>, y: Seq<char>, p: Seq<char>) -> bool {
    forall|i: int|
        0 <= i < x.len() < i + p.len() <= x.len() + y.len() ==> #[trigger] (x + y).subrange(i, i + p.len()) != p
}

/// Searching `x + y` from inside `x`, where no occurrence straddles: the
/// first occurrence in `x`, else the first in `y`, shifted.
pub proof fn lemma_find_concat(x: Seq<char>, y: Seq<char>, p: Seq<char>, j: int)
    requires
        p.len() > 0,
        0 <= j <= x.len(),
        no_straddle(x, y, p),
    ensures
        find_from(x + y, p, j) == match find_from(x, p, j) {
            Some(i) => Some(i),
            None => match find(y, p) {
                Some(k) => Some(x.len() + k),
                None => None,
            },
        },
    decreases x.len() + 1 - j,
{
    let s = x + y;
    if j == x.len() {
        lemma_find_shift(s, p, x.len() as int);
        assert(s.subrange(x.len() as int, s.len() as int) =~= y);
    } else if j + p.len() <= x.len() {
        assert(s.subrange(j, j + p.len()) =~= x.subrange(j, j + p.len()));
        if x.subrange(j, j + p.len()) != p {
            lemma_find_concat(x, y, p, j + 1);
        }
    } else {
        if j + p.len() <= s.len() {
            assert(s.subrange(j, j + p.len()) != p);
            lemma_find_concat(x, y, p, j + 1);
        } else {
            assert(find_from(y, p, 0) is None);
        }
    }
}

/// Replacing in `x + y`, where no occurrence straddles, replaces in each.
pub proof fn lemma_replace_all_concat(x: Seq<char>, y: Seq<char>, p: Seq<char>, q: Seq<char>)
    requires
        p.len() > 0,
        no_straddle(x, y, p),
    ensures
        replace_all(x + y, p, q) == replace_all(x, p, q) + replace_all(y, p, q),
    decreases x.len(),
{
    let s = x + y;
    lemma_find_concat(x, y, p, 0);
    lemma_find_from_bounds(x, p, 0);
    lemma_find_from_bounds(y, p, 0);
    match find(x, p) {
        Some(i) => {
            let x2 = x.subrange(i + p.len(), x.len() as int);
            assert(s.subrange(0, i) =~= x.subrange(0, i));
            assert(s.subrange(i + p.len(), s.len() as int) =~= x2 + y);
            assert forall|k: int| 0 <= k < x2.len() < k + p.len() <= x2.len() + y.len() implies #[trigger] (x2 + y).subrange(k, k + p.len()) != p by {
                assert((x2 + y).subrange(k, k + p.len()) =~= s.subrange(i + p.len() + k, i + p.len() + k + p.len()));
            }
            lemma_replace_all_concat(x2, y, p, q);
            assert(replace_all(s, p, q) =~= replace_all(x, p, q) + replace_all(y, p, q));
        },
        None => {
            match find(y, p) {
                Some(k) => {
                    assert(s.subrange(0, x.len() + k) =~= x + y.subrange(0, k));
                    assert(s.subrange(x.len() + k + p.len(), s.len() as int) =~= y.subrange(k + p.len(), y.len() as int));
                    assert(replace_all(s, p, q) =~= replace_all(x, p, q) + replace_all(y, p, q));
                },
                None => {},
            }
        },
    }
}

} // verus!

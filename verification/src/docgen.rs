//! Text handling behind the documentation site: the style patch for
//! narrative pages, escaping and unescaping markup, and short hashes.
use vstd::prelude::*;
use vstd::string::StringSliceAdditionalSpecFns;
use vstd::utf8::{decode_utf8, is_char_boundary};
use crate::text::{
    chars_of, contains, find, find_chars, find_from, lemma_find_from_bounds, lemma_find_shift,
    lemma_find_some, lemma_replace_all_concat, no_straddle, push_between, push_str, replace, replace_all, replace_first, replace_once,
    to_string,
};

verus! {

/// The comment that marks a narrative page as already patched.
pub const NARRATIVE_DOC_PATCH_MARKER: &'static str = "hiko-docgen narrative patch";

/// The text of the style patch before the marker.
pub const NARRATIVE_DOC_CSS_PATCH_OPEN: &'static str = "\n    /* ";

/// The text of the style patch after the marker.
pub const NARRATIVE_DOC_CSS_PATCH_REST: &'static str = r#" */
    pre.code-block code { background: transparent; border-radius: 0; padding: 0; word-break: normal; }
    .tok-keyword { color: #8f2d15; font-weight: 700; }
    .tok-comment { color: #8f806f; font-style: italic; }
    .tok-string { color: #26665a; }
    .tok-string-special { color: #4a5ec9; }
    .tok-number { color: #8e5b00; }
    .tok-number-float { color: #8e5b00; }
    .tok-constant-builtin-boolean { color: #4b3fb5; font-weight: 700; }
    .tok-type-definition { color: #7d3a96; }
    .tok-type { color: #1e5a99; }
    .tok-constructor { color: #8b4d13; }
    .tok-function-special { color: #9f2246; font-weight: 700; }
    .tok-function { color: #9f2246; }
    .tok-module { color: #1f5f9e; font-weight: 700; }
    .tok-namespace { color: #6a2f88; }
    .tok-variable { color: #201b15; }
    .tok-variable-member { color: #8f2d15; }
"#;

/// The style rules added to a narrative page, the marker among them.
pub open spec fn css_patch() -> Seq<char> {
    NARRATIVE_DOC_CSS_PATCH_OPEN@ + NARRATIVE_DOC_PATCH_MARKER@ + NARRATIVE_DOC_CSS_PATCH_REST@
}

/// A page with the style patch: unchanged when it already has the marker,
/// else the patch goes in before its first closing style tag (if any).
pub open spec fn patched(html: Seq<char>) -> Seq<char> {
    if find(html, NARRATIVE_DOC_PATCH_MARKER@) is Some {
        html
    } else {
        replace_once(html, "</style>"@, css_patch() + "\n  </style>"@)
    }
}

/// The style rules added to a narrative page.
pub fn narrative_doc_css_patch() -> (r: String)
    ensures
        r@ == css_patch(),
{
    let mut out = to_string(NARRATIVE_DOC_CSS_PATCH_OPEN);
    push_str(&mut out, NARRATIVE_DOC_PATCH_MARKER);
    push_str(&mut out, NARRATIVE_DOC_CSS_PATCH_REST);
    out
}

/// Adds the narrative style patch to a page that does not have it yet.
pub fn ensure_narrative_doc_css_patch(html: &str) -> (r: String)
    ensures
        r@ == patched(html@),
{
    if contains(html, NARRATIVE_DOC_PATCH_MARKER) {
        return to_string(html);
    }
    let mut replacement = narrative_doc_css_patch();
    push_str(&mut replacement, "\n  </style>");
    replace_first(html, "</style>", replacement.as_str())
}

/// Patching a page twice gives what patching it once gives.
pub proof fn law_narrative_patch_idempotent(html: Seq<char>)
    ensures
        patched(patched(html)) == patched(html),
{
    let m = NARRATIVE_DOC_PATCH_MARKER@;
    if find(html, m) is None {
        let close = "</style>"@;
        let ins = css_patch() + "\n  </style>"@;
        match find(html, close) {
            Some(i) => {
                lemma_find_from_bounds(html, close, 0);
                let r = html.subrange(0, i) + ins + html.subrange(i + close.len(), html.len() as int);
                let j = i + NARRATIVE_DOC_CSS_PATCH_OPEN@.len();
                assert(r.subrange(j, j + m.len()) =~= m);
                lemma_find_some(r, m, 0, j);
            },
            None => {},
        }
    }
}

// ── Markup ───────────────────────────────────────────────────────────────

/// The markup for one character of text.
pub open spec fn escape_char(c: char) -> Seq<char> {
    if c == '&' {
        "&amp;"@
    } else if c == '<' {
        "&lt;"@
    } else if c == '>' {
        "&gt;"@
    } else if c == '"' {
        "&quot;"@
    } else if c == '\'' {
        "&#39;"@
    } else {
        seq![c]
    }
}

/// Text as markup: the five special characters written as entities.
pub open spec fn escape_text(s: Seq<char>) -> Seq<char>
    decreases s.len(),
{
    if s.len() == 0 {
        Seq::empty()
    } else {
        escape_text(s.drop_last()) + escape_char(s.last())
    }
}

/// Escapes the characters that are special in markup.
pub fn escape_html(text: &str) -> (r: String)
    ensures
        r@ == escape_text(text@),
{
    let cs = chars_of(text);
    let mut escaped = String::new();
    let mut i: usize = 0;
    while i < cs.len()
        invariant
            i <= cs@.len(),
            cs@ == text@,
            escaped@ == escape_text(cs@.take(i as int)),
        decreases cs@.len() - i,
    {
        let ch = cs[i];
        let ghost before = escaped@;
        if ch == '&' {
            push_str(&mut escaped, "&amp;");
        } else if ch == '<' {
            push_str(&mut escaped, "&lt;");
        } else if ch == '>' {
            push_str(&mut escaped, "&gt;");
        } else if ch == '"' {
            push_str(&mut escaped, "&quot;");
        } else if ch == '\'' {
            push_str(&mut escaped, "&#39;");
        } else {
            crate::text::push_char(&mut escaped, ch);
            assert(escaped@ =~= before + seq![ch]);
        }
        assert(cs@.take(i + 1).drop_last() =~= cs@.take(i as int));
        i = i + 1;
    }
    assert(cs@.take(cs@.len() as int) =~= cs@);
    escaped
}

/// Markup entities turned back into the characters they stand for, the
/// ampersand last.
pub open spec fn decoded(t: Seq<char>) -> Seq<char> {
    replace_all(
        replace_all(
            replace_all(replace_all(replace_all(t, "&lt;"@, "<"@), "&gt;"@, ">"@), "&quot;"@, "\""@),
            "&#39;"@,
            "'"@,
        ),
        "&amp;"@,
        "&"@,
    )
}

/// Turns the entities that escaping writes back into characters.
pub fn decode_html_entities(text: &str) -> (r: String)
    ensures
        r@ == decoded(text@),
{
    let a = replace(text, "&lt;", "<");
    let b = replace(a.as_str(), "&gt;", ">");
    let c = replace(b.as_str(), "&quot;", "\"");
    let d = replace(c.as_str(), "&#39;", "'");
    replace(d.as_str(), "&amp;", "&")
}

// ── Decoding undoes escaping ─────────────────────────────────────────────

/// The place of a special character in the order decoding turns its
/// entity back: `<`, `>`, `"`, `'`, then `&`; other characters have none.
pub open spec fn rank(c: char) -> int {
    if c == '<' {
        1
    } else if c == '>' {
        2
    } else if c == '"' {
        3
    } else if c == '\'' {
        4
    } else if c == '&' {
        5
    } else {
        0
    }
}

/// The special character of rank `r`.
pub open spec fn ranked(r: int) -> char {
    if r == 1 {
        '<'
    } else if r == 2 {
        '>'
    } else if r == 3 {
        '"'
    } else if r == 4 {
        '\''
    } else {
        '&'
    }
}

/// The entity escaping writes for the character of rank `r`.
pub open spec fn entity(r: int) -> Seq<char> {
    if r == 1 {
        seq!['&', 'l', 't', ';']
    } else if r == 2 {
        seq!['&', 'g', 't', ';']
    } else if r == 3 {
        seq!['&', 'q', 'u', 'o', 't', ';']
    } else if r == 4 {
        seq!['&', '#', '3', '9', ';']
    } else {
        seq!['&', 'a', 'm', 'p', ';']
    }
}

/// A character as it stands after the first `k` decoding passes over its
/// escaped form.
pub open spec fn esc_char_at(k: int, c: char) -> Seq<char> {
    if rank(c) == 0 || rank(c) <= k {
        seq![c]
    } else {
        entity(rank(c))
    }
}

/// Text as it stands after the first `k` decoding passes over its escaped
/// form.
pub open spec fn esc_at(k: int, s: Seq<char>) -> Seq<char>
    decreases s.len(),
{
    if s.len() == 0 {
        Seq::empty()
    } else {
        esc_at(k, s.drop_last()) + esc_char_at(k, s.last())
    }
}

/// Every ampersand of `x` opens a whole entity.
pub open spec fn amp_ok(x: Seq<char>) -> bool {
    forall|i: int|
        0 <= i < x.len() && x[i] == '&' ==> exists|r: int|
            1 <= r <= 5 && i + entity(r).len() <= x.len() && #[trigger] x.subrange(i, i + entity(r).len()) == entity(r)
}

proof fn lemma_escape_char_is_stage_zero(c: char)
    ensures
        escape_char(c) == esc_char_at(0, c),
{
    reveal_strlit("&amp;");
    reveal_strlit("&lt;");
    reveal_strlit("&gt;");
    reveal_strlit("&quot;");
    reveal_strlit("&#39;");
    assert("&amp;"@ =~= entity(5));
    assert("&lt;"@ =~= entity(1));
    assert("&gt;"@ =~= entity(2));
    assert("&quot;"@ =~= entity(3));
    assert("&#39;"@ =~= entity(4));
}

proof fn lemma_escape_is_stage_zero(s: Seq<char>)
    ensures
        escape_text(s) == esc_at(0, s),
    decreases s.len(),
{
    if s.len() > 0 {
        lemma_escape_is_stage_zero(s.drop_last());
        lemma_escape_char_is_stage_zero(s.last());
    }
}

proof fn lemma_stage_five_is_plain(s: Seq<char>)
    ensures
        esc_at(5, s) == s,
    decreases s.len(),
{
    if s.len() > 0 {
        lemma_stage_five_is_plain(s.drop_last());
        assert(s.drop_last().push(s.last()) =~= s);
        assert(esc_char_at(5, s.last()) =~= seq![s.last()]);
    }
}

proof fn lemma_amp_ok_token(k: int, c: char)
    requires
        k <= 4,
    ensures
        amp_ok(esc_char_at(k, c)),
{
    let t = esc_char_at(k, c);
    assert forall|i: int| 0 <= i < t.len() && t[i] == '&' implies exists|r: int|
        1 <= r <= 5 && i + entity(r).len() <= t.len() && #[trigger] t.subrange(i, i + entity(r).len()) == entity(r) by {
        let r = rank(c);
        assert(r != 0 && r > k);
        assert(i == 0);
        assert(t.subrange(i, i + entity(r).len()) =~= entity(r));
    }
}

proof fn lemma_amp_ok_concat(x: Seq<char>, y: Seq<char>)
    requires
        amp_ok(x),
        amp_ok(y),
    ensures
        amp_ok(x + y),
{
    let s = x + y;
    assert forall|i: int| 0 <= i < s.len() && s[i] == '&' implies exists|r: int|
        1 <= r <= 5 && i + entity(r).len() <= s.len() && #[trigger] s.subrange(i, i + entity(r).len()) == entity(r) by {
        if i < x.len() {
            assert(x[i] == '&');
            let r = choose|r: int|
                1 <= r <= 5 && i + entity(r).len() <= x.len() && #[trigger] x.subrange(i, i + entity(r).len()) == entity(r);
            assert(s.subrange(i, i + entity(r).len()) =~= x.subrange(i, i + entity(r).len()));
        } else {
            let j = i - x.len();
            assert(y[j] == '&');
            let r = choose|r: int|
                1 <= r <= 5 && j + entity(r).len() <= y.len() && #[trigger] y.subrange(j, j + entity(r).len()) == entity(r);
            assert(s.subrange(i, i + entity(r).len()) =~= y.subrange(j, j + entity(r).len()));
        }
    }
}

proof fn lemma_amp_ok_stage(k: int, s: Seq<char>)
    requires
        k <= 4,
    ensures
        amp_ok(esc_at(k, s)),
    decreases s.len(),
{
    if s.len() == 0 {
        assert(amp_ok(Seq::<char>::empty()));
    } else {
        lemma_amp_ok_stage(k, s.drop_last());
        lemma_amp_ok_token(k, s.last());
        lemma_amp_ok_concat(esc_at(k, s.drop_last()), esc_char_at(k, s.last()));
    }
}

proof fn lemma_entity_second(r: int, k: int)
    requires
        1 <= r <= 5,
        1 <= k <= 5,
        entity(r)[1] == entity(k)[1],
    ensures
        r == k,
{
}

proof fn lemma_no_straddle(x: Seq<char>, y: Seq<char>, k: int)
    requires
        amp_ok(x),
        1 <= k <= 5,
    ensures
        no_straddle(x, y, entity(k)),
{
    let p = entity(k);
    let s = x + y;
    assert forall|i: int| 0 <= i < x.len() < i + p.len() <= x.len() + y.len() implies #[trigger] s.subrange(i, i + p.len()) != p by {
        if s.subrange(i, i + p.len()) == p {
            assert(s[i] == p[0]);
            assert(x[i] == '&');
            let r = choose|r: int|
                1 <= r <= 5 && i + entity(r).len() <= x.len() && #[trigger] x.subrange(i, i + entity(r).len()) == entity(r);
            assert(x.subrange(i, i + entity(r).len())[1] == x[i + 1]);
            assert(s.subrange(i, i + p.len())[1] == s[i + 1]);
            lemma_entity_second(r, k);
        }
    }
}

/// `p`, of two or more characters opening with `&` and holding no other,
/// does not occur in `t` where `t` is one character or another entity.
proof fn lemma_token_lacks(t: Seq<char>, k: int)
    requires
        1 <= k <= 5,
        t.len() == 1 || exists|r: int| 1 <= r <= 5 && r != k && t == entity(r),
    ensures
        find(t, entity(k)) is None,
{
    let p = entity(k);
    lemma_find_from_bounds(t, p, 0);
    if find(t, p) is Some {
        let j = find(t, p)->0;
        assert(t.subrange(j, j + p.len()) == p);
        if t.len() != 1 {
            let r = choose|r: int| 1 <= r <= 5 && r != k && t == entity(r);
            assert(t.subrange(j, j + p.len())[0] == t[j]);
            assert(t.subrange(j, j + p.len())[1] == t[j + 1]);
            if j == 0 {
                lemma_entity_second(r, k);
            } else {
                assert(j <= 2);
            }
        }
    }
}

proof fn lemma_pass_token(k: int, c: char)
    requires
        1 <= k <= 5,
    ensures
        replace_all(esc_char_at(k - 1, c), entity(k), seq![ranked(k)]) == esc_char_at(k, c),
{
    let t = esc_char_at(k - 1, c);
    let p = entity(k);
    if rank(c) == k {
        assert(t == p);
        assert(p.subrange(0, p.len() as int) =~= p);
        assert(find(p, p) == Some(0int));
        let rest = p.subrange(p.len() as int, p.len() as int);
        assert(rest =~= Seq::<char>::empty());
        assert(find(rest, p) is None);
        assert(replace_all(rest, p, seq![ranked(k)]) == rest);
        assert(c == ranked(k));
        assert(replace_all(t, p, seq![ranked(k)]) =~= seq![ranked(k)]);
    } else {
        if rank(c) == 0 || rank(c) <= k - 1 {
            lemma_token_lacks(t, k);
        } else {
            assert(t == entity(rank(c)));
            lemma_token_lacks(t, k);
        }
    }
}

proof fn lemma_pass(k: int, s: Seq<char>)
    requires
        1 <= k <= 5,
    ensures
        replace_all(esc_at(k - 1, s), entity(k), seq![ranked(k)]) == esc_at(k, s),
    decreases s.len(),
{
    let p = entity(k);
    if s.len() == 0 {
        assert(find(Seq::<char>::empty(), p) is None);
    } else {
        let x = esc_at(k - 1, s.drop_last());
        let y = esc_char_at(k - 1, s.last());
        lemma_amp_ok_stage(k - 1, s.drop_last());
        lemma_no_straddle(x, y, k);
        lemma_replace_all_concat(x, y, p, seq![ranked(k)]);
        lemma_pass(k, s.drop_last());
        lemma_pass_token(k, s.last());
    }
}

/// Decoding the entities of escaped text gives the text back.
pub proof fn law_decode_undoes_escape(s: Seq<char>)
    ensures
        decoded(escape_text(s)) == s,
{
    reveal_strlit("&lt;");
    reveal_strlit("&gt;");
    reveal_strlit("&quot;");
    reveal_strlit("&#39;");
    reveal_strlit("&amp;");
    reveal_strlit("<");
    reveal_strlit(">");
    reveal_strlit("\"");
    reveal_strlit("'");
    reveal_strlit("&");
    assert("&lt;"@ =~= entity(1));
    assert("&gt;"@ =~= entity(2));
    assert("&quot;"@ =~= entity(3));
    assert("&#39;"@ =~= entity(4));
    assert("&amp;"@ =~= entity(5));
    assert("<"@ =~= seq![ranked(1)]);
    assert(">"@ =~= seq![ranked(2)]);
    assert("\""@ =~= seq![ranked(3)]);
    assert("'"@ =~= seq![ranked(4)]);
    assert("&"@ =~= seq![ranked(5)]);
    lemma_escape_is_stage_zero(s);
    lemma_pass(1, s);
    lemma_pass(2, s);
    lemma_pass(3, s);
    lemma_pass(4, s);
    lemma_pass(5, s);
    lemma_stage_five_is_plain(s);
}

/// `s` with its tags removed: an opening tag runs from `o` to the next `g`,
/// a closing tag is `c`; each is dropped where it comes first, and an opening
/// tag left without its end stays as it is.
pub open spec fn strip_tags(s: Seq<char>, o: Seq<char>, c: Seq<char>, g: Seq<char>) -> Seq<char>
    decreases s.len(),
{
    if c.len() == 0 || g.len() == 0 {
        s
    } else {
        let open = find(s, o);
        let close = find(s, c);
        if close is Some && (open is None || close->0 < open->0) {
            let ci = close->0;
            proof {
                lemma_find_from_bounds(s, c, 0);
            }
            s.subrange(0, ci) + strip_tags(s.subrange(ci + c.len(), s.len() as int), o, c, g)
        } else if open is Some {
            let oi = open->0;
            proof {
                lemma_find_from_bounds(s, o, 0);
            }
            let after = s.subrange(oi, s.len() as int);
            match find(after, g) {
                Some(t) => {
                    proof {
                        lemma_find_from_bounds(after, g, 0);
                    }
                    s.subrange(0, oi) + strip_tags(
                        after.subrange(t + g.len(), after.len() as int),
                        o,
                        c,
                        g,
                    )
                },
                None => s,
            }
        } else {
            s
        }
    }
}

/// The text of highlighted markup: every `span` tag removed.
pub open spec fn without_spans(html: Seq<char>) -> Seq<char> {
    strip_tags(html, "<span"@, "</span>"@, ">"@)
}

/// Removes the `span` tags of earlier highlighting, keeping their text.
pub fn strip_span_tags(html: &str) -> (r: String)
    ensures
        r@ == without_spans(html@),
{
    let cs = chars_of(html);
    let open = chars_of("<span");
    let close = chars_of("</span>");
    let gt = chars_of(">");
    proof {
        reveal_strlit("</span>");
        reveal_strlit(">");
    }
    let ghost o = open@;
    let ghost c = close@;
    let ghost g = gt@;
    let ghost whole = strip_tags(cs@, o, c, g);
    let n = cs.len();
    let mut out = String::new();
    let mut pos: usize = 0;
    assert(cs@.subrange(0, n as int) =~= cs@);
    assert(out@ + whole =~= whole);
    loop
        invariant
            pos <= n,
            n == cs@.len(),
            cs@ == html@,
            o == open@,
            c == close@,
            g == gt@,
            c.len() == 7,
            g.len() == 1,
            whole == without_spans(html@),
            out@ + strip_tags(cs@.subrange(pos as int, n as int), o, c, g) == whole,
        decreases n - pos,
    {
        let ghost rest = cs@.subrange(pos as int, n as int);
        let oi = find_chars(&cs, &open, pos);
        let ci = find_chars(&cs, &close, pos);
        proof {
            lemma_find_shift(cs@, o, pos as int);
            lemma_find_shift(cs@, c, pos as int);
            lemma_find_from_bounds(cs@, o, pos as int);
            lemma_find_from_bounds(cs@, c, pos as int);
        }
        let close_first = match (oi, ci) {
            (Some(a), Some(b)) => b < a,
            (None, Some(_)) => true,
            _ => false,
        };
        if close_first {
            let b = match ci {
                Some(b) => b,
                None => pos,
            };
            proof {
                assert(find_from(cs@, c, pos as int) == Some(b as int));
                assert(rest.subrange(0, b - pos) =~= cs@.subrange(pos as int, b as int));
                assert(rest.subrange(b - pos + c.len(), rest.len() as int) =~= cs@.subrange(
                    b + c.len(),
                    n as int,
                ));
            }
            push_between(&mut out, &cs, pos, b);
            pos = b + 7;
        } else {
            match oi {
                Some(a) => {
                    let t = find_chars(&cs, &gt, a);
                    proof {
                        assert(find_from(cs@, o, pos as int) == Some(a as int));
                        let after = rest.subrange(a - pos, rest.len() as int);
                        assert(after =~= cs@.subrange(a as int, n as int));
                        lemma_find_shift(cs@, g, a as int);
                        lemma_find_from_bounds(cs@, g, a as int);
                    }
                    match t {
                        Some(t) => {
                            proof {
                                let after = rest.subrange(a - pos, rest.len() as int);
                                assert(find_from(cs@, g, a as int) == Some(t as int));
                                assert(rest.subrange(0, a - pos) =~= cs@.subrange(pos as int, a as int));
                                assert(after.subrange(t - a + g.len(), after.len() as int) =~= cs@.subrange(
                                    t + 1,
                                    n as int,
                                ));
                            }
                            push_between(&mut out, &cs, pos, a);
                            pos = t + 1;
                        },
                        None => {
                            push_between(&mut out, &cs, pos, n);
                            return out;
                        },
                    }
                },
                None => {
                    push_between(&mut out, &cs, pos, n);
                    return out;
                },
            }
        }
    }
}

// ── Hashes and pages ─────────────────────────────────────────────────────

/// A content hash shortened for display: up to 23 bytes it is kept whole,
/// else its first 15 bytes and last 8 are kept round an ellipsis.
pub open spec fn short_hash(bytes: Seq<u8>) -> Seq<char> {
    if bytes.len() <= 23 {
        decode_utf8(bytes)
    } else {
        decode_utf8(bytes.subrange(0, 15)) + "..."@ + decode_utf8(
            bytes.subrange(bytes.len() - 8, bytes.len() as int),
        )
    }
}

/// Shortens a content hash for display.
pub fn trim_hash(hash: &str) -> (r: String)
    requires
        hash.spec_bytes().len() > 23 ==> is_char_boundary(hash.spec_bytes(), 15)
            && is_char_boundary(hash.spec_bytes(), hash.spec_bytes().len() - 8),
    ensures
        r@ == short_hash(hash.spec_bytes()),
{
    proof {
        vstd::utf8::encode_utf8_decode_utf8(hash@);
        assert(hash.spec_bytes() == vstd::utf8::encode_utf8(hash@));
    }
    let n = hash.as_bytes().len();
    if n <= 23 {
        return to_string(hash);
    }
    let (prefix, _) = hash.split_at(15);
    let (_, suffix) = hash.split_at(n - 8);
    proof {
        vstd::utf8::encode_utf8_decode_utf8(prefix@);
        vstd::utf8::encode_utf8_decode_utf8(suffix@);
        assert(prefix.spec_bytes() == vstd::utf8::encode_utf8(prefix@));
        assert(suffix.spec_bytes() == vstd::utf8::encode_utf8(suffix@));
    }
    let mut out = to_string(prefix);
    push_str(&mut out, "...");
    push_str(&mut out, suffix);
    out
}

/// The text of a generated page: its head with the escaped title and
/// stylesheet link, then the header and body inside `main`.
pub open spec fn page_text(title: Seq<char>, href: Seq<char>, header: Seq<char>, body: Seq<char>) -> Seq<char> {
    "<!doctype html><html lang=\"en\"><head><meta charset=\"utf-8\"><meta name=\"viewport\" content=\"width=device-width, initial-scale=1\"><title>"@
        + escape_text(title) + "</title><link rel=\"stylesheet\" href=\""@ + escape_text(href)
        + "\"></head><body><main>"@ + header + body + "</main></body></html>"@
}

/// Wraps a page's header and body in the site's page shell.
pub fn page_shell(title: &str, stylesheet_href: &str, header: &str, body: &str) -> (r: String)
    ensures
        r@ == page_text(title@, stylesheet_href@, header@, body@),
{
    let mut out = to_string(
        "<!doctype html><html lang=\"en\"><head><meta charset=\"utf-8\"><meta name=\"viewport\" content=\"width=device-width, initial-scale=1\"><title>",
    );
    let t = escape_html(title);
    push_str(&mut out, t.as_str());
    push_str(&mut out, "</title><link rel=\"stylesheet\" href=\"");
    let h = escape_html(stylesheet_href);
    push_str(&mut out, h.as_str());
    push_str(&mut out, "\"></head><body><main>");
    push_str(&mut out, header);
    push_str(&mut out, body);
    push_str(&mut out, "</main></body></html>");
    out
}

} // verus!

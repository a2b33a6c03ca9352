//! Tools the agent can call: hiko scripts started through the hiko command
//! line, and the guide to them that goes into the system prompt.
use vstd::prelude::*;
use crate::text::{
    char_index_from, chars_of, find_char, find_chars, find_from, has_prefix, push_str, str_eq, string_between,
    strip_prefix, to_string, trim_prefixes, trim_start_matches, without_prefix,
};

verus! {

/// How tool scripts are started: the hiko program, the project manifest,
/// the policy to run under, and whether to run in strict mode.
pub struct ToolRunner {
    pub bin: String,
    pub manifest_path: String,
    pub policy_name: String,
    pub strict: bool,
}

/// The arguments the runner's program gets for the script `script`.
pub open spec fn runner_arg_list(strict: bool, manifest: Seq<char>, policy: Seq<char>, script: Seq<char>) -> Seq<
    Seq<char>,
> {
    seq!["run"@] + (if strict {
        seq!["--strict"@]
    } else {
        Seq::empty()
    }) + seq!["--config"@, manifest, "--policy"@, policy, script]
}

impl ToolRunner {
    /// The runner used when none is configured: `hiko-cli`, strict, with
    /// the manifest `hiko.toml` and the policy `harness-tools`.
    pub fn standard() -> (r: ToolRunner)
        ensures
            r.bin@ == "hiko-cli"@,
            r.manifest_path@ == "hiko.toml"@,
            r.policy_name@ == "harness-tools"@,
            r.strict,
    {
        ToolRunner {
            bin: to_string("hiko-cli"),
            manifest_path: to_string("hiko.toml"),
            policy_name: to_string("harness-tools"),
            strict: true,
        }
    }

    /// The arguments that start the script `script_path`: `run`, `--strict`
    /// in strict mode, `--config` and the manifest, `--policy` and the
    /// policy's name, then the script.
    pub fn command_args(&self, script_path: &str) -> (r: Vec<String>)
        ensures
            r@.map_values(|a: String| a@) == runner_arg_list(
                self.strict,
                self.manifest_path@,
                self.policy_name@,
                script_path@,
            ),
    {
        let mut args: Vec<String> = Vec::new();
        args.push(to_string("run"));
        if self.strict {
            args.push(to_string("--strict"));
        }
        args.push(to_string("--config"));
        args.push(to_string(self.manifest_path.as_str()));
        args.push(to_string("--policy"));
        args.push(to_string(self.policy_name.as_str()));
        args.push(to_string(script_path));
        assert(args@.map_values(|a: String| a@) =~= runner_arg_list(
            self.strict,
            self.manifest_path@,
            self.policy_name@,
            script_path@,
        ));
        args
    }
}

/// A tool the agent can call: its name, what it does, notes for the model,
/// and the script that runs it.
pub struct Tool {
    pub name: String,
    pub description: String,
    pub notes: String,
    pub script_path: String,
}

/// `a` comes before `b` comparing characters from position `i` on.
pub open spec fn name_lt_from(a: Seq<char>, b: Seq<char>, i: int) -> bool
    decreases a.len() - i,
{
    if i >= a.len() {
        i < b.len()
    } else if i >= b.len() {
        false
    } else if a[i] != b[i] {
        (a[i]) < (b[i])
    } else {
        name_lt_from(a, b, i + 1)
    }
}

/// The order of names: by character code, a proper prefix first.
pub open spec fn name_lt(a: Seq<char>, b: Seq<char>) -> bool {
    name_lt_from(a, b, 0)
}

proof fn lemma_name_lt_trans(a: Seq<char>, b: Seq<char>, c: Seq<char>, i: int)
    requires
        0 <= i,
        name_lt_from(a, b, i),
        name_lt_from(b, c, i),
    ensures
        name_lt_from(a, c, i),
    decreases a.len() - i,
{
    if i < a.len() && a[i] == b[i] && b[i] == c[i] {
        lemma_name_lt_trans(a, b, c, i + 1);
    }
}

proof fn lemma_name_lt_irrefl(a: Seq<char>, i: int)
    requires
        0 <= i,
    ensures
        !name_lt_from(a, a, i),
    decreases a.len() - i,
{
    if i < a.len() {
        lemma_name_lt_irrefl(a, i + 1);
    }
}

proof fn lemma_name_lt_total(a: Seq<char>, b: Seq<char>, i: int)
    requires
        0 <= i <= a.len(),
        i <= b.len(),
        forall|j: int| 0 <= j < i ==> a[j] == b[j],
    ensures
        !name_lt_from(a, b, i) && !name_lt_from(b, a, i) ==> a == b,
    decreases a.len() - i,
{
    if i < a.len() && i < b.len() && a[i] == b[i] {
        lemma_name_lt_total(a, b, i + 1);
    } else if i == a.len() && i == b.len() {
        assert(a =~= b);
    }
}

/// `a` is `b` or comes before it.
pub open spec fn name_le(a: Seq<char>, b: Seq<char>) -> bool {
    a == b || name_lt(a, b)
}

/// Whether `a` comes before `b` in the order of names.
pub fn name_less(a: &String, b: &String) -> (r: bool)
    ensures
        r == name_lt(a@, b@),
{
    let x = chars_of(a.as_str());
    let y = chars_of(b.as_str());
    let mut i: usize = 0;
    while i < x.len() && i < y.len() && x[i] == y[i]
        invariant
            x@ == a@,
            y@ == b@,
            i <= x@.len(),
            i <= y@.len(),
            name_lt(a@, b@) == name_lt_from(a@, b@, i as int),
        decreases x@.len() - i,
    {
        i = i + 1;
    }
    if i == x.len() {
        i < y.len()
    } else if i == y.len() {
        false
    } else {
        (x[i]) < (y[i])
    }
}

/// The guide's section on one tool.
pub open spec fn tool_section(t: Tool) -> Seq<char> {
    "\n### "@ + t.name@ + "\n"@ + t.description@ + "\n"@ + if t.notes@.len() > 0 {
        t.notes@ + "\n"@
    } else {
        Seq::empty()
    }
}

/// The sections on the tools at `order`, in that order.
pub open spec fn tool_sections(tools: Seq<Tool>, order: Seq<usize>) -> Seq<char>
    decreases order.len(),
{
    if order.len() == 0 {
        Seq::empty()
    } else {
        tool_sections(tools, order.drop_last()) + tool_section(tools[order.last() as int])
    }
}

/// `order` lists every index of `tools` once, by name.
pub open spec fn by_name(tools: Seq<Tool>, order: Seq<usize>) -> bool {
    &&& order.len() == tools.len()
    &&& order.no_duplicates()
    &&& forall|k: int| 0 <= k < order.len() ==> order[k] < tools.len()
    &&& forall|k: int, l: int|
        0 <= k < l < order.len() ==> name_le(tools[order[k] as int].name@, tools[order[l] as int].name@)
}

/// The tools section of the system prompt: a heading, then for each tool,
/// in the order of their names, its name, its description and its notes.
pub fn tool_guide(tools: &Vec<Tool>) -> (r: String)
    ensures
        exists|order: Seq<usize>| by_name(tools@, order) && r@ == "## Tools\n"@ + tool_sections(tools@, order),
{
    let n = tools.len();
    let mut order: Vec<usize> = Vec::new();
    let mut i: usize = 0;
    while i < n
        invariant
            n == tools@.len(),
            i <= n,
            order@.len() == i,
            order@.no_duplicates(),
            forall|k: int| 0 <= k < order@.len() ==> order@[k] < i,
            forall|k: int, l: int|
                0 <= k < l < order@.len() ==> name_le(tools@[order@[k] as int].name@, tools@[order@[l] as int].name@),
        decreases n - i,
    {
        let mut p: usize = 0;
        while p < order.len() && !name_less(&tools[i].name, &tools[order[p]].name)
            invariant
                n == tools@.len(),
                i < n,
                p <= order@.len(),
                forall|k: int| 0 <= k < order@.len() ==> order@[k] < i,
                forall|k: int| 0 <= k < p ==> !name_lt(tools@[i as int].name@, tools@[order@[k] as int].name@),
            decreases order@.len() - p,
        {
            p = p + 1;
        }
        let ghost before = order@;
        let ghost ni = tools@[i as int].name@;
        proof {
            assert forall|k: int| 0 <= k < p implies name_le(tools@[before[k] as int].name@, ni) by {
                lemma_name_lt_total(tools@[before[k] as int].name@, ni, 0);
            }
            assert forall|k: int| p <= k < before.len() implies name_lt(ni, tools@[before[k] as int].name@) by {
                if k > p {
                    let np = tools@[before[p as int] as int].name@;
                    let nk = tools@[before[k] as int].name@;
                    assert(name_le(np, nk));
                    if np != nk {
                        lemma_name_lt_trans(ni, np, nk, 0);
                    }
                }
            }
        }
        order.insert(p, i);
        proof {
            let after = order@;
            assert(after == before.insert(p as int, i));
            assert forall|k: int, l: int| 0 <= k < l < after.len() implies after[k] != after[l] by {
                if k < p && l < p {
                    assert(after[k] == before[k] && after[l] == before[l]);
                } else if k > p && l > p {
                    assert(after[k] == before[k - 1] && after[l] == before[l - 1]);
                } else if k < p && l > p {
                    assert(after[k] == before[k] && after[l] == before[l - 1]);
                }
            }
            assert forall|k: int, l: int| 0 <= k < l < after.len() implies name_le(
                tools@[after[k] as int].name@,
                tools@[after[l] as int].name@,
            ) by {
                let nk = tools@[after[k] as int].name@;
                let nl = tools@[after[l] as int].name@;
                if k < p && l < p {
                    assert(after[k] == before[k] && after[l] == before[l]);
                } else if k > p && l > p {
                    assert(after[k] == before[k - 1] && after[l] == before[l - 1]);
                } else if k < p && l == p {
                    assert(after[k] == before[k]);
                } else if k == p && l > p {
                    assert(after[l] == before[l - 1]);
                } else {
                    assert(after[k] == before[k] && after[l] == before[l - 1]);
                    if nk != ni && ni != nl {
                        lemma_name_lt_trans(nk, ni, nl, 0);
                    }
                }
            }
        }
        i = i + 1;
    }
    assert(by_name(tools@, order@));
    let mut out = to_string("## Tools\n");
    let mut k: usize = 0;
    while k < n
        invariant
            n == tools@.len(),
            order@.len() == n,
            k <= n,
            forall|j: int| 0 <= j < order@.len() ==> order@[j] < n,
            out@ == "## Tools\n"@ + tool_sections(tools@, order@.subrange(0, k as int)),
        decreases n - k,
    {
        let t = &tools[order[k]];
        push_str(&mut out, "\n### ");
        push_str(&mut out, t.name.as_str());
        push_str(&mut out, "\n");
        push_str(&mut out, t.description.as_str());
        push_str(&mut out, "\n");
        if !t.notes.as_str().is_empty() {
            push_str(&mut out, t.notes.as_str());
            push_str(&mut out, "\n");
        }
        proof {
            assert(order@.subrange(0, k + 1).drop_last() =~= order@.subrange(0, k as int));
            assert(order@.subrange(0, k + 1).last() == order@[k as int]);
        }
        k = k + 1;
    }
    proof {
        assert(order@.subrange(0, n as int) =~= order@);
    }
    out
}

// ── Tool metadata ────────────────────────────────────────────────────────

/// A parameter a tool declares: its name, its JSON type and what it is.
pub struct ToolParam {
    pub name: String,
    pub json_type: String,
    pub description: String,
}

/// What a tool script's first comment says of the tool.
pub struct ToolMetadata {
    pub description: String,
    pub notes: String,
    pub params: Vec<ToolParam>,
}

/// White space as `str::trim` removes it (Unicode `White_Space`).
pub open spec fn is_white(c: char) -> bool {
    c == ' ' || ('\t' <= c && c <= '\r') || c == '\u{85}' || c == '\u{A0}' || c == '\u{1680}' || ('\u{2000}' <= c
        && c <= '\u{200A}') || c == '\u{2028}' || c == '\u{2029}' || c == '\u{202F}' || c == '\u{205F}' || c
        == '\u{3000}'
}

pub open spec fn trim_start_ws(s: Seq<char>) -> Seq<char>
    decreases s.len(),
{
    if s.len() > 0 && is_white(s[0]) {
        trim_start_ws(s.drop_first())
    } else {
        s
    }
}

pub open spec fn trim_end_ws(s: Seq<char>) -> Seq<char>
    decreases s.len(),
{
    if s.len() > 0 && is_white(s.last()) {
        trim_end_ws(s.drop_last())
    } else {
        s
    }
}

/// `s` without white space at either end.
pub open spec fn trim_ws(s: Seq<char>) -> Seq<char> {
    trim_end_ws(trim_start_ws(s))
}

fn is_white_char(c: char) -> (r: bool)
    ensures
        r == is_white(c),
{
    c == ' ' || ('\t' <= c && c <= '\r') || c == '\u{85}' || c == '\u{A0}' || c == '\u{1680}' || ('\u{2000}' <= c
        && c <= '\u{200A}') || c == '\u{2028}' || c == '\u{2029}' || c == '\u{202F}' || c == '\u{205F}' || c
        == '\u{3000}'
}

/// `s` without white space at either end (`str::trim`).
pub fn trim(s: &str) -> (r: String)
    ensures
        r@ == trim_ws(s@),
{
    let cs = chars_of(s);
    let n = cs.len();
    let mut a: usize = 0;
    assert(cs@.subrange(0, n as int) =~= cs@);
    while a < n && is_white_char(cs[a])
        invariant
            cs@ == s@,
            n == cs@.len(),
            a <= n,
            trim_start_ws(s@) == trim_start_ws(cs@.subrange(a as int, n as int)),
        decreases n - a,
    {
        assert(cs@.subrange(a as int, n as int).drop_first() =~= cs@.subrange(a + 1, n as int));
        a = a + 1;
    }
    assert(trim_start_ws(s@) == cs@.subrange(a as int, n as int));
    let mut b: usize = n;
    while b > a && is_white_char(cs[b - 1])
        invariant
            cs@ == s@,
            n == cs@.len(),
            a <= b <= n,
            trim_ws(s@) == trim_end_ws(cs@.subrange(a as int, b as int)),
        decreases b - a,
    {
        assert(cs@.subrange(a as int, b as int).drop_last() =~= cs@.subrange(a as int, b - 1));
        b = b - 1;
    }
    string_between(&cs, a, b)
}

/// The lines of `s` from position `p` on: split at each line feed, with no
/// line after a final one.
pub open spec fn lines_from(s: Seq<char>, p: int) -> Seq<Seq<char>>
    decreases s.len() - p,
{
    if p < 0 || p >= s.len() {
        Seq::empty()
    } else {
        match char_index_from(s, '\n', p) {
            None => seq![s.subrange(p, s.len() as int)],
            Some(i) => if i < p || i >= s.len() {
                Seq::empty()
            } else {
                seq![s.subrange(p, i)] + lines_from(s, i + 1)
            },
        }
    }
}

/// `s` split at the first `c`.
pub open spec fn split_once(s: Seq<char>, c: char) -> Option<(Seq<char>, Seq<char>)> {
    match char_index_from(s, c, 0) {
        Some(i) => Some((s.subrange(0, i), s.subrange(i + 1, s.len() as int))),
        None => None,
    }
}

/// The JSON type a parameter's declared type stands for.
pub open spec fn json_type_of(t: Seq<char>) -> Seq<char> {
    if t == "number"@ || t == "int"@ || t == "integer"@ {
        "integer"@
    } else if t == "bool"@ || t == "boolean"@ {
        "boolean"@
    } else {
        "string"@
    }
}

/// The parameter `name: type - description`, if the text has that shape.
pub open spec fn param_of(text: Seq<char>) -> Option<(Seq<char>, Seq<char>, Seq<char>)> {
    match split_once(text, '-') {
        None => None,
        Some((name_type, desc)) => match split_once(trim_ws(name_type), ':') {
            None => None,
            Some((name, typ)) => Some((trim_ws(name), json_type_of(trim_ws(typ)), trim_ws(desc))),
        },
    }
}

/// What has been read of a comment so far: the description, the lines of
/// the notes, the parameters, and whether the notes are being read.
pub type MetaState = (Seq<char>, Seq<Seq<char>>, Seq<(Seq<char>, Seq<char>, Seq<char>)>, bool);

/// A comment line with its white space and leading stars removed.
pub open spec fn clean_line(raw: Seq<char>) -> Seq<char> {
    trim_ws(trim_prefixes(trim_ws(raw), "*"@))
}

/// The reading after one more line of the comment.
pub open spec fn meta_line(st: MetaState, raw: Seq<char>) -> MetaState {
    let line = clean_line(raw);
    match without_prefix(line, "description:"@) {
        Some(d) => (trim_ws(d), st.1, st.2, false),
        None => match without_prefix(line, "param "@) {
            Some(text) => (st.0, st.1, match param_of(text) {
                Some(x) => st.2.push(x),
                None => st.2,
            }, false),
            None => match without_prefix(line, "notes:"@) {
                Some(n) => (st.0, if trim_ws(n).len() > 0 {
                    st.1.push(trim_ws(n))
                } else {
                    st.1
                }, st.2, true),
                None => if st.3 {
                    (st.0, st.1.push(line), st.2, true)
                } else {
                    st
                },
            },
        },
    }
}

/// The reading after the lines `lines`.
pub open spec fn meta_lines(st: MetaState, lines: Seq<Seq<char>>) -> MetaState
    decreases lines.len(),
{
    if lines.len() == 0 {
        st
    } else {
        meta_lines(meta_line(st, lines[0]), lines.drop_first())
    }
}

/// The lines joined with single spaces.
pub open spec fn joined(lines: Seq<Seq<char>>) -> Seq<char>
    decreases lines.len(),
{
    if lines.len() == 0 {
        Seq::empty()
    } else if lines.len() == 1 {
        lines[0]
    } else {
        joined(lines.drop_last()) + " "@ + lines.last()
    }
}

/// The inside of the first `(* ... *)` in `s`, if there is one.
pub open spec fn first_comment(s: Seq<char>) -> Option<Seq<char>> {
    match find_from(s, "(*"@, 0) {
        None => None,
        Some(st) => match find_from(s, "*)"@, st) {
            None => None,
            Some(e) => Some(s.subrange(st + 2, e)),
        },
    }
}

/// The source opens a comment with `(*)`, which has no inside.
pub open spec fn bare_comment_opener(s: Seq<char>) -> bool {
    find_from(s, "(*"@, 0) matches Some(st) && has_prefix(s.subrange(st, s.len() as int), "(*)"@)
}

/// What a tool's first comment says: its description (by default
/// `Tool: ` and the tool's name), its notes joined into one text, and its
/// parameters in the order given.
pub open spec fn tool_metadata(source: Seq<char>, default_name: Seq<char>) -> MetaState {
    let init: MetaState = ("Tool: "@ + default_name, Seq::empty(), Seq::empty(), false);
    match first_comment(source) {
        None => init,
        Some(c) => meta_lines(init, lines_from(c, 0)),
    }
}

/// `s` split at the first `c` (`str::split_once` with a character).
pub fn split_once_char(s: &str, c: char) -> (r: Option<(String, String)>)
    ensures
        match (r, split_once(s@, c)) {
            (Some((x, y)), Some((a, b))) => x@ == a && y@ == b,
            (None, None) => true,
            _ => false,
        },
{
    let cs = chars_of(s);
    match find_char(&cs, c, 0) {
        Some(i) => {
            let n = cs.len();
            Some((string_between(&cs, 0, i), string_between(&cs, i + 1, n)))
        },
        None => None,
    }
}

fn json_type_name(t: &str) -> (r: String)
    ensures
        r@ == json_type_of(t@),
{
    if str_eq(t, "number") || str_eq(t, "int") || str_eq(t, "integer") {
        to_string("integer")
    } else if str_eq(t, "bool") || str_eq(t, "boolean") {
        to_string("boolean")
    } else {
        to_string("string")
    }
}

/// The parameter's three parts as the reading records them.
pub open spec fn param_view(p: ToolParam) -> (Seq<char>, Seq<char>, Seq<char>) {
    (p.name@, p.json_type@, p.description@)
}

fn read_param(text: &str) -> (r: Option<ToolParam>)
    ensures
        match (r, param_of(text@)) {
            (Some(p), Some(x)) => param_view(p) == x,
            (None, None) => true,
            _ => false,
        },
{
    match split_once_char(text, '-') {
        None => None,
        Some((name_type, desc)) => {
            let nt = trim(name_type.as_str());
            match split_once_char(nt.as_str(), ':') {
                None => None,
                Some((name, typ)) => {
                    let t = trim(typ.as_str());
                    Some(
                        ToolParam {
                            name: trim(name.as_str()),
                            json_type: json_type_name(t.as_str()),
                            description: trim(desc.as_str()),
                        },
                    )
                },
            }
        },
    }
}

/// The reading of a comment in progress.
struct MetaReader {
    description: String,
    notes: Vec<String>,
    params: Vec<ToolParam>,
    in_notes: bool,
}

impl MetaReader {
    spec fn state(&self) -> MetaState {
        (
            self.description@,
            self.notes@.map_values(|x: String| x@),
            self.params@.map_values(|p: ToolParam| param_view(p)),
            self.in_notes,
        )
    }

    fn read_line(&mut self, raw: &str)
        ensures
            final(self).state() == meta_line(old(self).state(), raw@),
    {
        let t1 = trim(raw);
        let t2 = trim_start_matches(t1.as_str(), "*");
        let line = trim(t2.as_str());
        assert(line@ == clean_line(raw@));
        if let Some(d) = strip_prefix(line.as_str(), "description:") {
            self.in_notes = false;
            self.description = trim(d.as_str());
        } else if let Some(text) = strip_prefix(line.as_str(), "param ") {
            self.in_notes = false;
            if let Some(p) = read_param(text.as_str()) {
                let ghost before = self.params@;
                self.params.push(p);
                assert(self.params@.map_values(|q: ToolParam| param_view(q)) =~= before.map_values(
                    |q: ToolParam| param_view(q),
                ).push(param_view(p)));
            }
        } else if let Some(n) = strip_prefix(line.as_str(), "notes:") {
            self.in_notes = true;
            let rest = trim(n.as_str());
            if !rest.as_str().is_empty() {
                let ghost before = self.notes@;
                let ghost rv = rest@;
                self.notes.push(rest);
                assert(self.notes@.map_values(|x: String| x@) =~= before.map_values(|x: String| x@).push(rv));
            }
        } else if self.in_notes {
            let ghost before = self.notes@;
            let ghost lv = line@;
            self.notes.push(line);
            assert(self.notes@.map_values(|x: String| x@) =~= before.map_values(|x: String| x@).push(lv));
        }
    }
}

/// Reads a tool script's first comment: `description:` gives the
/// description, `param name: type - text` a parameter, and `notes:` starts
/// the notes, which run on over the following lines until another of these.
pub fn parse_tool_metadata(source: &str, default_name: &str) -> (r: ToolMetadata)
    requires
        !bare_comment_opener(source@),
    ensures
        r.description@ == tool_metadata(source@, default_name@).0,
        r.notes@ == trim_ws(joined(tool_metadata(source@, default_name@).1)),
        r.params@.map_values(|p: ToolParam| param_view(p)) == tool_metadata(source@, default_name@).2,
{
    let mut desc = to_string("Tool: ");
    push_str(&mut desc, default_name);
    let mut reader = MetaReader { description: desc, notes: Vec::new(), params: Vec::new(), in_notes: false };
    let ghost init = reader.state();
    assert(init == ("Tool: "@ + default_name@, Seq::<Seq<char>>::empty(), Seq::<(Seq<char>, Seq<char>, Seq<char>)>::empty(), false));
    let cs = chars_of(source);
    let open = chars_of("(*");
    let close = chars_of("*)");
    if let Some(st) = find_chars(&cs, &open, 0) {
        proof {
            crate::text::lemma_find_from_bounds(cs@, open@, 0);
        }
        if let Some(e) = find_chars(&cs, &close, st) {
            proof {
                crate::text::lemma_find_from_bounds(cs@, close@, st as int);
                reveal_strlit("(*");
                reveal_strlit("*)");
                reveal_strlit("(*)");
                assert(cs@.subrange(st as int, st + 2)[0] == '(');
                assert(cs@[st as int] == '(');
                if e == st + 1 {
                    assert(cs@.subrange(e as int, e + 2) == close@);
                    assert(close@[1] == ')');
                    assert(cs@.subrange(e as int, e + 2)[1] == cs@[e + 1]);
                    assert(cs@[st + 2] == ')');
                    assert(cs@.subrange(st as int, cs@.len() as int).subrange(0, 3) =~= "(*)"@);
                }
                assert(e != st);
            }
            let com = string_between(&cs, st + 2, e);
            let cc = chars_of(com.as_str());
            let mut pos: usize = 0;
            while pos < cc.len()
                invariant
                    pos <= cc@.len(),
                    meta_lines(reader.state(), lines_from(cc@, pos as int)) == meta_lines(init, lines_from(cc@, 0)),
                decreases cc@.len() - pos,
            {
                match find_char(&cc, '\n', pos) {
                    Some(i) => {
                        let line = string_between(&cc, pos, i);
                        proof {
                            let l = lines_from(cc@, pos as int);
                            assert(l == seq![cc@.subrange(pos as int, i as int)] + lines_from(cc@, i + 1));
                            assert(l[0] == line@);
                            assert(l.drop_first() =~= lines_from(cc@, i + 1));
                        }
                        reader.read_line(line.as_str());
                        pos = i + 1;
                    },
                    None => {
                        let line = string_between(&cc, pos, cc.len());
                        proof {
                            let l = lines_from(cc@, pos as int);
                            assert(l == seq![line@]);
                            assert(l.drop_first() =~= Seq::<Seq<char>>::empty());
                        }
                        reader.read_line(line.as_str());
                        pos = cc.len();
                    },
                }
            }
            assert(lines_from(cc@, pos as int) == Seq::<Seq<char>>::empty());
        }
    }
    let ghost lines = reader.notes@.map_values(|x: String| x@);
    let mut notes = String::new();
    let mut k: usize = 0;
    while k < reader.notes.len()
        invariant
            k <= reader.notes@.len(),
            lines == reader.notes@.map_values(|x: String| x@),
            notes@ == joined(lines.subrange(0, k as int)),
        decreases reader.notes@.len() - k,
    {
        proof {
            assert(lines.subrange(0, k + 1).drop_last() =~= lines.subrange(0, k as int));
            assert(lines.subrange(0, k + 1).last() == reader.notes@[k as int]@);
        }
        if k > 0 {
            push_str(&mut notes, " ");
        }
        push_str(&mut notes, reader.notes[k].as_str());
        k = k + 1;
    }
    assert(lines.subrange(0, k as int) =~= lines);
    ToolMetadata { description: reader.description, notes: trim(notes.as_str()), params: reader.params }
}

} // verus!

//! Static inspection of compiled bytecode: counting instructions, finding
//! the globals a program reads and defines, and the builtins it reaches
//! that a runtime surface does not offer.
use vstd::prelude::*;
use crate::compile::chunk::{span_lookup, u16_of, Chunk, CompiledProgram, Constant, FunctionProto};
use crate::syntax::span::Span;
use crate::compile::op::{law_decode_encode, op_code, Op};
use crate::syntax::pretty::{digits, push_digits};
use crate::builtins::{builtin_meta, builtin_table, find_meta, opt_str_view, strs_view};
use crate::cli::StrictViolation;
use crate::text::{clone_string, str_eq, string_eq, to_string};

verus! {

// ── Decoding ─────────────────────────────────────────────────────────────

/// How many operand bytes follow an instruction of fixed width.
pub open spec fn fixed_operand_bytes(op: Op) -> nat {
    match op {
        Op::Const | Op::GetLocal | Op::SetLocal | Op::GetUpvalue | Op::GetGlobal | Op::SetGlobal
        | Op::Jump | Op::JumpIfFalse | Op::Panic
        | Op::Perform => 2,
        Op::GetField | Op::Call | Op::TailCall | Op::MakeTuple => 1,
        Op::MakeData => 3,
        _ => 0,
    }
}

/// Where the operands of `op`, starting at `at`, end; `None` where the
/// code ends first. A closure carries a prototype index, a capture count
/// and three bytes per capture; a handler a clause count and four bytes
/// per clause.
pub open spec fn operands_end(code: Seq<u8>, op: Op, at: int) -> Option<int> {
    match op {
        Op::MakeClosure => if at + 3 <= code.len() && at + 3 + 3 * code[at + 2] <= code.len() {
            Some(at + 3 + 3 * code[at + 2])
        } else {
            None
        },
        Op::InstallHandler => if at + 2 <= code.len() && at + 2 + 4 * u16_of(code[at], code[at + 1])
            <= code.len() {
            Some(at + 2 + 4 * u16_of(code[at], code[at + 1]))
        } else {
            None
        },
        _ => if at + fixed_operand_bytes(op) <= code.len() {
            Some(at + fixed_operand_bytes(op))
        } else {
            None
        },
    }
}

/// The instruction a byte below 57 encodes.
pub open spec fn op_of(b: u8) -> Op {
    choose|op: Op| op_code(op) == b
}

pub open spec fn end_message() -> Seq<char> {
    "unexpected end of bytecode"@
}

/// The number of instructions from `ip` to the end, added to `acc`, or the
/// first error in decoding them.
pub open spec fn count_from(code: Seq<u8>, ip: int, acc: nat) -> Result<nat, Seq<char>>
    decreases code.len() - ip,
{
    if ip < 0 || ip >= code.len() {
        Ok(acc)
    } else if code[ip] >= 57 {
        Err("invalid opcode while counting bytecode: "@ + digits(code[ip] as nat))
    } else {
        match operands_end(code, op_of(code[ip]), ip + 1) {
            None => Err(end_message()),
            Some(e) => count_from(code, e, acc + 1),
        }
    }
}

/// The byte at `*ip`, stepping past it.
fn read_u8(code: &Vec<u8>, ip: &mut usize) -> (r: Result<u8, String>)
    ensures
        *old(ip) < code@.len() ==> (r == Ok::<u8, String>(code@[*old(ip) as int]) && *final(ip) == *old(ip) + 1),
        *old(ip) >= code@.len() ==> (r matches Err(m) && m@ == end_message()) && *final(ip) == *old(ip),
{
    if *ip < code.len() {
        let b = code[*ip];
        *ip = *ip + 1;
        Ok(b)
    } else {
        Err(to_string("unexpected end of bytecode"))
    }
}

/// The little-endian `u16` at `*ip`, stepping past it.
fn read_u16(code: &Vec<u8>, ip: &mut usize) -> (r: Result<u16, String>)
    ensures
        *old(ip) + 2 <= code@.len() ==> r == Ok::<u16, String>(u16_of(code@[*old(ip) as int], code@[*old(ip) + 1]))
            && *final(ip) == *old(ip) + 2,
        *old(ip) + 2 > code@.len() ==> (r matches Err(m) && m@ == end_message()) && *final(ip) == *old(ip),
{
    if *ip <= code.len() && code.len() - *ip >= 2 {
        let lo = code[*ip] as u16;
        let hi = code[*ip + 1] as u16;
        *ip = *ip + 2;
        Ok(lo + 256 * hi)
    } else {
        Err(to_string("unexpected end of bytecode"))
    }
}

/// Steps past `n` bytes.
fn skip_bytes(code: &Vec<u8>, ip: &mut usize, n: usize) -> (r: Result<(), String>)
    ensures
        *old(ip) + n <= code@.len() ==> r is Ok && *final(ip) == *old(ip) + n,
        *old(ip) + n > code@.len() ==> (r matches Err(m) && m@ == end_message()) && *final(ip) == *old(ip),
{
    if *ip <= code.len() && code.len() - *ip >= n {
        *ip = *ip + n;
        Ok(())
    } else {
        Err(to_string("unexpected end of bytecode"))
    }
}

/// Steps past the operands of `op`.
fn skip_operands(code: &Vec<u8>, ip: &mut usize, op: Op) -> (r: Result<(), String>)
    requires
        *old(ip) <= code@.len(),
    ensures
        match operands_end(code@, op, *old(ip) as int) {
            Some(e) => r is Ok && *final(ip) == e,
            None => (r matches Err(m) && m@ == end_message()),
        },
{
    match op {
        Op::Const | Op::GetLocal | Op::SetLocal | Op::GetUpvalue | Op::GetGlobal | Op::SetGlobal
        | Op::Jump | Op::JumpIfFalse | Op::Panic
        | Op::Perform => skip_bytes(code, ip, 2),
        Op::GetField | Op::Call | Op::TailCall | Op::MakeTuple => skip_bytes(code, ip, 1),
        Op::MakeData => skip_bytes(code, ip, 3),
        Op::MakeClosure => {
            let _proto_idx = read_u16(code, ip)?;
            let n_captures = read_u8(code, ip)? as usize;
            skip_bytes(code, ip, n_captures * 3)
        },
        Op::InstallHandler => {
            let n_clauses = read_u16(code, ip)? as usize;
            skip_bytes(code, ip, n_clauses * 4)
        },
        _ => Ok(()),
    }
}

/// Decodes the opcode at `*ip`, stepping past it.
fn read_op(code: &Vec<u8>, ip: &mut usize, prefix: &str) -> (r: Result<Op, String>)
    requires
        *old(ip) < code@.len(),
    ensures
        *final(ip) == *old(ip) + 1,
        code@[*old(ip) as int] < 57 ==> r == Ok::<Op, String>(op_of(code@[*old(ip) as int])),
        code@[*old(ip) as int] >= 57 ==> (r matches Err(m) && m@ == prefix@ + digits(code@[*old(ip) as int] as nat)),
{
    let len = code.len();
    let b = code[*ip];
    *ip = *ip + 1;
    match Op::try_from(b) {
        Ok(op) => {
            proof {
                law_decode_encode(op);
                law_decode_encode(op_of(b));
            }
            Ok(op)
        },
        Err(byte) => {
            let mut m = to_string(prefix);
            push_digits(&mut m, byte as u64);
            Err(m)
        },
    }
}

/// The number of instructions in a chunk's code.
pub fn count_chunk_opcodes(chunk: &Chunk) -> (r: Result<usize, String>)
    ensures
        match (r, count_from(chunk.code@, 0, 0)) {
            (Ok(n), Ok(k)) => n == k,
            (Err(e), Err(m)) => e@ == m,
            _ => false,
        },
{
    let code = &chunk.code;
    let mut ip: usize = 0;
    let mut count: usize = 0;
    while ip < code.len()
        invariant
            code@ == chunk.code@,
            ip <= code@.len(),
            count <= ip,
            count_from(code@, 0, 0) == count_from(code@, ip as int, count as nat),
        decreases code@.len() - ip,
    {
        let at = ip;
        let op = match read_op(code, &mut ip, "invalid opcode while counting bytecode: ") {
            Ok(op) => op,
            Err(m) => return Err(m),
        };
        match skip_operands(code, &mut ip, op) {
            Ok(()) => {},
            Err(m) => return Err(m),
        }
        assert(count_from(code@, at as int, count as nat) == count_from(code@, ip as int, (count + 1) as nat));
        count = count + 1;
    }
    Ok(count)
}

// ── Globals and builtins ─────────────────────────────────────────────────

/// The string constant at `idx`, or why there is none.
pub open spec fn const_string(consts: Seq<Constant>, idx: nat) -> Result<Seq<char>, Seq<char>> {
    if idx < consts.len() {
        match consts[idx as int] {
            Constant::String(s) => Ok(s@),
            _ => Err("expected string constant at index "@ + digits(idx)),
        }
    } else {
        Err("constant index out of bounds: "@ + digits(idx))
    }
}

/// The globals read (with the span of the reading instruction) and defined
/// by the instructions from `ip` on, after `defs` and `reads`; or the first
/// error in decoding them.
pub open spec fn scan_from(
    code: Seq<u8>,
    consts: Seq<Constant>,
    spans: Seq<(usize, Span)>,
    ip: int,
    defs: Seq<Seq<char>>,
    reads: Seq<(Seq<char>, Option<Span>)>,
) -> Result<(Seq<Seq<char>>, Seq<(Seq<char>, Option<Span>)>), Seq<char>>
    decreases code.len() - ip,
{
    if ip < 0 || ip >= code.len() {
        Ok((defs, reads))
    } else if code[ip] >= 57 {
        Err("invalid opcode while scanning bytecode: "@ + digits(code[ip] as nat))
    } else {
        let op = op_of(code[ip]);
        match operands_end(code, op, ip + 1) {
            None => Err(end_message()),
            Some(e) => if op == Op::GetGlobal || op == Op::SetGlobal {
                match const_string(consts, u16_of(code[ip + 1], code[ip + 2]) as nat) {
                    Err(m) => Err(m),
                    Ok(name) => if op == Op::GetGlobal {
                        scan_from(code, consts, spans, e, defs, reads.push((name, span_lookup(spans, spans.len() as int, ip as usize))))
                    } else {
                        scan_from(code, consts, spans, e, defs.push(name), reads)
                    },
                }
            } else {
                scan_from(code, consts, spans, e, defs, reads)
            },
        }
    }
}

/// The values of a list of names.
pub open spec fn names_of(v: Seq<String>) -> Seq<Seq<char>> {
    v.map_values(|s: String| s@)
}

/// The values of a list of read globals.
pub open spec fn reads_of(v: Seq<(String, Option<Span>)>) -> Seq<(Seq<char>, Option<Span>)> {
    v.map_values(|p: (String, Option<Span>)| (p.0@, p.1))
}

/// The string constant at `idx`.
fn read_const_string(chunk: &Chunk, idx: usize) -> (r: Result<&str, String>)
    ensures
        match (r, const_string(chunk.constants@, idx as nat)) {
            (Ok(s), Ok(t)) => s@ == t,
            (Err(e), Err(m)) => e@ == m,
            _ => false,
        },
{
    if idx < chunk.constants.len() {
        match &chunk.constants[idx] {
            Constant::String(s) => Ok(s.as_str()),
            _ => {
                let mut m = to_string("expected string constant at index ");
                push_digits(&mut m, idx as u64);
                Err(m)
            },
        }
    } else {
        let mut m = to_string("constant index out of bounds: ");
        push_digits(&mut m, idx as u64);
        Err(m)
    }
}

/// Adds to `defs` each global the chunk defines, and to `reads` each global
/// it reads with the span of the reading instruction.
pub fn scan_chunk_globals(chunk: &Chunk, defs: &mut Vec<String>, reads: &mut Vec<(String, Option<Span>)>) -> (r: Result<(), String>)
    requires
        chunk.spans_sorted(),
    ensures
        match (r, scan_from(chunk.code@, chunk.constants@, chunk.spans@, 0, names_of(old(defs)@), reads_of(old(reads)@))) {
            (Ok(()), Ok((d, rd))) => names_of(final(defs)@) == d && reads_of(final(reads)@) == rd,
            (Err(e), Err(m)) => e@ == m,
            _ => false,
        },
{
    let code = &chunk.code;
    let mut ip: usize = 0;
    while ip < code.len()
        invariant
            code@ == chunk.code@,
            chunk.spans_sorted(),
            ip <= code@.len(),
            scan_from(chunk.code@, chunk.constants@, chunk.spans@, 0, names_of(old(defs)@), reads_of(old(reads)@))
                == scan_from(code@, chunk.constants@, chunk.spans@, ip as int, names_of(defs@), reads_of(reads@)),
        decreases code@.len() - ip,
    {
        let offset = ip;
        let op = match read_op(code, &mut ip, "invalid opcode while scanning bytecode: ") {
            Ok(op) => op,
            Err(m) => return Err(m),
        };
        match op {
            Op::GetGlobal | Op::SetGlobal => {
                let idx = match read_u16(code, &mut ip) {
                    Ok(v) => v as usize,
                    Err(m) => return Err(m),
                };
                let name = match read_const_string(chunk, idx) {
                    Ok(s) => to_string(s),
                    Err(m) => return Err(m),
                };
                if op == Op::GetGlobal {
                    let span = chunk.span_at(offset);
                    let ghost rv = reads@;
                    reads.push((name, span));
                    proof {
                        assert(reads_of(reads@) =~= reads_of(rv).push((name@, span)));
                    }
                } else {
                    let ghost dv = defs@;
                    defs.push(name);
                    proof {
                        assert(names_of(defs@) =~= names_of(dv).push(name@));
                    }
                }
            },
            _ => {
                match skip_operands(code, &mut ip, op) {
                    Ok(()) => {},
                    Err(m) => return Err(m),
                }
            },
        }
    }
    Ok(())
}

/// The chunks of a program: the top-level one, then each function's.
pub open spec fn program_chunks(p: CompiledProgram) -> Seq<Chunk> {
    seq![p.main] + p.functions@.map_values(|f: FunctionProto| f.chunk)
}

/// The globals defined and read by the first `n` chunks, in order.
pub open spec fn scan_chunks(chunks: Seq<Chunk>, n: int) -> Result<(Seq<Seq<char>>, Seq<(Seq<char>, Option<Span>)>), Seq<char>>
    decreases n,
{
    if n <= 0 {
        Ok((Seq::empty(), Seq::empty()))
    } else {
        match scan_chunks(chunks, n - 1) {
            Err(m) => Err(m),
            Ok((d, r)) => scan_from(chunks[n - 1].code@, chunks[n - 1].constants@, chunks[n - 1].spans@, 0, d, r),
        }
    }
}

/// A builtin use that the surface does not offer: its name, its capability
/// path and the span of the use.
pub open spec fn violation_view(v: StrictViolation) -> (Seq<char>, Option<Seq<char>>, Option<Span>) {
    (v.builtin@, opt_str_view(v.capability_path), v.span)
}

/// Among the first `n` reads, each builtin read that no definition shadows
/// and `allowed` does not hold, once, at its first read.
pub open spec fn violations_upto(
    reads: Seq<(Seq<char>, Option<Span>)>,
    n: int,
    defs: Seq<Seq<char>>,
    allowed: Seq<Seq<char>>,
) -> Seq<(Seq<char>, Option<Seq<char>>, Option<Span>)>
    decreases n,
{
    if n <= 0 || n > reads.len() {
        Seq::empty()
    } else {
        let prev = violations_upto(reads, n - 1, defs, allowed);
        let name = reads[n - 1].0;
        if defs.contains(name) || allowed.contains(name) || exists|i: int| 0 <= i < prev.len() && #[trigger] prev[i].0 == name {
            prev
        } else {
            match find_meta(builtin_table(), name) {
                None => prev,
                Some(m) => prev.push((name, m.capability_path, reads[n - 1].1)),
            }
        }
    }
}

/// What `strict_violations` finds in a program: the violations among all
/// its reads, or the first error in scanning its chunks.
pub open spec fn program_violations(p: CompiledProgram, allowed: Seq<Seq<char>>) -> Result<Seq<(Seq<char>, Option<Seq<char>>, Option<Span>)>, Seq<char>> {
    match scan_chunks(program_chunks(p), program_chunks(p).len() as int) {
        Err(m) => Err(m),
        Ok((d, r)) => Ok(violations_upto(r, r.len() as int, d, allowed)),
    }
}

/// Whether `name` is in `v`.
fn holds_name(v: &Vec<String>, name: &String) -> (r: bool)
    ensures
        r == names_of(v@).contains(name@),
{
    let mut i: usize = 0;
    while i < v.len()
        invariant
            i <= v@.len(),
            forall|j: int| 0 <= j < i ==> v@[j]@ != name@,
        decreases v@.len() - i,
    {
        if string_eq(&v[i], name) {
            assert(names_of(v@)[i as int] == name@);
            return true;
        }
        i = i + 1;
    }
    proof {
        if names_of(v@).contains(name@) {
            let j = choose|j: int| 0 <= j < names_of(v@).len() && names_of(v@)[j] == name@;
            assert(v@[j]@ == name@);
        }
    }
    false
}

/// Whether `name` is among the allowed builtins.
fn allows(allowed: &Vec<&str>, name: &String) -> (r: bool)
    ensures
        r == strs_view(allowed@).contains(name@),
{
    let mut i: usize = 0;
    while i < allowed.len()
        invariant
            i <= allowed@.len(),
            forall|j: int| 0 <= j < i ==> allowed@[j]@ != name@,
        decreases allowed@.len() - i,
    {
        if str_eq(allowed[i], name.as_str()) {
            assert(strs_view(allowed@)[i as int] == name@);
            return true;
        }
        i = i + 1;
    }
    proof {
        if strs_view(allowed@).contains(name@) {
            let j = choose|j: int| 0 <= j < strs_view(allowed@).len() && strs_view(allowed@)[j] == name@;
            assert(allowed@[j]@ == name@);
        }
    }
    false
}

/// Whether a violation for `name` is already listed.
fn already_listed(vs: &Vec<StrictViolation>, name: &String) -> (r: bool)
    ensures
        r == exists|i: int| 0 <= i < vs@.len() && #[trigger] violation_view(vs@[i]).0 == name@,
{
    let mut i: usize = 0;
    while i < vs.len()
        invariant
            i <= vs@.len(),
            forall|j: int| 0 <= j < i ==> violation_view(vs@[j]).0 != name@,
        decreases vs@.len() - i,
    {
        if string_eq(&vs[i].builtin, name) {
            assert(violation_view(vs@[i as int]).0 == name@);
            return true;
        }
        i = i + 1;
    }
    false
}

/// The uses of builtins that `allowed_builtins` does not offer, each once at
/// its first use; a global the program defines itself is no builtin.
pub fn strict_violations(program: &CompiledProgram, allowed_builtins: &Vec<&str>) -> (r: Result<Vec<StrictViolation>, String>)
    requires
        forall|i: int| 0 <= i < program_chunks(*program).len() ==> (#[trigger] program_chunks(*program)[i]).spans_sorted(),
    ensures
        match (r, program_violations(*program, strs_view(allowed_builtins@))) {
            (Ok(vs), Ok(w)) => vs@.map_values(|v: StrictViolation| violation_view(v)) == w,
            (Err(e), Err(m)) => e@ == m,
            _ => false,
        },
{
    let ghost chunks = program_chunks(*program);
    let mut defs: Vec<String> = Vec::new();
    let mut reads: Vec<(String, Option<Span>)> = Vec::new();
    assert(chunks[0] == program.main);
    assert(names_of(defs@) =~= Seq::<Seq<char>>::empty());
    assert(reads_of(reads@) =~= Seq::<(Seq<char>, Option<Span>)>::empty());
    assert(scan_chunks(chunks, 0) == Ok::<(Seq<Seq<char>>, Seq<(Seq<char>, Option<Span>)>), Seq<char>>((Seq::empty(), Seq::empty())));
    match scan_chunk_globals(&program.main, &mut defs, &mut reads) {
        Ok(()) => {},
        Err(m) => {
            proof {
                lemma_scan_chunks_err(chunks, 1);
            }
            return Err(m);
        },
    }
    let mut f: usize = 0;
    while f < program.functions.len()
        invariant
            chunks == program_chunks(*program),
            forall|i: int| 0 <= i < chunks.len() ==> (#[trigger] chunks[i]).spans_sorted(),
            f <= program.functions@.len(),
            scan_chunks(chunks, f + 1) == Ok::<(Seq<Seq<char>>, Seq<(Seq<char>, Option<Span>)>), Seq<char>>((names_of(defs@), reads_of(reads@))),
        decreases program.functions@.len() - f,
    {
        assert(chunks[f + 1] == program.functions@[f as int].chunk);
        match scan_chunk_globals(&program.functions[f].chunk, &mut defs, &mut reads) {
            Ok(()) => {},
            Err(m) => {
                proof {
                    lemma_scan_chunks_err(chunks, f + 2);
                }
                return Err(m);
            },
        }
        f = f + 1;
    }
    assert(chunks.len() == program.functions@.len() + 1);
    let ghost d = names_of(defs@);
    let ghost rd = reads_of(reads@);
    let ghost al = strs_view(allowed_builtins@);
    let mut violations: Vec<StrictViolation> = Vec::new();
    let mut k: usize = 0;
    while k < reads.len()
        invariant
            k <= reads@.len(),
            d == names_of(defs@),
            rd == reads_of(reads@),
            al == strs_view(allowed_builtins@),
            violations@.map_values(|v: StrictViolation| violation_view(v)) == violations_upto(rd, k as int, d, al),
        decreases reads@.len() - k,
    {
        let ghost prev = violations_upto(rd, k as int, d, al);
        let ghost vv = violations@;
        let name = &reads[k].0;
        assert(rd[k as int].0 == name@);
        let listed = already_listed(&violations, name);
        proof {
            let vm = violations@.map_values(|v: StrictViolation| violation_view(v));
            if listed {
                let i = choose|i: int| 0 <= i < violations@.len() && #[trigger] violation_view(violations@[i]).0 == name@;
                assert(vm[i].0 == name@);
            }
            if exists|i: int| 0 <= i < prev.len() && #[trigger] prev[i].0 == name@ {
                let i = choose|i: int| 0 <= i < prev.len() && #[trigger] prev[i].0 == name@;
                assert(violation_view(violations@[i]) == vm[i]);
            }
        }
        if !holds_name(&defs, name) && !allows(allowed_builtins, name) && !listed {
            match builtin_meta(name.as_str()) {
                Some(meta) => {
                    let v = StrictViolation { builtin: clone_string(name), capability_path: meta.capability_path, span: reads[k].1 };
                    violations.push(v);
                    proof {
                        assert(violations@.map_values(|v: StrictViolation| violation_view(v)) =~= prev.push(
                            (name@, meta@.capability_path, rd[k as int].1),
                        ));
                    }
                },
                None => {},
            }
        }
        k = k + 1;
    }
    Ok(violations)
}

/// An error in scanning the first `n` chunks is the error of them all.
pub proof fn lemma_scan_chunks_err(chunks: Seq<Chunk>, n: int)
    requires
        0 <= n <= chunks.len(),
        scan_chunks(chunks, n) is Err,
    ensures
        scan_chunks(chunks, chunks.len() as int) == scan_chunks(chunks, n),
    decreases chunks.len() - n,
{
    if n < chunks.len() {
        lemma_scan_chunks_err(chunks, n + 1);
    }
}

// ── Static work ──────────────────────────────────────────────────────────

/// The instruction count of one compiled function.
#[derive(Debug, Clone, PartialEq, Eq)]
pub struct FunctionWorkStat {
    pub name: Option<String>,
    pub arity: u8,
    pub static_opcodes: usize,
}

/// The instruction counts of a program's chunks.
#[derive(Debug, Clone, PartialEq, Eq)]
pub struct WorkInspection {
    pub main_static_opcodes: usize,
    pub functions: Vec<FunctionWorkStat>,
}

/// The sum of the first `n` functions' counts.
pub open spec fn counts_sum(fs: Seq<FunctionWorkStat>, n: int) -> int
    decreases n,
{
    if n <= 0 || n > fs.len() {
        0
    } else {
        counts_sum(fs, n - 1) + fs[n - 1].static_opcodes
    }
}

/// The name of an optional name.
pub open spec fn opt_name(o: Option<String>) -> Option<Seq<char>> {
    match o {
        Some(s) => Some(s@),
        None => None,
    }
}

impl WorkInspection {
    /// The instructions of all chunks together.
    pub open spec fn total(&self) -> int {
        self.main_static_opcodes + counts_sum(self.functions@, self.functions@.len() as int)
    }

    /// The instructions of all chunks together.
    pub fn total_static_opcodes(&self) -> (r: usize)
        requires
            self.total() <= usize::MAX,
        ensures
            r == self.total(),
    {
        let mut sum: usize = self.main_static_opcodes;
        let mut i: usize = 0;
        while i < self.functions.len()
            invariant
                i <= self.functions@.len(),
                sum == self.main_static_opcodes + counts_sum(self.functions@, i as int),
                self.total() <= usize::MAX,
            decreases self.functions@.len() - i,
        {
            proof {
                lemma_counts_sum_mono(self.functions@, i + 1, self.functions@.len() as int);
            }
            sum = sum + self.functions[i].static_opcodes;
            i = i + 1;
        }
        sum
    }
}

/// Sums grow with the number of terms.
pub proof fn lemma_counts_sum_mono(fs: Seq<FunctionWorkStat>, m: int, n: int)
    requires
        0 <= m <= n <= fs.len(),
    ensures
        counts_sum(fs, m) <= counts_sum(fs, n),
    decreases n - m,
{
    if m < n {
        lemma_counts_sum_mono(fs, m, n - 1);
    }
}

/// Counts the instructions of every chunk of a program; the first chunk
/// that does not decode gives the error.
pub fn inspect_program_work(program: &CompiledProgram) -> (r: Result<WorkInspection, String>)
    ensures
        match r {
            Ok(w) => {
                &&& count_from(program.main.code@, 0, 0) == Ok::<nat, Seq<char>>(w.main_static_opcodes as nat)
                &&& w.functions@.len() == program.functions@.len()
                &&& forall|i: int| 0 <= i < w.functions@.len() ==> {
                    &&& count_from(program.functions@[i].chunk.code@, 0, 0) == Ok::<nat, Seq<char>>(#[trigger] w.functions@[i].static_opcodes as nat)
                    &&& opt_name(w.functions@[i].name) == opt_name(program.functions@[i].name)
                    &&& w.functions@[i].arity == program.functions@[i].arity
                }
            },
            Err(e) => exists|c: int| 0 <= c < program_chunks(*program).len() && {
                &&& count_from(program_chunks(*program)[c].code@, 0, 0) == Err::<nat, Seq<char>>(e@)
                &&& forall|b: int| 0 <= b < c ==> count_from(#[trigger] program_chunks(*program)[b].code@, 0, 0) is Ok
            },
        },
{
    let ghost chunks = program_chunks(*program);
    assert(chunks[0] == program.main);
    let main_static_opcodes = match count_chunk_opcodes(&program.main) {
        Ok(n) => n,
        Err(m) => {
            assert(count_from(chunks[0].code@, 0, 0) == Err::<nat, Seq<char>>(m@));
            return Err(m);
        },
    };
    let mut functions: Vec<FunctionWorkStat> = Vec::new();
    let mut f: usize = 0;
    while f < program.functions.len()
        invariant
            chunks == program_chunks(*program),
            f <= program.functions@.len(),
            functions@.len() == f,
            count_from(program.main.code@, 0, 0) == Ok::<nat, Seq<char>>(main_static_opcodes as nat),
            forall|i: int| 0 <= i < f ==> {
                &&& count_from(program.functions@[i].chunk.code@, 0, 0) == Ok::<nat, Seq<char>>(#[trigger] functions@[i].static_opcodes as nat)
                &&& opt_name(functions@[i].name) == opt_name(program.functions@[i].name)
                &&& functions@[i].arity == program.functions@[i].arity
            },
        decreases program.functions@.len() - f,
    {
        let proto = &program.functions[f];
        let n = match count_chunk_opcodes(&proto.chunk) {
            Ok(n) => n,
            Err(m) => {
                proof {
                    assert(chunks[f + 1] == proto.chunk);
                    assert forall|b: int| 0 <= b < f + 1 implies count_from(#[trigger] chunks[b].code@, 0, 0) is Ok by {
                        if b > 0 {
                            assert(chunks[b] == program.functions@[b - 1].chunk);
                            assert(count_from(program.functions@[b - 1].chunk.code@, 0, 0) == Ok::<nat, Seq<char>>(functions@[b - 1].static_opcodes as nat));
                        }
                    }
                }
                return Err(m);
            },
        };
        let name = match &proto.name {
            Some(s) => Some(clone_string(s)),
            None => None,
        };
        functions.push(FunctionWorkStat { name, arity: proto.arity, static_opcodes: n });
        f = f + 1;
    }
    Ok(WorkInspection { main_static_opcodes, functions })
}

} // verus!

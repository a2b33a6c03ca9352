//! A unit of bytecode: its instructions, its constant pool and the map from
//! instruction offsets back to source spans.
use vstd::prelude::*;
use crate::compile::op::{op_code, Op};
use crate::syntax::pretty::{digits, push_digits};
use crate::syntax::span::Span;
use crate::text::{push_str, to_string};

verus! {

/// A constant of the pool. A float is held by its IEEE 754 bit pattern.
#[derive(Debug, Clone)]
pub enum Constant {
    Int(i64),
    Float(u64),
    String(String),
    Char(char),
}

/// Bytecode with its constants and its span map.
#[derive(Debug, Clone)]
pub struct Chunk {
    pub code: Vec<u8>,
    pub constants: Vec<Constant>,
    /// Maps bytecode offsets to source spans (sorted by offset).
    pub spans: Vec<(usize, Span)>,
}

/// A compiled function.
#[derive(Debug, Clone)]
pub struct FunctionProto {
    pub name: Option<String>,
    pub arity: u8,
    pub n_captures: u8,
    pub chunk: Chunk,
}

/// A compiled program: the top-level chunk and every function.
#[derive(Debug, Clone)]
pub struct CompiledProgram {
    pub main: Chunk,
    pub functions: Vec<FunctionProto>,
}

/// The two little-endian bytes of `v`.
pub open spec fn le_u16(v: u16) -> Seq<u8> {
    seq![(v % 256) as u8, (v / 256) as u8]
}

/// The `u16` that two little-endian bytes hold.
pub open spec fn u16_of(lo: u8, hi: u8) -> u16 {
    (lo + 256 * hi) as u16
}

/// The bit pattern of `v` in two's complement, as a `u16`.
pub open spec fn bits_of_i16(v: i16) -> u16 {
    if v < 0 {
        (v + 65536) as u16
    } else {
        v as u16
    }
}

/// The `i16` whose two's complement bit pattern is `u`.
pub open spec fn i16_of_bits(u: u16) -> i16 {
    if u >= 32768 {
        (u - 65536) as i16
    } else {
        u as i16
    }
}

/// The two little-endian bytes of `v` in two's complement.
pub open spec fn le_i16(v: i16) -> Seq<u8> {
    le_u16(bits_of_i16(v))
}

/// The span recorded for the last offset at or before `offset` among the
/// first `n` entries, if any.
pub open spec fn span_lookup(spans: Seq<(usize, Span)>, n: int, offset: usize) -> Option<Span>
    decreases n,
{
    if n <= 0 {
        None
    } else if spans[n - 1].0 <= offset {
        Some(spans[n - 1].1)
    } else {
        span_lookup(spans, n - 1, offset)
    }
}

/// The text of a failure to add to a full constant pool.
pub open spec fn pool_overflow_message(idx: nat) -> Seq<char> {
    "constant pool overflow: "@ + digits(idx) + " exceeds u16::MAX"@
}

/// The text of a jump whose target lies beyond `i16::MAX`.
pub open spec fn target_overflow_message(len: nat) -> Seq<char> {
    "jump target overflow: bytecode offset "@ + digits(len) + " exceeds i16::MAX"@
}

/// The text of a jump whose origin lies beyond `i16::MAX`.
pub open spec fn origin_overflow_message(origin: nat) -> Seq<char> {
    "jump origin overflow: bytecode offset "@ + digits(origin) + " exceeds i16::MAX"@
}

impl Chunk {
    /// The span map is sorted by offset, without repeats, and names no
    /// offset past the end of the code.
    pub open spec fn wf(&self) -> bool {
        &&& self.spans_sorted()
        &&& forall|i: int| 0 <= i < self.spans@.len() ==> self.spans@[i].0 <= self.code@.len()
    }

    /// The span map is sorted by offset, without repeats.
    pub open spec fn spans_sorted(&self) -> bool {
        forall|i: int, j: int| 0 <= i < j < self.spans@.len() ==> self.spans@[i].0 < self.spans@[j].0
    }

    /// An empty chunk.
    pub fn new() -> (r: Chunk)
        ensures
            r.code@.len() == 0,
            r.constants@.len() == 0,
            r.spans@.len() == 0,
            r.wf(),
    {
        Chunk { code: Vec::new(), constants: Vec::new(), spans: Vec::new() }
    }

    /// Appends an instruction.
    pub fn emit_op(&mut self, op: Op)
        ensures
            final(self).code@ == old(self).code@.push(op_code(op)),
            final(self).constants@ == old(self).constants@,
            final(self).spans@ == old(self).spans@,
            old(self).wf() ==> final(self).wf(),
    {
        self.code.push(op.byte());
    }

    /// Records `span` for the current end of the code, unless a span is
    /// already recorded there.
    pub fn record_span(&mut self, span: Span)
        ensures
            final(self).code@ == old(self).code@,
            final(self).constants@ == old(self).constants@,
            final(self).spans@ == if old(self).spans@.len() > 0 && old(self).spans@.last().0
                == old(self).code@.len() {
                old(self).spans@
            } else {
                old(self).spans@.push((old(self).code@.len() as usize, span))
            },
            old(self).wf() ==> final(self).wf(),
    {
        let offset = self.code.len();
        let n = self.spans.len();
        if n > 0 && self.spans[n - 1].0 == offset {
            return;
        }
        self.spans.push((offset, span));
    }

    /// The span recorded for the last offset at or before `offset`.
    pub fn span_at(&self, offset: usize) -> (r: Option<Span>)
        requires
            self.spans_sorted(),
        ensures
            r == span_lookup(self.spans@, self.spans@.len() as int, offset),
    {
        // the number of entries at or before `offset`, found by halving
        let mut lo: usize = 0;
        let mut hi: usize = self.spans.len();
        while lo < hi
            invariant
                0 <= lo <= hi <= self.spans@.len(),
                self.spans_sorted(),
                forall|i: int| 0 <= i < lo ==> self.spans@[i].0 <= offset,
                forall|i: int| hi <= i < self.spans@.len() ==> self.spans@[i].0 > offset,
            decreases hi - lo,
        {
            let mid = lo + (hi - lo) / 2;
            if self.spans[mid].0 <= offset {
                lo = mid + 1;
            } else {
                hi = mid;
            }
        }
        proof {
            lemma_span_lookup_prefix(self.spans@, self.spans@.len() as int, lo as int, offset);
        }
        if lo == 0 {
            None
        } else {
            Some(self.spans[lo - 1].1)
        }
    }

    /// Appends a byte.
    pub fn emit_u8(&mut self, val: u8)
        ensures
            final(self).code@ == old(self).code@.push(val),
            final(self).constants@ == old(self).constants@,
            final(self).spans@ == old(self).spans@,
            old(self).wf() ==> final(self).wf(),
    {
        self.code.push(val);
    }

    /// Appends `val` as two little-endian bytes.
    pub fn emit_u16(&mut self, val: u16)
        ensures
            final(self).code@ == old(self).code@ + le_u16(val),
            final(self).constants@ == old(self).constants@,
            final(self).spans@ == old(self).spans@,
            old(self).wf() ==> final(self).wf(),
    {
        self.code.push((val % 256) as u8);
        self.code.push((val / 256) as u8);
        assert(self.code@ =~= old(self).code@ + le_u16(val));
    }

    /// Appends `val` as two little-endian bytes in two's complement.
    pub fn emit_i16(&mut self, val: i16)
        ensures
            final(self).code@ == old(self).code@ + le_i16(val),
            final(self).constants@ == old(self).constants@,
            final(self).spans@ == old(self).spans@,
            old(self).wf() ==> final(self).wf(),
    {
        let bits: u16 = if val < 0 {
            (val as i32 + 65536) as u16
        } else {
            val as u16
        };
        self.emit_u16(bits);
    }

    /// Adds a constant to the pool and returns its index; the pool holds at
    /// most `u16::MAX + 1` constants.
    pub fn add_constant(&mut self, c: Constant) -> (r: Result<u16, String>)
        ensures
            final(self).code@ == old(self).code@,
            final(self).spans@ == old(self).spans@,
            old(self).constants@.len() <= u16::MAX ==> {
                &&& r == Ok::<u16, String>(old(self).constants@.len() as u16)
                &&& final(self).constants@ == old(self).constants@.push(c)
            },
            old(self).constants@.len() > u16::MAX ==> {
                &&& r matches Err(m) && m@ == pool_overflow_message(old(self).constants@.len())
                &&& final(self).constants@ == old(self).constants@
            },
    {
        let idx = self.constants.len();
        if idx > 65535 {
            let mut m = to_string("constant pool overflow: ");
            push_digits(&mut m, idx as u64);
            push_str(&mut m, " exceeds u16::MAX");
            return Err(m);
        }
        self.constants.push(c);
        Ok(idx as u16)
    }

    /// Emits a jump with a placeholder offset; returns where the offset
    /// stands, for `patch_jump`.
    pub fn emit_jump(&mut self, op: Op) -> (r: usize)
        requires
            old(self).code@.len() + 3 <= usize::MAX,
        ensures
            final(self).code@ == old(self).code@.push(op_code(op)).push(0u8).push(0u8),
            r == old(self).code@.len() + 1,
            final(self).constants@ == old(self).constants@,
            final(self).spans@ == old(self).spans@,
            old(self).wf() ==> final(self).wf(),
    {
        self.emit_op(op);
        let pos = self.code.len();
        self.emit_i16(0);
        assert(le_i16(0) =~= seq![0u8, 0u8]);
        assert(self.code@ =~= old(self).code@.push(op_code(op)).push(0u8).push(0u8));
        pos
    }

    /// Points the jump whose offset stands at `pos` to the current end of
    /// the code: the offset is counted from just after it.
    pub fn patch_jump(&mut self, pos: usize) -> (r: Result<(), String>)
        requires
            pos + 2 <= usize::MAX,
            old(self).code@.len() <= i16::MAX && pos + 2 <= i16::MAX ==> pos + 2 <= old(self).code@.len(),
        ensures
            final(self).constants@ == old(self).constants@,
            final(self).spans@ == old(self).spans@,
            old(self).code@.len() > i16::MAX ==> {
                &&& r matches Err(m) && m@ == target_overflow_message(old(self).code@.len())
                &&& final(self).code@ == old(self).code@
            },
            old(self).code@.len() <= i16::MAX && pos + 2 > i16::MAX ==> {
                &&& r matches Err(m) && m@ == origin_overflow_message((pos + 2) as nat)
                &&& final(self).code@ == old(self).code@
            },
            old(self).code@.len() <= i16::MAX && pos + 2 <= i16::MAX ==> {
                let bytes = le_i16((old(self).code@.len() - (pos + 2)) as i16);
                &&& r is Ok
                &&& final(self).code@ == old(self).code@.update(pos as int, bytes[0]).update(pos + 1, bytes[1])
            },
            old(self).wf() ==> final(self).wf(),
    {
        let len = self.code.len();
        if len > 32767 {
            let mut m = to_string("jump target overflow: bytecode offset ");
            push_digits(&mut m, len as u64);
            push_str(&mut m, " exceeds i16::MAX");
            return Err(m);
        }
        if pos + 2 > 32767 {
            let mut m = to_string("jump origin overflow: bytecode offset ");
            push_digits(&mut m, (pos + 2) as u64);
            push_str(&mut m, " exceeds i16::MAX");
            return Err(m);
        }
        let target = len as i16;
        let origin = (pos + 2) as i16;
        let offset: i16 = target - origin;
        let bits: u16 = if offset < 0 {
            (offset as i32 + 65536) as u16
        } else {
            offset as u16
        };
        self.code.set(pos, (bits % 256) as u8);
        self.code.set(pos + 1, (bits / 256) as u8);
        Ok(())
    }

    /// Reads the byte at `*ip` and steps past it.
    pub fn read_u8(code: &[u8], ip: &mut usize) -> (r: u8)
        requires
            *old(ip) < code@.len(),
        ensures
            r == code@[*old(ip) as int],
            *final(ip) == *old(ip) + 1,
    {
        let val = code[*ip];
        *ip = *ip + 1;
        val
    }

    /// Reads the little-endian `u16` at `*ip` and steps past it.
    pub fn read_u16(code: &[u8], ip: &mut usize) -> (r: u16)
        requires
            *old(ip) + 1 < code@.len(),
        ensures
            r == u16_of(code@[*old(ip) as int], code@[*old(ip) + 1]),
            *final(ip) == *old(ip) + 2,
    {
        let lo = code[*ip] as u16;
        let hi = code[*ip + 1] as u16;
        *ip = *ip + 2;
        lo + 256 * hi
    }

    /// Reads the little-endian two's complement `i16` at `*ip` and steps
    /// past it.
    pub fn read_i16(code: &[u8], ip: &mut usize) -> (r: i16)
        requires
            *old(ip) + 1 < code@.len(),
        ensures
            r == i16_of_bits(u16_of(code@[*old(ip) as int], code@[*old(ip) + 1])),
            *final(ip) == *old(ip) + 2,
    {
        let u = Chunk::read_u16(code, ip);
        if u >= 32768 {
            (u as i32 - 65536) as i16
        } else {
            u as i16
        }
    }
}

impl Default for Chunk {
    fn default() -> (r: Chunk)
        ensures
            r.code@.len() == 0,
            r.constants@.len() == 0,
            r.spans@.len() == 0,
    {
        Chunk::new()
    }
}

/// Among sorted offsets, the entries at or before `offset` are exactly the
/// first `lo`, so the lookup finds the `lo`-th.
pub proof fn lemma_span_lookup_prefix(spans: Seq<(usize, Span)>, n: int, lo: int, offset: usize)
    requires
        0 <= lo <= n <= spans.len(),
        forall|i: int| 0 <= i < lo ==> spans[i].0 <= offset,
        forall|i: int| lo <= i < n ==> spans[i].0 > offset,
    ensures
        span_lookup(spans, n, offset) == if lo == 0 {
            None::<Span>
        } else {
            Some(spans[lo - 1].1)
        },
    decreases n,
{
    if n > lo {
        lemma_span_lookup_prefix(spans, n - 1, lo, offset);
    }
}

/// What `emit_u16` writes, `read_u16` reads back.
pub proof fn law_u16_round_trip(v: u16)
    ensures
        u16_of(le_u16(v)[0], le_u16(v)[1]) == v,
{
}

/// What `emit_i16` writes, `read_i16` reads back.
pub proof fn law_i16_round_trip(v: i16)
    ensures
        i16_of_bits(u16_of(le_i16(v)[0], le_i16(v)[1])) == v,
{
    law_u16_round_trip(bits_of_i16(v));
}

/// A span recorded at the end of the code is found there, and at every
/// later offset up to the next recording.
pub proof fn law_record_then_lookup(spans: Seq<(usize, Span)>, end: usize, span: Span, offset: usize)
    requires
        forall|i: int| 0 <= i < spans.len() ==> spans[i].0 < end,
        end <= offset,
    ensures
        span_lookup(spans.push((end, span)), spans.len() + 1int, offset) == Some(span),
{
}

} // verus!

//! Recursive-descent parser from tokens to the syntax tree.
//!
//! Every parsing function keeps the parser well formed (the token stream is
//! never changed, the position stays on a token and nesting depth is restored),
//! never moves backwards, and consumes at least one token when it succeeds.
//! Those facts give termination: each recursive call either consumes input or
//! descends to a tighter precedence level.
use vstd::prelude::*;
use crate::syntax::ast::{
    BinOp, ConDecl, DatatypeDecl, Decl, DeclKind, EffectHandler, Expr, ExprKind, FunBinding,
    FunClause, Pat, PatKind, Program, SignatureDecl, SignatureSpec, TypeAliasDecl, TypeExpr,
    TypeExprKind,
};
use crate::syntax::span::Span;
use crate::syntax::token::{Tok, TokKind, Token, TokenKind, same_variant, toks_view};
use crate::text::{clone_string, push_str, string_eq, to_string};
use crate::syntax::literals::{lemma_printed_op, printed_op_token};

verus! {

/// A token that cannot continue an expression already parsed.
pub open spec fn ends_expr(k: TokKind) -> bool {
    !(starts_app_arg(k) || k is Colon || k is Orelse || k is Andalso || k is Eq || k is Ne || k is Lt || k is Gt
        || k is Le || k is Ge || k is LtDot || k is GtDot || k is LeDot || k is GeDot || k is ColonColon
        || k is Plus || k is Minus || k is PlusDot || k is MinusDot || k is Caret || k is Star || k is Slash
        || k is Mod || k is StarDot || k is SlashDot)
}

/// Where `e` applies a binary operator, one of the tokens `toks[lo..hi]` is
/// the token that the operator's printed text lexes as.
pub open spec fn op_read_from(e: Expr, toks: Seq<Token>, lo: int, hi: int) -> bool {
    match e.kind {
        ExprKind::BinOp(op, _, _) => exists|j: int| lo <= j < hi && #[trigger] toks[j].kind@ == printed_op_token(op),
        _ => true,
    }
}

/// A token that cannot continue a pattern already parsed.
pub open spec fn ends_pat(k: TokKind) -> bool {
    !(k is As || k is ColonColon || k is Colon)
}

/// A token that cannot continue a type already parsed.
pub open spec fn ends_type(k: TokKind) -> bool {
    !(k is ThinArrow || k is Star || k is Ident || k is UpperIdent)
}


/// A token that begins a declaration.
pub open spec fn starts_decl(k: TokKind) -> bool {
    k is Val || k is Fun || k is Datatype || k is Type || k is Local || k is Use || k is Signature
        || k is Structure || k is Effect
}

/// The number of tokens of the declaration at `i` where it is `val p = a` or
/// `fun f p = a`, with `p` and `a` single tokens and the token after `a`
/// closing the expression (and, after a `fun`, no further clause or binding);
/// 0 where the tokens at `i` are no such declaration.
pub open spec fn simple_decl_len(toks: Seq<Token>, i: int) -> int {
    if toks[i].kind@ is Val && simple_pat_tok(toks[i + 1].kind@) && toks[i + 2].kind@ is Eq && simple_atom(
        toks[i + 3].kind@,
    ) && ends_expr(toks[i + 4].kind@) {
        4
    } else if toks[i].kind@ is Fun && toks[i + 1].kind@ is Ident && simple_pat_tok(toks[i + 2].kind@) && toks[i
        + 3].kind@ is Eq && simple_atom(toks[i + 4].kind@) && ends_expr(toks[i + 5].kind@) && !(toks[i
        + 5].kind@ is Bar) && !(toks[i + 5].kind@ is And) {
        5
    } else {
        0
    }
}

/// The tokens from `i` on are `n` declarations of the form `simple_decl_len`
/// counts, then the end of input.
pub open spec fn simple_decls(toks: Seq<Token>, i: int, n: nat) -> bool
    decreases n,
{
    if n == 0 {
        0 <= i < toks.len() && toks[i].kind@ is Eof
    } else {
        0 <= i < toks.len() && simple_decl_len(toks, i) > 0 && simple_decls(
            toks,
            i + simple_decl_len(toks, i),
            (n - 1) as nat,
        )
    }
}

/// A run of simple declarations has one length.
pub proof fn lemma_simple_decls_unique(toks: Seq<Token>, i: int, n: nat, m: nat)
    requires
        simple_decls(toks, i, n),
        simple_decls(toks, i, m),
    ensures
        n == m,
    decreases n,
{
    if n > 0 && m > 0 {
        lemma_simple_decls_unique(toks, i + simple_decl_len(toks, i), (n - 1) as nat, (m - 1) as nat);
    }
}

/// `simple_decl_len` read on token values.
pub open spec fn simple_decl_len_of(ts: Seq<Tok>, i: int) -> int {
    if ts[i].kind is Val && simple_pat_tok(ts[i + 1].kind) && ts[i + 2].kind is Eq && simple_atom(ts[i + 3].kind)
        && ends_expr(ts[i + 4].kind) {
        4
    } else if ts[i].kind is Fun && ts[i + 1].kind is Ident && simple_pat_tok(ts[i + 2].kind) && ts[i + 3].kind is Eq
        && simple_atom(ts[i + 4].kind) && ends_expr(ts[i + 5].kind) && !(ts[i + 5].kind is Bar) && !(ts[i
        + 5].kind is And) {
        5
    } else {
        0
    }
}

/// The token values from `i` on are `n` declarations of the form
/// `simple_decl_len` counts, then the end-of-input token, which is the last.
pub open spec fn simple_program(ts: Seq<Tok>, i: int, n: nat) -> bool
    decreases n,
{
    if n == 0 {
        0 <= i && i == ts.len() - 1 && ts[i].kind is Eof
    } else {
        0 <= i < ts.len() && simple_decl_len_of(ts, i) > 0 && simple_program(
            ts,
            i + simple_decl_len_of(ts, i),
            (n - 1) as nat,
        )
    }
}

/// A token stream whose values form such a run is closed by end of input,
/// and the parser sees the same run in it.
pub proof fn lemma_simple_program_tokens(v: Seq<Token>, i: int, n: nat)
    requires
        simple_program(toks_view(v), i, n),
    ensures
        0 <= i < v.len(),
        well_terminated(v),
        simple_decls(v, i, n),
    decreases n,
{
    let t = toks_view(v);
    assert(t.len() == v.len());
    if n == 0 {
        assert(t[i] == v[i]@);
    } else {
        let l = simple_decl_len_of(t, i);
        lemma_simple_program_tokens(v, i + l, (n - 1) as nat);
        assert forall|k: int| 0 <= k <= l implies #[trigger] t[i + k] == v[i + k]@ by {}
        assert(simple_decl_len(v, i) == l);
    }
}

/// A token at which a run of declarations stops.
pub open spec fn decls_stop(k: TokKind, stop_at_in: bool) -> bool {
    k is Eof || (k is In && stop_at_in) || (k is End && !stop_at_in)
}


/// A token that alone makes a type.
pub open spec fn simple_type_tok(k: TokKind) -> bool {
    k is TyVar || k is Ident || k is UpperIdent
}


/// A token that alone makes a pattern.
pub open spec fn simple_pat_tok(k: TokKind) -> bool {
    k is Underscore || k is IntLit || k is FloatLit || k is StringLit || k is CharLit || k is True || k is False
        || k is Ident
}


/// A token that alone makes an atomic expression.
pub open spec fn simple_atom(k: TokKind) -> bool {
    k is IntLit || k is FloatLit || k is StringLit || k is CharLit || k is True || k is False || k is Ident
}

/// A token that can begin an atomic expression.
pub open spec fn starts_atom_expr(k: TokKind) -> bool {
    simple_atom(k) || k is UpperIdent || k is LParen || k is LBracket || k is If || k is Let || k is Case
        || k is Fn || k is Handle || k is Perform || k is Resume
}


/// A token that can begin an argument of an application.
pub open spec fn starts_app_arg(k: TokKind) -> bool {
    k is IntLit || k is FloatLit || k is StringLit || k is CharLit || k is True || k is False
        || k is Ident || k is UpperIdent || k is Tilde || k is Not || k is LParen || k is LBracket
}

/// A token that can begin an atomic pattern.
pub open spec fn starts_atom_pat(k: TokKind) -> bool {
    k is Underscore || k is IntLit || k is FloatLit || k is StringLit || k is CharLit || k is True
        || k is False || k is Ident || k is UpperIdent || k is LParen || k is LBracket || k is Tilde
}


/// A syntax error with its message and the span of the offending token.
#[derive(Debug, Clone)]
pub struct ParseError {
    pub message: String,
    pub span: Span,
}

/// The deepest nesting of expressions, patterns and types that is accepted.
pub const MAX_DEPTH: u32 = 256;

/// A parser over a token stream that ends with the end-of-input token.
pub struct Parser {
    tokens: Vec<Token>,
    pos: usize,
    depth: u32,
}

/// A token stream the parser accepts: non-empty and closed by end of input.
pub open spec fn well_terminated(tokens: Seq<Token>) -> bool {
    tokens.len() > 0 && tokens.last().kind@ is Eof
}

impl Parser {
    /// The token stream.
    pub closed spec fn toks(&self) -> Seq<Token> {
        self.tokens@
    }

    /// The index of the current token.
    pub closed spec fn at(&self) -> int {
        self.pos as int
    }

    /// How deeply the parser is nested in expressions, patterns and types.
    pub closed spec fn nesting(&self) -> nat {
        self.depth as nat
    }

    /// The parser's invariant.
    pub closed spec fn wf(&self) -> bool {
        &&& well_terminated(self.tokens@)
        &&& self.pos < self.tokens@.len()
        &&& self.depth <= MAX_DEPTH
    }

    spec fn fuel(&self) -> int {
        self.tokens@.len() - self.pos
    }

    /// `next` is `prev` after a parsing step: still well formed, same tokens
    /// and depth, position not moved back, and moved forward when `ok`.
    spec fn stepped(prev: Parser, next: Parser, ok: bool) -> bool {
        &&& next.wf()
        &&& next.tokens@ == prev.tokens@
        &&& next.depth == prev.depth
        &&& prev.pos <= next.pos
        &&& ok ==> prev.pos < next.pos
    }

    spec fn cur(&self) -> TokKind {
        self.tokens@[self.pos as int].kind@
    }

    /// The kind of the token `i` places after the current one.
    spec fn ahead(&self, i: int) -> TokKind {
        self.tokens@[self.pos + i].kind@
    }

    /// The token after the current one cannot continue an expression.
    spec fn then_ends_expr(&self) -> bool {
        self.pos + 1 < self.tokens@.len() && ends_expr(self.tokens@[self.pos + 1].kind@)
    }

    /// The token after the current one cannot continue a pattern.
    spec fn then_ends_pat(&self) -> bool {
        self.pos + 1 < self.tokens@.len() && ends_pat(self.tokens@[self.pos + 1].kind@)
    }

    /// The token after the current one cannot continue a type.
    spec fn then_ends_type(&self) -> bool {
        self.pos + 1 < self.tokens@.len() && ends_type(self.tokens@[self.pos + 1].kind@)
    }

    /// A parser at the start of `tokens`.
    pub fn new(tokens: Vec<Token>) -> (r: Parser)
        requires
            well_terminated(tokens@),
        ensures
            r.wf(),
            r.toks() == tokens@,
            r.at() == 0,
            r.nesting() == 0,
    {
        Parser { tokens, pos: 0, depth: 0 }
    }

    // ── Utility ──────────────────────────────────────────────────────

    fn peek(&self) -> (r: &TokenKind)
        requires
            self.wf(),
        ensures
            r@ == self.cur(),
    {
        &self.tokens[self.pos].kind
    }

    fn span(&self) -> (r: Span)
        requires
            self.wf(),
        ensures
            r == self.tokens@[self.pos as int].span,
    {
        self.tokens[self.pos].span
    }

    fn advance(&mut self)
        requires
            old(self).wf(),
        ensures
            final(self).wf(),
            final(self).tokens@ == old(self).tokens@,
            final(self).depth == old(self).depth,
            final(self).pos == (if old(self).pos + 1 < old(self).tokens@.len() {
                old(self).pos + 1
            } else {
                old(self).pos as int
            }),
            !(old(self).cur() is Eof) ==> final(self).pos == old(self).pos + 1,
    {
        if self.tokens.len() - self.pos > 1 {
            self.pos = self.pos + 1;
        }
    }

    fn eat(&mut self, kind: &TokenKind) -> (r: Option<Span>)
        requires
            old(self).wf(),
            !(kind@ is Eof),
        ensures
            Self::stepped(*old(self), *final(self), r is Some),
            r is Some <==> same_variant(old(self).cur(), kind@),
            r is None ==> final(self).pos == old(self).pos,
            r is Some ==> final(self).pos == old(self).pos + 1 && r == Some(
                old(self).tokens@[old(self).pos as int].span,
            ),
    {
        if self.peek().same_variant(kind) {
            let span = self.span();
            self.advance();
            Some(span)
        } else {
            None
        }
    }

    fn err(&self, message: &str) -> (r: ParseError)
        requires
            self.wf(),
        ensures
            r.message@ == message@,
            r.span == self.tokens@[self.pos as int].span,
    {
        ParseError { message: to_string(message), span: self.span() }
    }

    fn expect(&mut self, kind: &TokenKind, desc: &str) -> (r: Result<Span, ParseError>)
        requires
            old(self).wf(),
            !(kind@ is Eof),
        ensures
            Self::stepped(*old(self), *final(self), r is Ok),
            r is Ok <==> same_variant(old(self).cur(), kind@),
            r is Err ==> final(self).pos == old(self).pos,
            r matches Err(e) ==> e.message@ == "expected "@ + desc@,
            r is Ok ==> final(self).pos == old(self).pos + 1,
    {
        match self.eat(kind) {
            Some(s) => Ok(s),
            None => {
                let mut m = to_string("expected ");
                push_str(&mut m, desc);
                Err(ParseError { message: m, span: self.span() })
            },
        }
    }

    /// The name carried by the current identifier, constructor or type
    /// variable token, which is then consumed.
    fn take_symbol(&mut self) -> (r: String)
        requires
            old(self).wf(),
            old(self).cur() is Ident || old(self).cur() is UpperIdent || old(self).cur() is TyVar,
        ensures
            Self::stepped(*old(self), *final(self), true),
            final(self).pos == old(self).pos + 1,
            old(self).cur() matches TokKind::Ident(s) ==> r@ == s,
            old(self).cur() matches TokKind::UpperIdent(s) ==> r@ == s,
            old(self).cur() matches TokKind::TyVar(s) ==> r@ == s,
    {
        let s = match &self.tokens[self.pos].kind {
            TokenKind::Ident(s) => clone_string(s),
            TokenKind::UpperIdent(s) => clone_string(s),
            TokenKind::TyVar(s) => clone_string(s),
            _ => String::new(),
        };
        self.advance();
        s
    }

    /// The current string literal's contents, which is then consumed.
    fn take_string_lit(&mut self) -> (r: String)
        requires
            old(self).wf(),
            old(self).cur() is StringLit,
        ensures
            Self::stepped(*old(self), *final(self), true),
            final(self).pos == old(self).pos + 1,
            old(self).cur() matches TokKind::StringLit(s) ==> r@ == s,
    {
        let s = match &self.tokens[self.pos].kind {
            TokenKind::StringLit(s) => clone_string(s),
            _ => String::new(),
        };
        self.advance();
        s
    }

    fn expect_ident(&mut self) -> (r: Result<(String, Span), ParseError>)
        requires
            old(self).wf(),
        ensures
            Self::stepped(*old(self), *final(self), r is Ok),
            r is Ok <==> old(self).cur() is Ident,
            r matches Ok((name, _)) ==> old(self).cur() == TokKind::Ident(name@),
            r is Ok ==> final(self).pos == old(self).pos + 1,
    {
        if let TokenKind::Ident(_) = self.peek() {
            let span = self.span();
            Ok((self.take_symbol(), span))
        } else {
            Err(self.err("expected identifier"))
        }
    }

    fn expect_ident_or_wildcard(&mut self) -> (r: Result<(String, Span), ParseError>)
        requires
            old(self).wf(),
        ensures
            Self::stepped(*old(self), *final(self), r is Ok),
            r is Ok <==> (old(self).cur() is Ident || old(self).cur() is Underscore),
            r is Ok ==> final(self).pos == old(self).pos + 1,
    {
        match self.peek() {
            TokenKind::Ident(_) => {
                let span = self.span();
                Ok((self.take_symbol(), span))
            },
            TokenKind::Underscore => {
                let span = self.span();
                self.advance();
                Ok((to_string("_"), span))
            },
            _ => Err(self.err("expected identifier or _")),
        }
    }

    fn expect_upper_ident(&mut self) -> (r: Result<(String, Span), ParseError>)
        requires
            old(self).wf(),
        ensures
            Self::stepped(*old(self), *final(self), r is Ok),
            r is Ok <==> old(self).cur() is UpperIdent,
            r is Ok ==> final(self).pos == old(self).pos + 1,
    {
        if let TokenKind::UpperIdent(_) = self.peek() {
            let span = self.span();
            Ok((self.take_symbol(), span))
        } else {
            Err(self.err("expected constructor name"))
        }
    }

    fn expect_name(&mut self) -> (r: Result<(String, Span), ParseError>)
        requires
            old(self).wf(),
        ensures
            Self::stepped(*old(self), *final(self), r is Ok),
            r is Ok <==> (old(self).cur() is Ident || old(self).cur() is UpperIdent),
            r is Ok ==> final(self).pos == old(self).pos + 1,
    {
        match self.peek() {
            TokenKind::Ident(_) | TokenKind::UpperIdent(_) => {
                let span = self.span();
                Ok((self.take_symbol(), span))
            },
            _ => Err(self.err("expected name")),
        }
    }

    fn expect_tyvar(&mut self) -> (r: Result<String, ParseError>)
        requires
            old(self).wf(),
        ensures
            Self::stepped(*old(self), *final(self), r is Ok),
            r is Ok <==> old(self).cur() is TyVar,
    {
        if let TokenKind::TyVar(_) = self.peek() {
            Ok(self.take_symbol())
        } else {
            Err(self.err("expected type variable"))
        }
    }

    fn enter(&mut self) -> (r: Result<(), ParseError>)
        requires
            old(self).wf(),
        ensures
            r is Ok <==> old(self).depth < MAX_DEPTH,
            r is Ok ==> final(self).depth == old(self).depth + 1,
            r is Err ==> final(self).depth == old(self).depth,
            final(self).wf(),
            final(self).tokens@ == old(self).tokens@,
            final(self).pos == old(self).pos,
    {
        if self.depth >= MAX_DEPTH {
            Err(self.err("expression nesting limit exceeded"))
        } else {
            self.depth = self.depth + 1;
            Ok(())
        }
    }

    fn leave(&mut self)
        requires
            old(self).depth > 0,
            old(self).wf(),
        ensures
            final(self).depth == old(self).depth - 1,
            final(self).wf(),
            final(self).tokens@ == old(self).tokens@,
            final(self).pos == old(self).pos,
    {
        self.depth = self.depth - 1;
    }

    fn can_start_app_arg(&self) -> (r: bool)
        requires
            self.wf(),
        ensures
            r == starts_app_arg(self.cur()),
            r ==> !(self.cur() is Eof),
    {
        match self.peek() {
            TokenKind::IntLit(_) | TokenKind::FloatLit(_) | TokenKind::StringLit(_)
            | TokenKind::CharLit(_) | TokenKind::True | TokenKind::False | TokenKind::Ident(_)
            | TokenKind::UpperIdent(_) | TokenKind::Tilde | TokenKind::Not | TokenKind::LParen
            | TokenKind::LBracket => true,
            _ => false,
        }
    }

    fn at_bar(&self) -> (r: bool)
        requires
            self.wf(),
        ensures
            r == self.cur() is Bar,
    {
        match self.peek() {
            TokenKind::Bar => true,
            _ => false,
        }
    }

    fn at_name(&self) -> (r: bool)
        requires
            self.wf(),
        ensures
            r == (self.cur() is Ident || self.cur() is UpperIdent),
    {
        match self.peek() {
            TokenKind::Ident(_) | TokenKind::UpperIdent(_) => true,
            _ => false,
        }
    }

    fn can_start_qualified_path(&self) -> (r: bool)
        requires
            self.wf(),
        ensures
            r == (self.cur() is UpperIdent && self.pos + 1 < self.tokens@.len()
                && self.tokens@[self.pos + 1].kind@ is Dot),
            r ==> self.cur() is UpperIdent,
    {
        if let TokenKind::UpperIdent(_) = self.peek() {
            if self.tokens.len() - self.pos > 1 {
                if let TokenKind::Dot = self.tokens[self.pos + 1].kind {
                    return true;
                }
            }
        }
        false
    }

    fn can_start_atom_pat(&self) -> (r: bool)
        requires
            self.wf(),
        ensures
            r == starts_atom_pat(self.cur()),
            r ==> !(self.cur() is Eof),
    {
        match self.peek() {
            TokenKind::Underscore | TokenKind::IntLit(_) | TokenKind::FloatLit(_)
            | TokenKind::StringLit(_) | TokenKind::CharLit(_) | TokenKind::True
            | TokenKind::False | TokenKind::Ident(_) | TokenKind::UpperIdent(_)
            | TokenKind::LParen | TokenKind::LBracket | TokenKind::Tilde => true,
            _ => false,
        }
    }

    /// A dotted path `A.B.c`; the flag tells whether its last part names a
    /// constructor (starts with an upper-case letter).
    fn parse_qualified_symbol(&mut self) -> (r: Result<(String, bool, Span), ParseError>)
        requires
            old(self).wf(),
        ensures
            Self::stepped(*old(self), *final(self), r is Ok),
            !(old(self).cur() is UpperIdent) ==> r is Err,
            old(self).cur() matches TokKind::UpperIdent(x) ==> (!(old(self).tokens@[old(self).pos + 1].kind@ is Dot)
                ==> (r matches Ok(v) && v.0@ == x && final(self).pos == old(self).pos + 1)),
    {
        let start = self.span();
        if let TokenKind::UpperIdent(_) = self.peek() {
        } else {
            return Err(self.err("expected qualified name"));
        }
        let mut joined = self.take_symbol();
        let mut last = clone_string(&joined);
        let ghost p0 = self.pos;
        let ghost j0 = joined@;
        while self.eat(&TokenKind::Dot).is_some()
            invariant
                self.wf(),
                self.tokens@ == old(self).tokens@,
                self.depth == old(self).depth,
                old(self).pos < self.pos,
                p0 == old(self).pos + 1,
                !(old(self).tokens@[p0 as int].kind@ is Dot) ==> self.pos == p0 && joined@ == j0,
            decreases self.fuel(),
        {
            match self.peek() {
                TokenKind::UpperIdent(_) | TokenKind::Ident(_) => {
                    let part = self.take_symbol();
                    push_str(&mut joined, ".");
                    push_str(&mut joined, part.as_str());
                    last = part;
                },
                _ => {
                    return Err(self.err("expected name after '.'"));
                },
            }
        }
        let end = self.tokens[self.pos - 1].span;
        let lb = last.as_str().as_bytes();
        let is_constructor = lb.len() > 0 && lb[0] >= 65 && lb[0] <= 90;
        Ok((joined, is_constructor, start.merge(end)))
    }

    // ── Program ──────────────────────────────────────────────────────

    /// Parses declarations up to the end of input.
    pub fn parse_program(&mut self) -> (r: Result<Program, ParseError>)
        requires
            old(self).wf(),
        ensures
            final(self).wf(),
            final(self).toks() == old(self).toks(),
            old(self).at() <= final(self).at(),
            r is Ok ==> final(self).toks()[final(self).at()].kind@ is Eof,
            old(self).toks()[old(self).at()].kind@ is Eof ==> (r matches Ok(p) && p.decls@.len() == 0),
            forall|n: nat|
                #![trigger simple_decls(old(self).toks(), old(self).at(), n)]
                simple_decls(old(self).toks(), old(self).at(), n) && old(self).nesting() < MAX_DEPTH ==> (r matches Ok(p)
                    && p.decls@.len() == n && forall|k: int|
                    0 <= k < n ==> (#[trigger] p.decls@[k]).kind is Val || p.decls@[k].kind is Fun),
    {
        let mut decls: Vec<Decl> = Vec::new();
        let ghost simple = (exists|n: nat| simple_decls(self.tokens@, self.pos as int, n)) && self.depth < MAX_DEPTH;
        let ghost n0: nat = choose|n: nat| simple_decls(self.tokens@, self.pos as int, n);
        loop
            invariant
                self.wf(),
                self.tokens@ == old(self).tokens@,
                self.depth == old(self).depth,
                old(self).pos <= self.pos,
                old(self).toks()[old(self).at()].kind@ is Eof ==> self.pos == old(self).pos && decls@.len() == 0,
                simple == ((exists|n: nat| simple_decls(old(self).tokens@, old(self).pos as int, n)) && old(self).depth
                    < MAX_DEPTH),
                simple ==> simple_decls(old(self).tokens@, old(self).pos as int, n0),
                simple ==> decls@.len() <= n0 && simple_decls(self.tokens@, self.pos as int, (n0 - decls@.len()) as nat),
                simple ==> forall|k: int| 0 <= k < decls@.len() ==> (#[trigger] decls@[k]).kind is Val || decls@[k].kind is Fun,
            decreases self.fuel(),
        {
            if let TokenKind::Eof = self.peek() {
                proof {
                    if simple {
                        if decls@.len() < n0 {
                            assert(simple_decl_len(self.tokens@, self.pos as int) > 0);
                        }
                    }
                    assert forall|n: nat|
                        #![trigger simple_decls(old(self).toks(), old(self).at(), n)]
                        simple_decls(old(self).toks(), old(self).at(), n) && old(self).nesting() < MAX_DEPTH implies decls@.len()
                        == n by {
                        lemma_simple_decls_unique(old(self).tokens@, old(self).pos as int, n, n0);
                    }
                }
                return Ok(Program { decls });
            }
            let ghost pre = decls@;
            let d = match self.parse_decl() {
                Ok(d) => d,
                Err(e) => {
                    proof {
                        assert forall|n: nat|
                            #![trigger simple_decls(old(self).toks(), old(self).at(), n)]
                            simple_decls(old(self).toks(), old(self).at(), n) && old(self).nesting() < MAX_DEPTH implies false by {
                            lemma_simple_decls_unique(old(self).tokens@, old(self).pos as int, n, n0);
                        }
                    }
                    return Err(e);
                },
            };
            decls.push(d);
            proof {
                assert(decls@.drop_last() == pre);
            }
        }
    }

    /// Parses a whole input that is one type expression.
    pub fn parse_type_only(&mut self) -> (r: Result<TypeExpr, ParseError>)
        requires
            old(self).wf(),
        ensures
            final(self).wf(),
            final(self).toks() == old(self).toks(),
            old(self).at() <= final(self).at(),
            r is Ok ==> final(self).toks()[final(self).at()].kind@ is Eof,
            (simple_type_tok(old(self).toks()[old(self).at()].kind@) && old(self).at() + 1 < old(self).toks().len()
                && old(self).toks()[old(self).at() + 1].kind@ is Eof && old(self).nesting() < MAX_DEPTH) ==> r is Ok,
            (simple_type_tok(old(self).toks()[old(self).at()].kind@) && old(self).at() + 3 < old(self).toks().len() && old(
                self,
            ).toks()[old(self).at() + 1].kind@ is ThinArrow && simple_type_tok(old(self).toks()[old(self).at() + 2].kind@)
                && old(self).toks()[old(self).at() + 3].kind@ is Eof && old(self).nesting() < MAX_DEPTH) ==> (r matches Ok(t)
                && t.kind is Arrow),
    {
        let ty = self.parse_type_expr()?;
        if let TokenKind::Eof = self.peek() {
            Ok(ty)
        } else {
            Err(self.err("expected end of type"))
        }
    }

    // ── Declarations ─────────────────────────────────────────────────

    fn parse_decl(&mut self) -> (r: Result<Decl, ParseError>)
        requires
            old(self).wf(),
        ensures
            Self::stepped(*old(self), *final(self), r is Ok),
            !starts_decl(old(self).cur()) ==> r is Err,
            (old(self).cur() is Use && old(self).tokens@[old(self).pos + 1].kind@ is StringLit) ==> r is Ok,
            (simple_decl_len(old(self).tokens@, old(self).pos as int) > 0 && old(self).depth < MAX_DEPTH) ==> (r matches Ok(
                d,
            ) && (d.kind is Val || d.kind is Fun) && final(self).pos == old(self).pos + simple_decl_len(
                old(self).tokens@,
                old(self).pos as int,
            )),
        decreases old(self).fuel(), 40int,
    {
        match self.peek() {
            TokenKind::Val => self.parse_val_decl(),
            TokenKind::Fun => self.parse_fun_decl(),
            TokenKind::Datatype => self.parse_datatype_decl(),
            TokenKind::Type => self.parse_type_alias_decl(),
            TokenKind::Local => self.parse_local_decl(),
            TokenKind::Use => self.parse_use_decl(),
            TokenKind::Signature => self.parse_signature_decl(),
            TokenKind::Structure => self.parse_structure_decl(),
            TokenKind::Effect => self.parse_effect_decl(),
            _ => Err(
                self.err(
                    "expected declaration (val, fun, datatype, type, local, use, signature, structure, or effect)",
                ),
            ),
        }
    }

    fn parse_val_decl(&mut self) -> (r: Result<Decl, ParseError>)
        requires
            old(self).wf(),
            !(old(self).cur() is Eof),
        ensures
            Self::stepped(*old(self), *final(self), r is Ok),
            (old(self).depth < MAX_DEPTH && simple_pat_tok(old(self).ahead(1)) && old(self).ahead(2) is Eq
                && simple_atom(old(self).ahead(3)) && ends_expr(old(self).ahead(4))) ==> (r matches Ok(d) && d.kind is Val
                && final(self).pos == old(self).pos + 4),
        decreases old(self).fuel(), 39int,
    {
        let start = self.span();
        self.advance();
        if self.eat(&TokenKind::Rec).is_some() {
            let (name, _) = self.expect_ident()?;
            self.expect(&TokenKind::Eq, "=")?;
            if let TokenKind::Fn = self.peek() {
            } else {
                return Err(self.err("val rec requires fn on the right-hand side"));
            }
            let body = self.parse_expr()?;
            let span = start.merge(body.span);
            return Ok(Decl { kind: DeclKind::ValRec(name, body), span });
        }
        let pat = self.parse_pat()?;
        self.expect(&TokenKind::Eq, "=")?;
        let body = self.parse_expr()?;
        let span = start.merge(body.span);
        Ok(Decl { kind: DeclKind::Val(pat, body), span })
    }

    fn parse_fun_decl(&mut self) -> (r: Result<Decl, ParseError>)
        requires
            old(self).wf(),
            !(old(self).cur() is Eof),
        ensures
            Self::stepped(*old(self), *final(self), r is Ok),
            (old(self).depth < MAX_DEPTH && old(self).ahead(1) is Ident && simple_pat_tok(old(self).ahead(2)) && old(
                self,
            ).ahead(3) is Eq && simple_atom(old(self).ahead(4)) && ends_expr(old(self).ahead(5)) && !(old(
                self,
            ).ahead(5) is Bar) && !(old(self).ahead(5) is And)) ==> (r matches Ok(d) && d.kind is Fun
                && final(self).pos == old(self).pos + 5),
        decreases old(self).fuel(), 39int,
    {
        let start = self.span();
        self.advance();
        let first = self.parse_fun_binding()?;
        let mut end = first.span;
        let mut bindings = vec![first];
        while self.eat(&TokenKind::And).is_some()
            invariant
                self.wf(),
                self.tokens@ == old(self).tokens@,
                self.depth == old(self).depth,
                old(self).pos < self.pos,
                (old(self).depth < MAX_DEPTH && old(self).ahead(1) is Ident && simple_pat_tok(old(self).ahead(2)) && old(
                    self,
                ).ahead(3) is Eq && simple_atom(old(self).ahead(4)) && ends_expr(old(self).ahead(5)) && !(old(
                    self,
                ).ahead(5) is Bar) && !(old(self).ahead(5) is And)) ==> self.pos == old(self).pos + 5,
            decreases self.fuel(),
        {
            let b = self.parse_fun_binding()?;
            end = b.span;
            bindings.push(b);
        }
        let span = start.merge(end);
        Ok(Decl { kind: DeclKind::Fun(bindings), span })
    }

    fn parse_fun_clause(&mut self) -> (r: Result<FunClause, ParseError>)
        requires
            old(self).wf(),
        ensures
            Self::stepped(*old(self), *final(self), r is Ok),
            (old(self).depth < MAX_DEPTH && simple_pat_tok(old(self).cur()) && old(self).ahead(1) is Eq && simple_atom(
                old(self).ahead(2),
            ) && ends_expr(old(self).ahead(3))) ==> (r matches Ok(c) && c.pats@.len() == 1 && final(self).pos == old(
                self,
            ).pos + 3),
        decreases old(self).fuel(), 37int,
    {
        let clause_start = self.span();
        let mut pats: Vec<Pat> = Vec::new();
        while self.can_start_atom_pat()
            invariant
                self.wf(),
                self.tokens@ == old(self).tokens@,
                self.depth == old(self).depth,
                old(self).pos <= self.pos,
                pats.len() > 0 ==> old(self).pos < self.pos,
                (old(self).depth < MAX_DEPTH && simple_pat_tok(old(self).cur()) && old(self).ahead(1) is Eq)
                    ==> ((pats@.len() == 0 && self.pos == old(self).pos) || (pats@.len() == 1 && self.pos == old(
                    self,
                ).pos + 1)),
            decreases self.fuel(),
        {
            let p = self.parse_atom_pat()?;
            pats.push(p);
        }
        if pats.len() == 0 {
            return Err(self.err("expected at least one parameter pattern"));
        }
        self.expect(&TokenKind::Eq, "=")?;
        let body = self.parse_expr()?;
        let span = clause_start.merge(body.span);
        Ok(FunClause { pats, body, span })
    }

    fn parse_fun_binding(&mut self) -> (r: Result<FunBinding, ParseError>)
        requires
            old(self).wf(),
        ensures
            Self::stepped(*old(self), *final(self), r is Ok),
            (old(self).depth < MAX_DEPTH && old(self).cur() is Ident && simple_pat_tok(old(self).ahead(1)) && old(
                self,
            ).ahead(2) is Eq && simple_atom(old(self).ahead(3)) && ends_expr(old(self).ahead(4)) && !(old(
                self,
            ).ahead(4) is Bar)) ==> (r matches Ok(b) && b.clauses@.len() == 1 && final(self).pos == old(self).pos + 4),
        decreases old(self).fuel(), 38int,
    {
        let (name, name_span) = self.expect_ident()?;
        let first = self.parse_fun_clause()?;
        let mut end = first.span;
        let mut clauses = vec![first];
        while self.at_bar()
            invariant
                self.wf(),
                self.tokens@ == old(self).tokens@,
                self.depth == old(self).depth,
                old(self).pos < self.pos,
                (old(self).depth < MAX_DEPTH && old(self).cur() is Ident && simple_pat_tok(old(self).ahead(1)) && old(
                    self,
                ).ahead(2) is Eq && simple_atom(old(self).ahead(3)) && ends_expr(old(self).ahead(4)) && !(old(
                    self,
                ).ahead(4) is Bar)) ==> (self.pos == old(self).pos + 4 && clauses@.len() == 1),
            decreases self.fuel(),
        {
            self.advance();
            let (next_name, _) = self.expect_ident()?;
            if !string_eq(&next_name, &name) {
                let mut m = to_string("clausal function name mismatch: expected '");
                push_str(&mut m, name.as_str());
                push_str(&mut m, "', found '");
                push_str(&mut m, next_name.as_str());
                push_str(&mut m, "'");
                return Err(ParseError { message: m, span: self.span() });
            }
            let c = self.parse_fun_clause()?;
            end = c.span;
            clauses.push(c);
        }
        let span = name_span.merge(end);
        Ok(FunBinding { name, clauses, span })
    }

    fn parse_datatype_decl(&mut self) -> (r: Result<Decl, ParseError>)
        requires
            old(self).wf(),
            !(old(self).cur() is Eof),
        ensures
            Self::stepped(*old(self), *final(self), r is Ok),
            (old(self).ahead(1) is Ident && old(self).ahead(2) is Eq && old(self).ahead(3) is UpperIdent && !(old(
                self,
            ).ahead(4) is Of) && !(old(self).ahead(4) is Bar)) ==> (r matches Ok(d) && d.kind is Datatype),
        decreases old(self).fuel(), 39int,
    {
        let start = self.span();
        self.advance();
        let tyvars = self.parse_tyvar_params()?;
        let (name, _) = self.expect_name()?;
        self.expect(&TokenKind::Eq, "=")?;
        self.eat(&TokenKind::Bar);
        let mut constructors: Vec<ConDecl> = Vec::new();
        let mut end = start;
        loop
            invariant_except_break
                (old(self).ahead(1) is Ident && old(self).ahead(2) is Eq && old(self).ahead(3) is UpperIdent && !(old(
                    self,
                ).ahead(4) is Of) && !(old(self).ahead(4) is Bar)) ==> self.pos == old(self).pos + 3,
            invariant
                self.wf(),
                self.tokens@ == old(self).tokens@,
                self.depth == old(self).depth,
                old(self).pos < self.pos,
            decreases self.fuel(),
        {
            let con_start = self.span();
            let (con_name, _) = self.expect_upper_ident()?;
            let payload = if self.eat(&TokenKind::Of).is_some() {
                Some(self.parse_type_expr()?)
            } else {
                None
            };
            let con_span = match &payload {
                Some(ty) => con_start.merge(ty.span),
                None => con_start,
            };
            end = con_span;
            constructors.push(ConDecl { name: con_name, payload, span: con_span });
            if self.eat(&TokenKind::Bar).is_none() {
                break;
            }
        }
        let span = start.merge(end);
        Ok(Decl {
            kind: DeclKind::Datatype(DatatypeDecl { tyvars, name, constructors, span }),
            span,
        })
    }

    fn parse_type_alias_decl(&mut self) -> (r: Result<Decl, ParseError>)
        requires
            old(self).wf(),
            !(old(self).cur() is Eof),
        ensures
            Self::stepped(*old(self), *final(self), r is Ok),
            (old(self).depth < MAX_DEPTH && old(self).ahead(1) is Ident && old(self).ahead(2) is Eq && simple_type_tok(
                old(self).ahead(3),
            ) && ends_type(old(self).ahead(4))) ==> (r matches Ok(d) && d.kind is TypeAlias),
        decreases old(self).fuel(), 39int,
    {
        let start = self.span();
        self.advance();
        let tyvars = self.parse_tyvar_params()?;
        let (name, _) = self.expect_name()?;
        self.expect(&TokenKind::Eq, "=")?;
        let ty = self.parse_type_expr()?;
        let span = start.merge(ty.span);
        Ok(Decl { kind: DeclKind::TypeAlias(TypeAliasDecl { tyvars, name, ty, span }), span })
    }

    /// Declarations up to (not including) `In` or `End` (per `stop_at_in`),
    /// or the end of input.
    fn parse_decls_until(&mut self, stop_at_in: bool) -> (r: Result<Vec<Decl>, ParseError>)
        requires
            old(self).wf(),
        ensures
            Self::stepped(*old(self), *final(self), false),
            decls_stop(old(self).cur(), stop_at_in) ==> (r matches Ok(v) && v@.len() == 0 && final(self).pos == old(
                self,
            ).pos),
        decreases old(self).fuel(), 41int,
    {
        let mut decls: Vec<Decl> = Vec::new();
        loop
            invariant
                self.wf(),
                self.tokens@ == old(self).tokens@,
                self.depth == old(self).depth,
                decls_stop(old(self).cur(), stop_at_in) ==> self.pos == old(self).pos && decls@.len() == 0,
                old(self).pos <= self.pos,
            decreases self.fuel(),
        {
            let stop = match self.peek() {
                TokenKind::Eof => true,
                TokenKind::In => stop_at_in,
                TokenKind::End => !stop_at_in,
                _ => false,
            };
            if stop {
                return Ok(decls);
            }
            let d = self.parse_decl()?;
            decls.push(d);
        }
    }

    fn parse_local_decl(&mut self) -> (r: Result<Decl, ParseError>)
        requires
            old(self).wf(),
            !(old(self).cur() is Eof),
        ensures
            Self::stepped(*old(self), *final(self), r is Ok),
            (old(self).ahead(1) is In && old(self).ahead(2) is End) ==> (r matches Ok(d) && d.kind is Local),
        decreases old(self).fuel(), 39int,
    {
        let start = self.span();
        self.advance();
        let locals = self.parse_decls_until(true)?;
        self.expect(&TokenKind::In, "in")?;
        let body = self.parse_decls_until(false)?;
        let end_span = self.expect(&TokenKind::End, "end")?;
        let span = start.merge(end_span);
        Ok(Decl { kind: DeclKind::Local(locals, body), span })
    }

    fn parse_use_decl(&mut self) -> (r: Result<Decl, ParseError>)
        requires
            old(self).wf(),
            !(old(self).cur() is Eof),
        ensures
            Self::stepped(*old(self), *final(self), r is Ok),
            r is Ok <==> old(self).tokens@[old(self).pos + 1].kind@ is StringLit,
            old(self).tokens@[old(self).pos + 1].kind@ matches TokKind::StringLit(x) ==> (r matches Ok(d) && (
            d.kind matches DeclKind::Use(u) && u@ == x)),
        decreases old(self).fuel(), 39int,
    {
        let start = self.span();
        self.advance();
        if let TokenKind::StringLit(_) = self.peek() {
            let end = self.span();
            let path = self.take_string_lit();
            let span = start.merge(end);
            Ok(Decl { kind: DeclKind::Use(path), span })
        } else {
            Err(self.err("expected string literal after 'use'"))
        }
    }

    fn parse_signature_decl(&mut self) -> (r: Result<Decl, ParseError>)
        requires
            old(self).wf(),
            !(old(self).cur() is Eof),
        ensures
            Self::stepped(*old(self), *final(self), r is Ok),
            (old(self).ahead(1) is UpperIdent && old(self).ahead(2) is Eq && old(self).ahead(3) is Sig && old(self).ahead(
                4,
            ) is End) ==> (r matches Ok(d) && d.kind is Signature),
        decreases old(self).fuel(), 39int,
    {
        let start = self.span();
        self.advance();
        let (name, _) = self.expect_upper_ident()?;
        self.expect(&TokenKind::Eq, "=")?;
        self.expect(&TokenKind::Sig, "sig")?;
        let mut specs: Vec<SignatureSpec> = Vec::new();
        loop
            invariant
                self.wf(),
                self.tokens@ == old(self).tokens@,
                self.depth == old(self).depth,
                old(self).pos < self.pos,
                (old(self).ahead(1) is UpperIdent && old(self).ahead(2) is Eq && old(self).ahead(3) is Sig && old(
                    self,
                ).ahead(4) is End) ==> self.pos == old(self).pos + 4,
            decreases self.fuel(),
        {
            match self.peek() {
                TokenKind::End | TokenKind::Eof => {
                    break;
                },
                _ => {},
            }
            let s = self.parse_signature_spec()?;
            specs.push(s);
        }
        let end = self.expect(&TokenKind::End, "end")?;
        Ok(Decl {
            kind: DeclKind::Signature(SignatureDecl { name, specs, span: start.merge(end) }),
            span: start.merge(end),
        })
    }

    fn parse_signature_spec(&mut self) -> (r: Result<SignatureSpec, ParseError>)
        requires
            old(self).wf(),
        ensures
            Self::stepped(*old(self), *final(self), r is Ok),
            !(old(self).cur() is Val) ==> r is Err,
            (old(self).depth < MAX_DEPTH && old(self).cur() is Val && old(self).ahead(1) is Ident && old(self).ahead(2) is Colon
                && simple_type_tok(old(self).ahead(3)) && ends_type(old(self).ahead(4))) ==> r is Ok,
        decreases old(self).fuel(), 38int,
    {
        let start = self.span();
        match self.peek() {
            TokenKind::Val => {
                self.advance();
                let (name, _) = self.expect_ident()?;
                self.expect(&TokenKind::Colon, ":")?;
                let ty = self.parse_type_expr()?;
                let span = start.merge(ty.span);
                Ok(SignatureSpec::Val { name, ty, span })
            },
            _ => Err(self.err("expected signature spec (currently only val)")),
        }
    }

    fn parse_structure_decl(&mut self) -> (r: Result<Decl, ParseError>)
        requires
            old(self).wf(),
            !(old(self).cur() is Eof),
        ensures
            Self::stepped(*old(self), *final(self), r is Ok),
            (old(self).ahead(1) is UpperIdent && old(self).ahead(2) is Eq && old(self).ahead(3) is Struct && old(self).ahead(
                4,
            ) is End) ==> (r matches Ok(d) && d.kind is Structure),
        decreases old(self).fuel(), 39int,
    {
        let start = self.span();
        self.advance();
        let (name, _) = self.expect_upper_ident()?;
        let (signature, opaque) = if self.eat(&TokenKind::ColonGt).is_some() {
            (Some(self.expect_upper_ident()?.0), true)
        } else if self.eat(&TokenKind::Colon).is_some() {
            (Some(self.expect_upper_ident()?.0), false)
        } else {
            (None, false)
        };
        self.expect(&TokenKind::Eq, "=")?;
        self.expect(&TokenKind::Struct, "struct")?;
        let decls = self.parse_decls_until(false)?;
        let end = self.expect(&TokenKind::End, "end")?;
        Ok(Decl {
            kind: DeclKind::Structure { name, signature, opaque, decls },
            span: start.merge(end),
        })
    }

    fn parse_effect_decl(&mut self) -> (r: Result<Decl, ParseError>)
        requires
            old(self).wf(),
            !(old(self).cur() is Eof),
        ensures
            Self::stepped(*old(self), *final(self), r is Ok),
            !(old(self).tokens@[old(self).pos + 1].kind@ is UpperIdent) ==> r is Err,
            (old(self).tokens@[old(self).pos + 1].kind@ is UpperIdent && !(old(self).tokens@[old(self).pos
                + 2].kind@ is Of)) ==> (r matches Ok(d) && (d.kind matches DeclKind::Effect(_, p) && p is None)),
        decreases old(self).fuel(), 39int,
    {
        let start = self.span();
        self.advance();
        let (name, end) = self.expect_upper_ident()?;
        let payload = if self.eat(&TokenKind::Of).is_some() {
            Some(self.parse_type_expr()?)
        } else {
            None
        };
        let last = match &payload {
            Some(t) => t.span,
            None => end,
        };
        let span = start.merge(last);
        Ok(Decl { kind: DeclKind::Effect(name, payload), span })
    }

    fn parse_tyvar_params(&mut self) -> (r: Result<Vec<String>, ParseError>)
        requires
            old(self).wf(),
        ensures
            Self::stepped(*old(self), *final(self), false),
            old(self).cur() matches TokKind::TyVar(v) ==> (r matches Ok(vs) && vs@.len() == 1 && vs@[0]@ == v
                && final(self).pos == old(self).pos + 1),
            (!(old(self).cur() is TyVar) && !(old(self).cur() is LParen)) ==> (r matches Ok(vs) && vs@.len() == 0
                && final(self).pos == old(self).pos),
    {
        if let TokenKind::TyVar(_) = self.peek() {
            let v = self.take_symbol();
            return Ok(vec![v]);
        }
        if self.eat(&TokenKind::LParen).is_none() {
            return Ok(Vec::new());
        }
        let first = self.expect_tyvar()?;
        let mut vars = vec![first];
        while self.eat(&TokenKind::Comma).is_some()
            invariant
                old(self).cur() is LParen,
                self.wf(),
                self.tokens@ == old(self).tokens@,
                self.depth == old(self).depth,
                old(self).pos < self.pos,
            decreases self.fuel(),
        {
            let v = self.expect_tyvar()?;
            vars.push(v);
        }
        self.expect(&TokenKind::RParen, ")")?;
        Ok(vars)
    }
}

impl Parser {
    // ── Expressions (lowest to highest precedence) ───────────────────

    fn parse_expr(&mut self) -> (r: Result<Expr, ParseError>)
        requires
            old(self).wf(),
        ensures
            r matches Ok(e) ==> op_read_from(e, old(self).tokens@, old(self).pos as int, final(self).pos as int),
            Self::stepped(*old(self), *final(self), r is Ok),
            (simple_atom(old(self).cur()) && old(self).then_ends_expr() && old(self).depth < MAX_DEPTH) ==> (r is Ok
                && final(self).pos == old(self).pos + 1),
        decreases old(self).fuel(), 30int,
    {
        self.enter()?;
        let result = self.parse_expr_inner();
        self.leave();
        result
    }

    fn parse_expr_inner(&mut self) -> (r: Result<Expr, ParseError>)
        requires
            old(self).wf(),
        ensures
            r matches Ok(e) ==> op_read_from(e, old(self).tokens@, old(self).pos as int, final(self).pos as int),
            Self::stepped(*old(self), *final(self), r is Ok),
            (simple_atom(old(self).cur()) && old(self).then_ends_expr()) ==> (r is Ok && final(self).pos == old(self).pos + 1),
        decreases old(self).fuel(), 29int,
    {
        let expr = self.parse_orelse()?;
        if self.eat(&TokenKind::Colon).is_some() {
            let ty = self.parse_type_expr()?;
            let span = expr.span.merge(ty.span);
            Ok(Expr { kind: ExprKind::Ann(Box::new(expr), ty), span })
        } else {
            Ok(expr)
        }
    }

    fn parse_orelse(&mut self) -> (r: Result<Expr, ParseError>)
        requires
            old(self).wf(),
        ensures
            r matches Ok(e) ==> op_read_from(e, old(self).tokens@, old(self).pos as int, final(self).pos as int),
            Self::stepped(*old(self), *final(self), r is Ok),
            (simple_atom(old(self).cur()) && old(self).then_ends_expr()) ==> (r is Ok && final(self).pos == old(self).pos + 1),
        decreases old(self).fuel(), 28int,
    {
        let lhs = self.parse_andalso()?;
        let ghost at = self.pos as int;
        if self.eat(&TokenKind::Orelse).is_some() {
            proof { lemma_printed_op(BinOp::Orelse, 0); }
            assert(self.tokens@[at].kind@ == printed_op_token(BinOp::Orelse));
            let rhs = self.parse_orelse()?;
            let span = lhs.span.merge(rhs.span);
            Ok(Expr { kind: ExprKind::BinOp(BinOp::Orelse, Box::new(lhs), Box::new(rhs)), span })
        } else {
            Ok(lhs)
        }
    }

    fn parse_andalso(&mut self) -> (r: Result<Expr, ParseError>)
        requires
            old(self).wf(),
        ensures
            r matches Ok(e) ==> op_read_from(e, old(self).tokens@, old(self).pos as int, final(self).pos as int),
            Self::stepped(*old(self), *final(self), r is Ok),
            (simple_atom(old(self).cur()) && old(self).then_ends_expr()) ==> (r is Ok && final(self).pos == old(self).pos + 1),
        decreases old(self).fuel(), 27int,
    {
        let lhs = self.parse_comp()?;
        let ghost at = self.pos as int;
        if self.eat(&TokenKind::Andalso).is_some() {
            proof { lemma_printed_op(BinOp::Andalso, 0); }
            assert(self.tokens@[at].kind@ == printed_op_token(BinOp::Andalso));
            let rhs = self.parse_andalso()?;
            let span = lhs.span.merge(rhs.span);
            Ok(Expr { kind: ExprKind::BinOp(BinOp::Andalso, Box::new(lhs), Box::new(rhs)), span })
        } else {
            Ok(lhs)
        }
    }

    fn parse_comp(&mut self) -> (r: Result<Expr, ParseError>)
        requires
            old(self).wf(),
        ensures
            r matches Ok(e) ==> op_read_from(e, old(self).tokens@, old(self).pos as int, final(self).pos as int),
            Self::stepped(*old(self), *final(self), r is Ok),
            (simple_atom(old(self).cur()) && old(self).then_ends_expr()) ==> (r is Ok && final(self).pos == old(self).pos + 1),
        decreases old(self).fuel(), 26int,
    {
        let lhs = self.parse_cons()?;
        let ghost at = self.pos as int;
        let op = match self.peek() {
            TokenKind::Eq => Some(BinOp::Eq),
            TokenKind::Ne => Some(BinOp::Ne),
            TokenKind::Lt => Some(BinOp::LtInt),
            TokenKind::Gt => Some(BinOp::GtInt),
            TokenKind::Le => Some(BinOp::LeInt),
            TokenKind::Ge => Some(BinOp::GeInt),
            TokenKind::LtDot => Some(BinOp::LtFloat),
            TokenKind::GtDot => Some(BinOp::GtFloat),
            TokenKind::LeDot => Some(BinOp::LeFloat),
            TokenKind::GeDot => Some(BinOp::GeFloat),
            _ => None,
        };
        if let Some(op) = op {
            proof { lemma_printed_op(op, 0); }
            assert(self.tokens@[at].kind@ == printed_op_token(op));
            self.advance();
            let rhs = self.parse_cons()?;
            let span = lhs.span.merge(rhs.span);
            Ok(Expr { kind: ExprKind::BinOp(op, Box::new(lhs), Box::new(rhs)), span })
        } else {
            Ok(lhs)
        }
    }

    fn parse_cons(&mut self) -> (r: Result<Expr, ParseError>)
        requires
            old(self).wf(),
        ensures
            r matches Ok(e) ==> op_read_from(e, old(self).tokens@, old(self).pos as int, final(self).pos as int),
            Self::stepped(*old(self), *final(self), r is Ok),
            (simple_atom(old(self).cur()) && old(self).then_ends_expr()) ==> (r is Ok && final(self).pos == old(self).pos + 1),
        decreases old(self).fuel(), 25int,
    {
        let lhs = self.parse_add()?;
        if self.eat(&TokenKind::ColonColon).is_some() {
            let rhs = self.parse_cons()?;
            let span = lhs.span.merge(rhs.span);
            Ok(Expr { kind: ExprKind::Cons(Box::new(lhs), Box::new(rhs)), span })
        } else {
            Ok(lhs)
        }
    }

    fn parse_add(&mut self) -> (r: Result<Expr, ParseError>)
        requires
            old(self).wf(),
        ensures
            r matches Ok(e) ==> op_read_from(e, old(self).tokens@, old(self).pos as int, final(self).pos as int),
            Self::stepped(*old(self), *final(self), r is Ok),
            (simple_atom(old(self).cur()) && old(self).then_ends_expr()) ==> (r is Ok && final(self).pos == old(self).pos + 1),
        decreases old(self).fuel(), 24int,
    {
        let mut lhs = self.parse_mul()?;
        loop
            invariant
                self.wf(),
                self.tokens@ == old(self).tokens@,
                self.depth == old(self).depth,
                old(self).pos < self.pos,
                (simple_atom(old(self).cur()) && old(self).then_ends_expr()) ==> self.pos == old(self).pos + 1,
                op_read_from(lhs, old(self).tokens@, old(self).pos as int, self.pos as int),
            decreases self.fuel(),
        {
            let ghost at = self.pos as int;
            let op = match self.peek() {
                TokenKind::Plus => Some(BinOp::AddInt),
                TokenKind::Minus => Some(BinOp::SubInt),
                TokenKind::PlusDot => Some(BinOp::AddFloat),
                TokenKind::MinusDot => Some(BinOp::SubFloat),
                TokenKind::Caret => Some(BinOp::ConcatStr),
                _ => None,
            };
            match op {
                Some(op) => {
                    proof { lemma_printed_op(op, 0); }
                    assert(self.tokens@[at].kind@ == printed_op_token(op));
                    self.advance();
                    let rhs = self.parse_mul()?;
                    let span = lhs.span.merge(rhs.span);
                    lhs = Expr { kind: ExprKind::BinOp(op, Box::new(lhs), Box::new(rhs)), span };
                },
                None => {
                    return Ok(lhs);
                },
            }
        }
    }

    fn parse_mul(&mut self) -> (r: Result<Expr, ParseError>)
        requires
            old(self).wf(),
        ensures
            r matches Ok(e) ==> op_read_from(e, old(self).tokens@, old(self).pos as int, final(self).pos as int),
            Self::stepped(*old(self), *final(self), r is Ok),
            (simple_atom(old(self).cur()) && old(self).then_ends_expr()) ==> (r is Ok && final(self).pos == old(self).pos + 1),
        decreases old(self).fuel(), 23int,
    {
        let mut lhs = self.parse_unary()?;
        loop
            invariant
                self.wf(),
                self.tokens@ == old(self).tokens@,
                self.depth == old(self).depth,
                old(self).pos < self.pos,
                (simple_atom(old(self).cur()) && old(self).then_ends_expr()) ==> self.pos == old(self).pos + 1,
                op_read_from(lhs, old(self).tokens@, old(self).pos as int, self.pos as int),
            decreases self.fuel(),
        {
            let ghost at = self.pos as int;
            let op = match self.peek() {
                TokenKind::Star => Some(BinOp::MulInt),
                TokenKind::Slash => Some(BinOp::DivInt),
                TokenKind::Mod => Some(BinOp::ModInt),
                TokenKind::StarDot => Some(BinOp::MulFloat),
                TokenKind::SlashDot => Some(BinOp::DivFloat),
                _ => None,
            };
            match op {
                Some(op) => {
                    proof { lemma_printed_op(op, 0); }
                    assert(self.tokens@[at].kind@ == printed_op_token(op));
                    self.advance();
                    let rhs = self.parse_unary()?;
                    let span = lhs.span.merge(rhs.span);
                    lhs = Expr { kind: ExprKind::BinOp(op, Box::new(lhs), Box::new(rhs)), span };
                },
                None => {
                    return Ok(lhs);
                },
            }
        }
    }

    fn parse_unary(&mut self) -> (r: Result<Expr, ParseError>)
        requires
            old(self).wf(),
        ensures
            r matches Ok(e) ==> op_read_from(e, old(self).tokens@, old(self).pos as int, final(self).pos as int),
            Self::stepped(*old(self), *final(self), r is Ok),
            (simple_atom(old(self).cur()) && old(self).then_ends_expr()) ==> (r is Ok && final(self).pos == old(self).pos + 1),
        decreases old(self).fuel(), 22int,
    {
        match self.peek() {
            TokenKind::Tilde => {
                let start = self.span();
                self.advance();
                let operand = self.parse_unary()?;
                let span = start.merge(operand.span);
                Ok(Expr { kind: ExprKind::UnaryNeg(Box::new(operand)), span })
            },
            TokenKind::Not => {
                let start = self.span();
                self.advance();
                let operand = self.parse_unary()?;
                let span = start.merge(operand.span);
                Ok(Expr { kind: ExprKind::Not(Box::new(operand)), span })
            },
            _ => self.parse_app(),
        }
    }

    fn parse_app(&mut self) -> (r: Result<Expr, ParseError>)
        requires
            old(self).wf(),
        ensures
            r matches Ok(e) ==> op_read_from(e, old(self).tokens@, old(self).pos as int, final(self).pos as int),
            Self::stepped(*old(self), *final(self), r is Ok),
            (simple_atom(old(self).cur()) && old(self).then_ends_expr()) ==> (r is Ok && final(self).pos == old(self).pos + 1),
        decreases old(self).fuel(), 21int,
    {
        let mut lhs = self.parse_atom_expr()?;
        while self.can_start_app_arg()
            invariant
                self.wf(),
                self.tokens@ == old(self).tokens@,
                self.depth == old(self).depth,
                old(self).pos < self.pos,
                (simple_atom(old(self).cur()) && old(self).then_ends_expr()) ==> self.pos == old(self).pos + 1,
                op_read_from(lhs, old(self).tokens@, old(self).pos as int, self.pos as int),
            decreases self.fuel(),
        {
            let arg = self.parse_app_arg()?;
            let span = lhs.span.merge(arg.span);
            lhs = Expr { kind: ExprKind::App(Box::new(lhs), Box::new(arg)), span };
        }
        Ok(lhs)
    }

    /// An application argument: an atom, or `~` or `not` applied to an atom.
    fn parse_app_arg(&mut self) -> (r: Result<Expr, ParseError>)
        requires
            old(self).wf(),
        ensures
            Self::stepped(*old(self), *final(self), r is Ok),
            (simple_atom(old(self).cur()) && old(self).then_ends_expr()) ==> (r is Ok && final(self).pos == old(self).pos + 1),
        decreases old(self).fuel(), 20int,
    {
        let start = self.span();
        match self.peek() {
            TokenKind::Tilde => {
                self.advance();
                let operand = self.parse_atom_expr()?;
                let span = start.merge(operand.span);
                Ok(Expr { kind: ExprKind::UnaryNeg(Box::new(operand)), span })
            },
            TokenKind::Not => {
                self.advance();
                let operand = self.parse_atom_expr()?;
                let span = start.merge(operand.span);
                Ok(Expr { kind: ExprKind::Not(Box::new(operand)), span })
            },
            _ => self.parse_atom_expr(),
        }
    }

    /// Further comma-separated expressions after those already in `elems`.
    fn parse_expr_tail(&mut self, elems: Vec<Expr>) -> (r: Result<Vec<Expr>, ParseError>)
        requires
            old(self).wf(),
        ensures
            Self::stepped(*old(self), *final(self), false),
            !(old(self).cur() is Comma) ==> (r matches Ok(v) && v@ == elems@ && final(self).pos == old(self).pos),
            r matches Ok(v) ==> v@.len() >= elems@.len() && v@.subrange(0, elems@.len() as int) == elems@,
        decreases old(self).fuel(), 18int,
    {
        let ghost e0 = elems@;
        let mut elems = elems;
        while self.eat(&TokenKind::Comma).is_some()
            invariant
                self.wf(),
                self.tokens@ == old(self).tokens@,
                self.depth == old(self).depth,
                old(self).pos <= self.pos,
                elems@.len() >= e0.len(),
                elems@.subrange(0, e0.len() as int) == e0,
                !(old(self).cur() is Comma) ==> self.pos == old(self).pos && elems@ == e0,
            decreases self.fuel(),
        {
            let e = self.parse_expr()?;
            elems.push(e);
        }
        Ok(elems)
    }

    fn parse_atom_expr(&mut self) -> (r: Result<Expr, ParseError>)
        requires
            old(self).wf(),
        ensures
            r matches Ok(e) ==> op_read_from(e, old(self).tokens@, old(self).pos as int, final(self).pos as int),
            Self::stepped(*old(self), *final(self), r is Ok),
            old(self).cur() matches TokKind::IntLit(n) ==> (r matches Ok(e) && e.kind == ExprKind::IntLit(n)),
            old(self).cur() matches TokKind::CharLit(c) ==> (r matches Ok(e) && e.kind == ExprKind::CharLit(c)),
            old(self).cur() is True ==> (r matches Ok(e) && e.kind == ExprKind::BoolLit(true)),
            old(self).cur() is False ==> (r matches Ok(e) && e.kind == ExprKind::BoolLit(false)),
            old(self).cur() matches TokKind::Ident(x) ==> (r matches Ok(e) && (e.kind matches ExprKind::Var(v) && v@ == x)),
            !starts_atom_expr(old(self).cur()) ==> r is Err,
            simple_atom(old(self).cur()) ==> (r is Ok && final(self).pos == old(self).pos + 1),
            (simple_atom(old(self).cur()) && old(self).then_ends_expr()) ==> (r is Ok && final(self).pos == old(self).pos + 1),
            (old(self).cur() is LParen && old(self).ahead(1) is RParen) ==> (r matches Ok(e) && e.kind is Unit && final(self).pos == old(self).pos + 2),
            (old(self).cur() is LBracket && old(self).ahead(1) is RBracket) ==> (r matches Ok(e) && (e.kind matches ExprKind::List(
                v,
            ) && v@.len() == 0) && final(self).pos == old(self).pos + 2),
            (old(self).depth < MAX_DEPTH && old(self).cur() is LParen && simple_atom(old(self).ahead(1)) && old(self).ahead(
                2,
            ) is RParen) ==> (r matches Ok(e) && e.kind is Paren && final(self).pos == old(self).pos + 3),
            (old(self).depth < MAX_DEPTH && old(self).cur() is LParen && simple_atom(old(self).ahead(1)) && old(self).ahead(
                2,
            ) is Comma && simple_atom(old(self).ahead(3)) && old(self).ahead(4) is RParen) ==> (r matches Ok(e) && (
            e.kind matches ExprKind::Tuple(v) && v@.len() == 2) && final(self).pos == old(self).pos + 5),
            (old(self).depth < MAX_DEPTH && old(self).cur() is LBracket && simple_atom(old(self).ahead(1)) && old(
                self,
            ).ahead(2) is RBracket) ==> (r matches Ok(e) && (e.kind matches ExprKind::List(v) && v@.len() == 1) && final(self).pos == old(self).pos + 3),
        decreases old(self).fuel(), 19int,
    {
        let start = self.span();
        match self.peek() {
            TokenKind::IntLit(n) => {
                let n = *n;
                self.advance();
                Ok(Expr { kind: ExprKind::IntLit(n), span: start })
            },
            TokenKind::FloatLit(f) => {
                let f = clone_string(f);
                self.advance();
                Ok(Expr { kind: ExprKind::FloatLit(f), span: start })
            },
            TokenKind::StringLit(_) => {
                let s = self.take_string_lit();
                Ok(Expr { kind: ExprKind::StringLit(s), span: start })
            },
            TokenKind::CharLit(c) => {
                let c = *c;
                self.advance();
                Ok(Expr { kind: ExprKind::CharLit(c), span: start })
            },
            TokenKind::True => {
                self.advance();
                Ok(Expr { kind: ExprKind::BoolLit(true), span: start })
            },
            TokenKind::False => {
                self.advance();
                Ok(Expr { kind: ExprKind::BoolLit(false), span: start })
            },
            TokenKind::Ident(_) => {
                let name = self.take_symbol();
                Ok(Expr { kind: ExprKind::Var(name), span: start })
            },
            TokenKind::UpperIdent(_) => {
                if self.can_start_qualified_path() {
                    let (name, is_constructor, span) = self.parse_qualified_symbol()?;
                    let kind = if is_constructor {
                        ExprKind::Constructor(name)
                    } else {
                        ExprKind::Var(name)
                    };
                    Ok(Expr { kind, span })
                } else {
                    let name = self.take_symbol();
                    Ok(Expr { kind: ExprKind::Constructor(name), span: start })
                }
            },
            TokenKind::LParen => {
                self.advance();
                if self.eat(&TokenKind::RParen).is_some() {
                    let close = self.tokens[self.pos - 1].span;
                    return Ok(Expr { kind: ExprKind::Unit, span: start.merge(close) });
                }
                let first = self.parse_expr()?;
                if self.eat(&TokenKind::Comma).is_some() {
                    let second = self.parse_expr()?;
                    let elems = self.parse_expr_tail(vec![first, second])?;
                    let end = self.expect(&TokenKind::RParen, ")")?;
                    let span = start.merge(end);
                    Ok(Expr { kind: ExprKind::Tuple(elems), span })
                } else {
                    let end = self.expect(&TokenKind::RParen, ")")?;
                    let span = start.merge(end);
                    Ok(Expr { kind: ExprKind::Paren(Box::new(first)), span })
                }
            },
            TokenKind::LBracket => {
                self.advance();
                if self.eat(&TokenKind::RBracket).is_some() {
                    let close = self.tokens[self.pos - 1].span;
                    return Ok(Expr { kind: ExprKind::List(Vec::new()), span: start.merge(close) });
                }
                let first = self.parse_expr()?;
                let elems = self.parse_expr_tail(vec![first])?;
                let end = self.expect(&TokenKind::RBracket, "]")?;
                let span = start.merge(end);
                Ok(Expr { kind: ExprKind::List(elems), span })
            },
            TokenKind::If => self.parse_if_expr(),
            TokenKind::Let => self.parse_let_expr(),
            TokenKind::Case => self.parse_case_expr(),
            TokenKind::Fn => self.parse_fn_expr(),
            TokenKind::Handle => self.parse_handle_expr(),
            TokenKind::Perform => self.parse_perform_expr(),
            TokenKind::Resume => self.parse_resume_expr(),
            _ => Err(self.err("expected expression")),
        }
    }

    fn parse_handle_expr(&mut self) -> (r: Result<Expr, ParseError>)
        requires
            old(self).wf(),
            !(old(self).cur() is Eof),
        ensures
            r matches Ok(e) ==> !(e.kind is BinOp),
            Self::stepped(*old(self), *final(self), r is Ok),
            (old(self).depth < MAX_DEPTH && simple_atom(old(self).ahead(1)) && old(self).ahead(2) is With && old(
                self,
            ).ahead(3) is Return && (old(self).ahead(4) is Ident || old(self).ahead(4) is Underscore) && old(self).ahead(
                5,
            ) is Arrow && simple_atom(old(self).ahead(6)) && ends_expr(old(self).ahead(7)) && !(old(self).ahead(7) is Bar)) ==> (r matches Ok(e) && e.kind is Handle),
        decreases old(self).fuel(), 18int,
    {
        let start = self.span();
        self.advance();
        let body = self.parse_expr()?;
        self.expect(&TokenKind::With, "with")?;
        self.expect(&TokenKind::Return, "return")?;
        let (return_var, _) = self.expect_ident_or_wildcard()?;
        self.expect(&TokenKind::Arrow, "=>")?;
        let return_body = self.parse_expr()?;
        let mut end_span = return_body.span;
        let mut handlers: Vec<EffectHandler> = Vec::new();
        while self.eat(&TokenKind::Bar).is_some()
            invariant
                self.wf(),
                self.tokens@ == old(self).tokens@,
                self.depth == old(self).depth,
                old(self).pos < self.pos,
                (old(self).depth < MAX_DEPTH && simple_atom(old(self).ahead(1)) && old(self).ahead(2) is With && old(
                self,
            ).ahead(3) is Return && (old(self).ahead(4) is Ident || old(self).ahead(4) is Underscore) && old(self).ahead(
                5,
            ) is Arrow && simple_atom(old(self).ahead(6)) && ends_expr(old(self).ahead(7)) && !(old(self).ahead(7) is Bar)) ==> self.pos == old(self).pos + 7,
            decreases self.fuel(),
        {
            let hstart = self.span();
            let (effect_name, _) = self.expect_upper_ident()?;
            let (payload_var, _) = self.expect_ident_or_wildcard()?;
            let (cont_var, _) = self.expect_ident_or_wildcard()?;
            self.expect(&TokenKind::Arrow, "=>")?;
            let hbody = self.parse_expr()?;
            let hspan = hstart.merge(hbody.span);
            end_span = hspan;
            handlers.push(EffectHandler { effect_name, payload_var, cont_var, body: hbody, span: hspan });
        }
        let span = start.merge(end_span);
        Ok(Expr {
            kind: ExprKind::Handle {
                body: Box::new(body),
                return_var,
                return_body: Box::new(return_body),
                handlers,
            },
            span,
        })
    }

    fn parse_perform_expr(&mut self) -> (r: Result<Expr, ParseError>)
        requires
            old(self).wf(),
            !(old(self).cur() is Eof),
        ensures
            r matches Ok(e) ==> !(e.kind is BinOp),
            Self::stepped(*old(self), *final(self), r is Ok),
            !(old(self).ahead(1) is UpperIdent) ==> r is Err,
            (old(self).ahead(1) is UpperIdent && simple_atom(old(self).ahead(2))) ==> (r matches Ok(e) && e.kind is Perform),
        decreases old(self).fuel(), 18int,
    {
        let start = self.span();
        self.advance();
        let (name, _) = self.expect_upper_ident()?;
        let arg = self.parse_atom_expr()?;
        let span = start.merge(arg.span);
        Ok(Expr { kind: ExprKind::Perform(name, Box::new(arg)), span })
    }

    fn parse_resume_expr(&mut self) -> (r: Result<Expr, ParseError>)
        requires
            old(self).wf(),
            !(old(self).cur() is Eof),
        ensures
            r matches Ok(e) ==> !(e.kind is BinOp),
            Self::stepped(*old(self), *final(self), r is Ok),
            !starts_atom_expr(old(self).ahead(1)) ==> r is Err,
            (simple_atom(old(self).ahead(1)) && simple_atom(old(self).ahead(2))) ==> (r matches Ok(e) && e.kind is Resume),
        decreases old(self).fuel(), 18int,
    {
        let start = self.span();
        self.advance();
        let cont = self.parse_atom_expr()?;
        let arg = self.parse_atom_expr()?;
        let span = start.merge(arg.span);
        Ok(Expr { kind: ExprKind::Resume(Box::new(cont), Box::new(arg)), span })
    }

    fn parse_if_expr(&mut self) -> (r: Result<Expr, ParseError>)
        requires
            old(self).wf(),
            !(old(self).cur() is Eof),
        ensures
            r matches Ok(e) ==> !(e.kind is BinOp),
            Self::stepped(*old(self), *final(self), r is Ok),
            (old(self).depth < MAX_DEPTH && simple_atom(old(self).ahead(1)) && old(self).ahead(2) is Then && simple_atom(
                old(self).ahead(3),
            ) && old(self).ahead(4) is Else && simple_atom(old(self).ahead(5)) && ends_expr(old(self).ahead(6)))
                ==> (r matches Ok(e) && e.kind is If),
        decreases old(self).fuel(), 18int,
    {
        let start = self.span();
        self.advance();
        let cond = self.parse_expr()?;
        self.expect(&TokenKind::Then, "then")?;
        let then_br = self.parse_expr()?;
        self.expect(&TokenKind::Else, "else")?;
        let else_br = self.parse_expr()?;
        let span = start.merge(else_br.span);
        Ok(Expr { kind: ExprKind::If(Box::new(cond), Box::new(then_br), Box::new(else_br)), span })
    }

    fn parse_let_expr(&mut self) -> (r: Result<Expr, ParseError>)
        requires
            old(self).wf(),
            !(old(self).cur() is Eof),
        ensures
            r matches Ok(e) ==> !(e.kind is BinOp),
            Self::stepped(*old(self), *final(self), r is Ok),
            (old(self).depth < MAX_DEPTH && old(self).ahead(1) is In && simple_atom(old(self).ahead(2)) && old(
                self,
            ).ahead(3) is End) ==> (r matches Ok(e) && e.kind is Let),
        decreases old(self).fuel(), 18int,
    {
        let start = self.span();
        self.advance();
        let decls = self.parse_decls_until(true)?;
        self.expect(&TokenKind::In, "in")?;
        let body = self.parse_expr()?;
        let end = self.expect(&TokenKind::End, "end")?;
        let span = start.merge(end);
        Ok(Expr { kind: ExprKind::Let(decls, Box::new(body)), span })
    }

    fn parse_case_expr(&mut self) -> (r: Result<Expr, ParseError>)
        requires
            old(self).wf(),
            !(old(self).cur() is Eof),
        ensures
            r matches Ok(e) ==> !(e.kind is BinOp),
            Self::stepped(*old(self), *final(self), r is Ok),
            (old(self).depth < MAX_DEPTH && simple_atom(old(self).ahead(1)) && old(self).ahead(2) is Of && simple_pat_tok(
                old(self).ahead(3),
            ) && old(self).ahead(4) is Arrow && simple_atom(old(self).ahead(5)) && ends_expr(old(self).ahead(6))
                && !(old(self).ahead(6) is Bar)) ==> (r matches Ok(e) && e.kind is Case),
        decreases old(self).fuel(), 18int,
    {
        let start = self.span();
        self.advance();
        let scrutinee = self.parse_expr()?;
        self.expect(&TokenKind::Of, "of")?;
        self.eat(&TokenKind::Bar);
        let mut branches: Vec<(Pat, Expr)> = Vec::new();
        let mut last_span = start;
        loop
            invariant_except_break
                (old(self).depth < MAX_DEPTH && simple_atom(old(self).ahead(1)) && old(self).ahead(2) is Of && simple_pat_tok(
                    old(self).ahead(3),
                ) && old(self).ahead(4) is Arrow && simple_atom(old(self).ahead(5)) && ends_expr(old(self).ahead(6))
                    && !(old(self).ahead(6) is Bar)) ==> self.pos == old(self).pos + 3,
            invariant
                self.wf(),
                self.tokens@ == old(self).tokens@,
                self.depth == old(self).depth,
                old(self).pos < self.pos,
            decreases self.fuel(),
        {
            let pat = self.parse_pat()?;
            self.expect(&TokenKind::Arrow, "=>")?;
            let body = self.parse_expr()?;
            last_span = body.span;
            branches.push((pat, body));
            if self.eat(&TokenKind::Bar).is_none() {
                break;
            }
        }
        let span = start.merge(last_span);
        Ok(Expr { kind: ExprKind::Case(Box::new(scrutinee), branches), span })
    }

    fn parse_fn_expr(&mut self) -> (r: Result<Expr, ParseError>)
        requires
            old(self).wf(),
            !(old(self).cur() is Eof),
        ensures
            r matches Ok(e) ==> !(e.kind is BinOp),
            Self::stepped(*old(self), *final(self), r is Ok),
            (old(self).depth < MAX_DEPTH && simple_pat_tok(old(self).ahead(1)) && old(self).ahead(2) is Arrow
                && simple_atom(old(self).ahead(3)) && ends_expr(old(self).ahead(4))) ==> (r matches Ok(e) && e.kind is Fn),
        decreases old(self).fuel(), 18int,
    {
        let start = self.span();
        self.advance();
        let pat = self.parse_pat()?;
        self.expect(&TokenKind::Arrow, "=>")?;
        let body = self.parse_expr()?;
        let span = start.merge(body.span);
        Ok(Expr { kind: ExprKind::Fn(pat, Box::new(body)), span })
    }
}

impl Parser {
    // ── Patterns ─────────────────────────────────────────────────────

    fn parse_pat(&mut self) -> (r: Result<Pat, ParseError>)
        requires
            old(self).wf(),
        ensures
            Self::stepped(*old(self), *final(self), r is Ok),
            (simple_pat_tok(old(self).cur()) && old(self).then_ends_pat() && old(self).depth < MAX_DEPTH) ==> (r is Ok
                && final(self).pos == old(self).pos + 1),
        decreases old(self).fuel(), 15int,
    {
        self.enter()?;
        let result = self.parse_pat_inner_dispatch();
        self.leave();
        result
    }

    fn parse_pat_inner_dispatch(&mut self) -> (r: Result<Pat, ParseError>)
        requires
            old(self).wf(),
        ensures
            Self::stepped(*old(self), *final(self), r is Ok),
            (simple_pat_tok(old(self).cur()) && old(self).then_ends_pat()) ==> (r is Ok && final(self).pos == old(self).pos + 1),
        decreases old(self).fuel(), 14int,
    {
        let pat = self.parse_as_pat()?;
        if self.eat(&TokenKind::Colon).is_some() {
            let ty = self.parse_type_expr()?;
            let span = pat.span.merge(ty.span);
            Ok(Pat { kind: PatKind::Ann(Box::new(pat), ty), span })
        } else {
            Ok(pat)
        }
    }

    fn parse_as_pat(&mut self) -> (r: Result<Pat, ParseError>)
        requires
            old(self).wf(),
        ensures
            Self::stepped(*old(self), *final(self), r is Ok),
            (simple_pat_tok(old(self).cur()) && old(self).then_ends_pat()) ==> (r is Ok && final(self).pos == old(self).pos + 1),
        decreases old(self).fuel(), 13int,
    {
        let as_next = match self.peek() {
            TokenKind::Ident(_) => self.tokens.len() - self.pos > 1 && match self.tokens[self.pos
                + 1].kind {
                TokenKind::As => true,
                _ => false,
            },
            _ => false,
        };
        if as_next {
            let start = self.span();
            let name = self.take_symbol();
            self.advance();
            let inner = self.parse_as_pat()?;
            let span = start.merge(inner.span);
            return Ok(Pat { kind: PatKind::As(name, Box::new(inner)), span });
        }
        self.parse_cons_pat()
    }

    fn parse_cons_pat(&mut self) -> (r: Result<Pat, ParseError>)
        requires
            old(self).wf(),
        ensures
            Self::stepped(*old(self), *final(self), r is Ok),
            (simple_pat_tok(old(self).cur()) && old(self).then_ends_pat()) ==> (r is Ok && final(self).pos == old(self).pos + 1),
        decreases old(self).fuel(), 12int,
    {
        let lhs = self.parse_app_pat()?;
        if self.eat(&TokenKind::ColonColon).is_some() {
            let rhs = self.parse_cons_pat()?;
            let span = lhs.span.merge(rhs.span);
            Ok(Pat { kind: PatKind::Cons(Box::new(lhs), Box::new(rhs)), span })
        } else {
            Ok(lhs)
        }
    }

    fn parse_app_pat(&mut self) -> (r: Result<Pat, ParseError>)
        requires
            old(self).wf(),
        ensures
            Self::stepped(*old(self), *final(self), r is Ok),
            (simple_pat_tok(old(self).cur()) && old(self).then_ends_pat()) ==> (r is Ok && final(self).pos == old(self).pos + 1),
        decreases old(self).fuel(), 11int,
    {
        if let TokenKind::UpperIdent(_) = self.peek() {
            let start = self.span();
            let name = self.take_symbol();
            if self.can_start_atom_pat() {
                let payload = self.parse_atom_pat()?;
                let span = start.merge(payload.span);
                Ok(Pat { kind: PatKind::Constructor(name, Some(Box::new(payload))), span })
            } else {
                Ok(Pat { kind: PatKind::Constructor(name, None), span: start })
            }
        } else {
            self.parse_atom_pat()
        }
    }

    /// Further comma-separated patterns after those already in `elems`.
    fn parse_pat_tail(&mut self, elems: Vec<Pat>) -> (r: Result<Vec<Pat>, ParseError>)
        requires
            old(self).wf(),
        ensures
            Self::stepped(*old(self), *final(self), false),
            !(old(self).cur() is Comma) ==> (r matches Ok(v) && v@ == elems@ && final(self).pos == old(self).pos),
            r matches Ok(v) ==> v@.len() >= elems@.len() && v@.subrange(0, elems@.len() as int) == elems@,
        decreases old(self).fuel(), 9int,
    {
        let ghost e0 = elems@;
        let mut elems = elems;
        while self.eat(&TokenKind::Comma).is_some()
            invariant
                self.wf(),
                self.tokens@ == old(self).tokens@,
                self.depth == old(self).depth,
                old(self).pos <= self.pos,
                elems@.len() >= e0.len(),
                elems@.subrange(0, e0.len() as int) == e0,
                !(old(self).cur() is Comma) ==> self.pos == old(self).pos && elems@ == e0,
            decreases self.fuel(),
        {
            let p = self.parse_pat()?;
            elems.push(p);
        }
        Ok(elems)
    }

    fn parse_atom_pat(&mut self) -> (r: Result<Pat, ParseError>)
        requires
            old(self).wf(),
        ensures
            Self::stepped(*old(self), *final(self), r is Ok),
            simple_pat_tok(old(self).cur()) ==> (r is Ok && final(self).pos == old(self).pos + 1),
            old(self).cur() is Underscore ==> (r matches Ok(p) && p.kind == PatKind::Wildcard),
            old(self).cur() matches TokKind::IntLit(n) ==> (r matches Ok(p) && p.kind == PatKind::IntLit(n)),
            old(self).cur() matches TokKind::Ident(x) ==> (r matches Ok(p) && (p.kind matches PatKind::Var(v) && v@ == x)),
            old(self).cur() matches TokKind::UpperIdent(x) ==> (r matches Ok(p) && (p.kind matches PatKind::Constructor(
                v,
                None,
            ) && v@ == x)),
            !starts_atom_pat(old(self).cur()) ==> r is Err,
            (simple_pat_tok(old(self).cur()) && old(self).then_ends_pat()) ==> (r is Ok && final(self).pos == old(self).pos + 1),
            (old(self).cur() is LParen && old(self).ahead(1) is RParen) ==> (r matches Ok(p) && p.kind is Unit && final(self).pos == old(self).pos + 2),
            (old(self).cur() is LBracket && old(self).ahead(1) is RBracket) ==> (r matches Ok(p) && (p.kind matches PatKind::List(
                v,
            ) && v@.len() == 0) && final(self).pos == old(self).pos + 2),
            (old(self).depth < MAX_DEPTH && old(self).cur() is LParen && simple_pat_tok(old(self).ahead(1)) && old(
                self,
            ).ahead(2) is RParen) ==> (r matches Ok(p) && p.kind is Paren && final(self).pos == old(self).pos + 3),
            (old(self).depth < MAX_DEPTH && old(self).cur() is LParen && simple_pat_tok(old(self).ahead(1)) && old(
                self,
            ).ahead(2) is Comma && simple_pat_tok(old(self).ahead(3)) && old(self).ahead(4) is RParen) ==> (r matches Ok(
                p,
            ) && (p.kind matches PatKind::Tuple(v) && v@.len() == 2) && final(self).pos == old(self).pos + 5),
            (old(self).depth < MAX_DEPTH && old(self).cur() is LBracket && simple_pat_tok(old(self).ahead(1)) && old(
                self,
            ).ahead(2) is RBracket) ==> (r matches Ok(p) && (p.kind matches PatKind::List(v) && v@.len() == 1)
                && final(self).pos == old(self).pos + 3),
        decreases old(self).fuel(), 10int,
    {
        let start = self.span();
        match self.peek() {
            TokenKind::Underscore => {
                self.advance();
                Ok(Pat { kind: PatKind::Wildcard, span: start })
            },
            TokenKind::Ident(_) => {
                let name = self.take_symbol();
                Ok(Pat { kind: PatKind::Var(name), span: start })
            },
            TokenKind::UpperIdent(_) => {
                let name = self.take_symbol();
                Ok(Pat { kind: PatKind::Constructor(name, None), span: start })
            },
            TokenKind::IntLit(n) => {
                let n = *n;
                self.advance();
                Ok(Pat { kind: PatKind::IntLit(n), span: start })
            },
            TokenKind::FloatLit(f) => {
                let f = clone_string(f);
                self.advance();
                Ok(Pat { kind: PatKind::FloatLit(f), span: start })
            },
            TokenKind::StringLit(_) => {
                let s = self.take_string_lit();
                Ok(Pat { kind: PatKind::StringLit(s), span: start })
            },
            TokenKind::CharLit(c) => {
                let c = *c;
                self.advance();
                Ok(Pat { kind: PatKind::CharLit(c), span: start })
            },
            TokenKind::True => {
                self.advance();
                Ok(Pat { kind: PatKind::BoolLit(true), span: start })
            },
            TokenKind::False => {
                self.advance();
                Ok(Pat { kind: PatKind::BoolLit(false), span: start })
            },
            TokenKind::Tilde => {
                self.advance();
                match self.peek() {
                    TokenKind::IntLit(n) => {
                        let n = *n;
                        let end = self.span();
                        self.advance();
                        let neg = if n == i64::MIN { n } else { -n };
                        Ok(Pat { kind: PatKind::IntLit(neg), span: start.merge(end) })
                    },
                    TokenKind::FloatLit(f) => {
                        let mut text = to_string("-");
                        push_str(&mut text, f.as_str());
                        let end = self.span();
                        self.advance();
                        Ok(Pat { kind: PatKind::FloatLit(text), span: start.merge(end) })
                    },
                    _ => Err(self.err("expected number after ~ in pattern")),
                }
            },
            TokenKind::LParen => {
                self.advance();
                if self.eat(&TokenKind::RParen).is_some() {
                    let close = self.tokens[self.pos - 1].span;
                    return Ok(Pat { kind: PatKind::Unit, span: start.merge(close) });
                }
                let first = self.parse_pat()?;
                if self.eat(&TokenKind::Comma).is_some() {
                    let second = self.parse_pat()?;
                    let elems = self.parse_pat_tail(vec![first, second])?;
                    let end = self.expect(&TokenKind::RParen, ")")?;
                    let span = start.merge(end);
                    Ok(Pat { kind: PatKind::Tuple(elems), span })
                } else {
                    let end = self.expect(&TokenKind::RParen, ")")?;
                    let span = start.merge(end);
                    Ok(Pat { kind: PatKind::Paren(Box::new(first)), span })
                }
            },
            TokenKind::LBracket => {
                self.advance();
                if self.eat(&TokenKind::RBracket).is_some() {
                    let close = self.tokens[self.pos - 1].span;
                    return Ok(Pat { kind: PatKind::List(Vec::new()), span: start.merge(close) });
                }
                let first = self.parse_pat()?;
                let elems = self.parse_pat_tail(vec![first])?;
                let end = self.expect(&TokenKind::RBracket, "]")?;
                let span = start.merge(end);
                Ok(Pat { kind: PatKind::List(elems), span })
            },
            _ => Err(self.err("expected pattern")),
        }
    }

    // ── Type expressions ─────────────────────────────────────────────

    fn parse_type_expr(&mut self) -> (r: Result<TypeExpr, ParseError>)
        requires
            old(self).wf(),
        ensures
            Self::stepped(*old(self), *final(self), r is Ok),
            (simple_type_tok(old(self).cur()) && old(self).then_ends_type() && old(self).depth < MAX_DEPTH) ==> (r is Ok
                && final(self).pos == old(self).pos + 1),
            (simple_type_tok(old(self).cur()) && old(self).ahead(1) is ThinArrow && simple_type_tok(old(self).ahead(2))
                && ends_type(old(self).ahead(3)) && old(self).depth < MAX_DEPTH) ==> (r matches Ok(t) && t.kind is Arrow
                && final(self).pos == old(self).pos + 3),
        decreases old(self).fuel(), 5int,
    {
        self.enter()?;
        let result = self.parse_arrow_type();
        self.leave();
        result
    }

    fn parse_arrow_type(&mut self) -> (r: Result<TypeExpr, ParseError>)
        requires
            old(self).wf(),
        ensures
            Self::stepped(*old(self), *final(self), r is Ok),
            (simple_type_tok(old(self).cur()) && old(self).then_ends_type()) ==> (r is Ok && final(self).pos == old(self).pos + 1),
            (simple_type_tok(old(self).cur()) && old(self).ahead(1) is ThinArrow && simple_type_tok(old(self).ahead(2))
                && ends_type(old(self).ahead(3))) ==> (r matches Ok(t) && t.kind is Arrow && final(self).pos == old(self).pos
                + 3),
        decreases old(self).fuel(), 4int,
    {
        let lhs = self.parse_tuple_type()?;
        if self.eat(&TokenKind::ThinArrow).is_some() {
            let rhs = self.parse_arrow_type()?;
            let span = lhs.span.merge(rhs.span);
            Ok(TypeExpr { kind: TypeExprKind::Arrow(Box::new(lhs), Box::new(rhs)), span })
        } else {
            Ok(lhs)
        }
    }

    fn parse_tuple_type(&mut self) -> (r: Result<TypeExpr, ParseError>)
        requires
            old(self).wf(),
        ensures
            Self::stepped(*old(self), *final(self), r is Ok),
            (simple_type_tok(old(self).cur()) && old(self).then_ends_type()) ==> (r is Ok && final(self).pos == old(self).pos + 1),
            (simple_type_tok(old(self).cur()) && old(self).ahead(1) is ThinArrow) ==> (r is Ok && final(self).pos == old(self).pos
                + 1),
        decreases old(self).fuel(), 3int,
    {
        let first = self.parse_app_type()?;
        if let TokenKind::Star = self.peek() {
            let first_span = first.span;
            let mut last_span = first.span;
            let mut elems = vec![first];
            while self.eat(&TokenKind::Star).is_some()
            invariant
                !(simple_type_tok(old(self).cur()) && old(self).then_ends_type()),
                !(simple_type_tok(old(self).cur()) && old(self).ahead(1) is ThinArrow),
                self.wf(),
                self.tokens@ == old(self).tokens@,
                self.depth == old(self).depth,
                old(self).pos < self.pos,
            decreases self.fuel(),
            {
                let t = self.parse_app_type()?;
                last_span = t.span;
                elems.push(t);
            }
            let span = first_span.merge(last_span);
            Ok(TypeExpr { kind: TypeExprKind::Tuple(elems), span })
        } else {
            Ok(first)
        }
    }

    fn parse_app_type(&mut self) -> (r: Result<TypeExpr, ParseError>)
        requires
            old(self).wf(),
        ensures
            Self::stepped(*old(self), *final(self), r is Ok),
            (simple_type_tok(old(self).cur()) && old(self).then_ends_type()) ==> (r is Ok && final(self).pos == old(self).pos + 1),
            (simple_type_tok(old(self).cur()) && !(old(self).ahead(1) is Ident) && !(old(self).ahead(1) is UpperIdent)) ==> (r is Ok
                && final(self).pos == old(self).pos + 1),
        decreases old(self).fuel(), 2int,
    {
        let mut ty = self.parse_atom_type()?;
        while self.at_name()
            invariant
                self.wf(),
                self.tokens@ == old(self).tokens@,
                self.depth == old(self).depth,
                old(self).pos < self.pos,
                (simple_type_tok(old(self).cur()) && old(self).then_ends_type()) ==> self.pos == old(self).pos + 1,
                (simple_type_tok(old(self).cur()) && !(old(self).ahead(1) is Ident) && !(old(self).ahead(1) is UpperIdent)) ==> self.pos
                    == old(self).pos + 1,
            decreases self.fuel(),
        {
            let end = self.span();
            let name = self.take_symbol();
            let base_span = ty.span;
            let args = match ty.kind {
                TypeExprKind::Tuple(elems) => elems,
                kind => vec![TypeExpr { kind, span: base_span }],
            };
            let span = base_span.merge(end);
            ty = TypeExpr { kind: TypeExprKind::App(name, args), span };
        }
        Ok(ty)
    }

    /// Further comma-separated types after those already in `elems`.
    fn parse_type_tail(&mut self, elems: Vec<TypeExpr>) -> (r: Result<Vec<TypeExpr>, ParseError>)
        requires
            old(self).wf(),
        ensures
            Self::stepped(*old(self), *final(self), false),
            !(old(self).cur() is Comma) ==> (r matches Ok(v) && v@ == elems@ && final(self).pos == old(self).pos),
            r matches Ok(v) ==> v@.len() >= elems@.len() && v@.subrange(0, elems@.len() as int) == elems@,
        decreases old(self).fuel(), 0int,
    {
        let ghost e0 = elems@;
        let mut elems = elems;
        while self.eat(&TokenKind::Comma).is_some()
            invariant
                self.wf(),
                self.tokens@ == old(self).tokens@,
                self.depth == old(self).depth,
                old(self).pos <= self.pos,
                elems@.len() >= e0.len(),
                elems@.subrange(0, e0.len() as int) == e0,
                !(old(self).cur() is Comma) ==> self.pos == old(self).pos && elems@ == e0,
            decreases self.fuel(),
        {
            let t = self.parse_type_expr()?;
            elems.push(t);
        }
        Ok(elems)
    }

    fn parse_atom_type(&mut self) -> (r: Result<TypeExpr, ParseError>)
        requires
            old(self).wf(),
        ensures
            Self::stepped(*old(self), *final(self), r is Ok),
            old(self).cur() matches TokKind::TyVar(x) ==> (r matches Ok(t) && (t.kind matches TypeExprKind::Var(v) && v@ == x)),
            old(self).cur() matches TokKind::Ident(x) ==> (r matches Ok(t) && (t.kind matches TypeExprKind::Named(v) && v@ == x)),
            old(self).cur() matches TokKind::UpperIdent(x) ==> (r matches Ok(t) && (t.kind matches TypeExprKind::Named(v) && v@
                == x)),
            !simple_type_tok(old(self).cur()) && !(old(self).cur() is LParen) ==> r is Err,
            simple_type_tok(old(self).cur()) ==> (r is Ok && final(self).pos == old(self).pos + 1),
        decreases old(self).fuel(), 1int,
    {
        let start = self.span();
        match self.peek() {
            TokenKind::TyVar(_) => {
                let name = self.take_symbol();
                Ok(TypeExpr { kind: TypeExprKind::Var(name), span: start })
            },
            TokenKind::Ident(_) | TokenKind::UpperIdent(_) => {
                let name = self.take_symbol();
                Ok(TypeExpr { kind: TypeExprKind::Named(name), span: start })
            },
            TokenKind::LParen => {
                self.advance();
                let first = self.parse_type_expr()?;
                if self.eat(&TokenKind::Comma).is_some() {
                    let second = self.parse_type_expr()?;
                    let elems = self.parse_type_tail(vec![first, second])?;
                    let end = self.expect(&TokenKind::RParen, ")")?;
                    let span = start.merge(end);
                    Ok(TypeExpr { kind: TypeExprKind::Tuple(elems), span })
                } else {
                    let end = self.expect(&TokenKind::RParen, ")")?;
                    let span = start.merge(end);
                    Ok(TypeExpr { kind: TypeExprKind::Paren(Box::new(first)), span })
                }
            },
            _ => Err(self.err("expected type")),
        }
    }
}

} // verus!

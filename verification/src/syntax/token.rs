//! Tokens produced by the lexer.
use vstd::prelude::*;
use crate::syntax::span::Span;
use crate::text::clone_string;

verus! {

/// A lexical token with its source span.
#[derive(Debug, Clone, PartialEq)]
pub struct Token {
    pub kind: TokenKind,
    pub span: Span,
}

/// The kinds of tokens. A float literal keeps its decimal text.
#[derive(Debug, Clone, PartialEq)]
pub enum TokenKind {
    IntLit(i64),
    FloatLit(String),
    WordLit(u64),
    StringLit(String),
    CharLit(char),
    Ident(String),
    UpperIdent(String),
    TyVar(String),
    Val,
    Fun,
    Fn,
    Let,
    In,
    End,
    If,
    Then,
    Else,
    Case,
    Of,
    Datatype,
    Type,
    Local,
    And,
    Rec,
    Use,
    Structure,
    Struct,
    Signature,
    Sig,
    True,
    False,
    Not,
    Andalso,
    Orelse,
    Mod,
    As,
    Effect,
    Handle,
    With,
    Perform,
    Resume,
    Return,
    Plus,
    Minus,
    Star,
    Slash,
    PlusDot,
    MinusDot,
    StarDot,
    SlashDot,
    Caret,
    Lt,
    Gt,
    Le,
    Ge,
    LtDot,
    GtDot,
    LeDot,
    GeDot,
    Eq,
    Ne,
    Tilde,
    ColonColon,
    Arrow,
    ThinArrow,
    Bar,
    PipeGt,
    ColonGt,
    LParen,
    RParen,
    LBracket,
    RBracket,
    Comma,
    Dot,
    Colon,
    Semicolon,
    Underscore,
    Hash,
    Eof,
}

/// The mathematical value of a token kind: strings become character sequences.
pub enum TokKind {
    IntLit(i64),
    FloatLit(Seq<char>),
    WordLit(u64),
    StringLit(Seq<char>),
    CharLit(char),
    Ident(Seq<char>),
    UpperIdent(Seq<char>),
    TyVar(Seq<char>),
    Val,
    Fun,
    Fn,
    Let,
    In,
    End,
    If,
    Then,
    Else,
    Case,
    Of,
    Datatype,
    Type,
    Local,
    And,
    Rec,
    Use,
    Structure,
    Struct,
    Signature,
    Sig,
    True,
    False,
    Not,
    Andalso,
    Orelse,
    Mod,
    As,
    Effect,
    Handle,
    With,
    Perform,
    Resume,
    Return,
    Plus,
    Minus,
    Star,
    Slash,
    PlusDot,
    MinusDot,
    StarDot,
    SlashDot,
    Caret,
    Lt,
    Gt,
    Le,
    Ge,
    LtDot,
    GtDot,
    LeDot,
    GeDot,
    Eq,
    Ne,
    Tilde,
    ColonColon,
    Arrow,
    ThinArrow,
    Bar,
    PipeGt,
    ColonGt,
    LParen,
    RParen,
    LBracket,
    RBracket,
    Comma,
    Dot,
    Colon,
    Semicolon,
    Underscore,
    Hash,
    Eof,
}

impl View for TokenKind {
    type V = TokKind;

    open spec fn view(&self) -> TokKind {
        match self {
            TokenKind::IntLit(x) => TokKind::IntLit(*x),
            TokenKind::FloatLit(x) => TokKind::FloatLit(x@),
            TokenKind::WordLit(x) => TokKind::WordLit(*x),
            TokenKind::StringLit(x) => TokKind::StringLit(x@),
            TokenKind::CharLit(x) => TokKind::CharLit(*x),
            TokenKind::Ident(x) => TokKind::Ident(x@),
            TokenKind::UpperIdent(x) => TokKind::UpperIdent(x@),
            TokenKind::TyVar(x) => TokKind::TyVar(x@),
            TokenKind::Val => TokKind::Val,
            TokenKind::Fun => TokKind::Fun,
            TokenKind::Fn => TokKind::Fn,
            TokenKind::Let => TokKind::Let,
            TokenKind::In => TokKind::In,
            TokenKind::End => TokKind::End,
            TokenKind::If => TokKind::If,
            TokenKind::Then => TokKind::Then,
            TokenKind::Else => TokKind::Else,
            TokenKind::Case => TokKind::Case,
            TokenKind::Of => TokKind::Of,
            TokenKind::Datatype => TokKind::Datatype,
            TokenKind::Type => TokKind::Type,
            TokenKind::Local => TokKind::Local,
            TokenKind::And => TokKind::And,
            TokenKind::Rec => TokKind::Rec,
            TokenKind::Use => TokKind::Use,
            TokenKind::Structure => TokKind::Structure,
            TokenKind::Struct => TokKind::Struct,
            TokenKind::Signature => TokKind::Signature,
            TokenKind::Sig => TokKind::Sig,
            TokenKind::True => TokKind::True,
            TokenKind::False => TokKind::False,
            TokenKind::Not => TokKind::Not,
            TokenKind::Andalso => TokKind::Andalso,
            TokenKind::Orelse => TokKind::Orelse,
            TokenKind::Mod => TokKind::Mod,
            TokenKind::As => TokKind::As,
            TokenKind::Effect => TokKind::Effect,
            TokenKind::Handle => TokKind::Handle,
            TokenKind::With => TokKind::With,
            TokenKind::Perform => TokKind::Perform,
            TokenKind::Resume => TokKind::Resume,
            TokenKind::Return => TokKind::Return,
            TokenKind::Plus => TokKind::Plus,
            TokenKind::Minus => TokKind::Minus,
            TokenKind::Star => TokKind::Star,
            TokenKind::Slash => TokKind::Slash,
            TokenKind::PlusDot => TokKind::PlusDot,
            TokenKind::MinusDot => TokKind::MinusDot,
            TokenKind::StarDot => TokKind::StarDot,
            TokenKind::SlashDot => TokKind::SlashDot,
            TokenKind::Caret => TokKind::Caret,
            TokenKind::Lt => TokKind::Lt,
            TokenKind::Gt => TokKind::Gt,
            TokenKind::Le => TokKind::Le,
            TokenKind::Ge => TokKind::Ge,
            TokenKind::LtDot => TokKind::LtDot,
            TokenKind::GtDot => TokKind::GtDot,
            TokenKind::LeDot => TokKind::LeDot,
            TokenKind::GeDot => TokKind::GeDot,
            TokenKind::Eq => TokKind::Eq,
            TokenKind::Ne => TokKind::Ne,
            TokenKind::Tilde => TokKind::Tilde,
            TokenKind::ColonColon => TokKind::ColonColon,
            TokenKind::Arrow => TokKind::Arrow,
            TokenKind::ThinArrow => TokKind::ThinArrow,
            TokenKind::Bar => TokKind::Bar,
            TokenKind::PipeGt => TokKind::PipeGt,
            TokenKind::ColonGt => TokKind::ColonGt,
            TokenKind::LParen => TokKind::LParen,
            TokenKind::RParen => TokKind::RParen,
            TokenKind::LBracket => TokKind::LBracket,
            TokenKind::RBracket => TokKind::RBracket,
            TokenKind::Comma => TokKind::Comma,
            TokenKind::Dot => TokKind::Dot,
            TokenKind::Colon => TokKind::Colon,
            TokenKind::Semicolon => TokKind::Semicolon,
            TokenKind::Underscore => TokKind::Underscore,
            TokenKind::Hash => TokKind::Hash,
            TokenKind::Eof => TokKind::Eof,
        }
    }
}

/// The mathematical value of a token.
pub struct Tok {
    pub kind: TokKind,
    pub span: Span,
}

impl View for Token {
    type V = Tok;

    open spec fn view(&self) -> Tok {
        Tok { kind: self.kind@, span: self.span }
    }
}

/// The sequence of mathematical token values.
pub open spec fn toks_view(v: Seq<Token>) -> Seq<Tok> {
    v.map_values(|t: Token| t@)
}

impl TokenKind {
    /// A copy with the same value.
    pub fn copy(&self) -> (r: TokenKind)
        ensures
            r@ == self@,
    {
        match self {
            TokenKind::IntLit(x) => TokenKind::IntLit(*x),
            TokenKind::FloatLit(x) => TokenKind::FloatLit(clone_string(x)),
            TokenKind::WordLit(x) => TokenKind::WordLit(*x),
            TokenKind::StringLit(x) => TokenKind::StringLit(clone_string(x)),
            TokenKind::CharLit(x) => TokenKind::CharLit(*x),
            TokenKind::Ident(x) => TokenKind::Ident(clone_string(x)),
            TokenKind::UpperIdent(x) => TokenKind::UpperIdent(clone_string(x)),
            TokenKind::TyVar(x) => TokenKind::TyVar(clone_string(x)),
            TokenKind::Val => TokenKind::Val,
            TokenKind::Fun => TokenKind::Fun,
            TokenKind::Fn => TokenKind::Fn,
            TokenKind::Let => TokenKind::Let,
            TokenKind::In => TokenKind::In,
            TokenKind::End => TokenKind::End,
            TokenKind::If => TokenKind::If,
            TokenKind::Then => TokenKind::Then,
            TokenKind::Else => TokenKind::Else,
            TokenKind::Case => TokenKind::Case,
            TokenKind::Of => TokenKind::Of,
            TokenKind::Datatype => TokenKind::Datatype,
            TokenKind::Type => TokenKind::Type,
            TokenKind::Local => TokenKind::Local,
            TokenKind::And => TokenKind::And,
            TokenKind::Rec => TokenKind::Rec,
            TokenKind::Use => TokenKind::Use,
            TokenKind::Structure => TokenKind::Structure,
            TokenKind::Struct => TokenKind::Struct,
            TokenKind::Signature => TokenKind::Signature,
            TokenKind::Sig => TokenKind::Sig,
            TokenKind::True => TokenKind::True,
            TokenKind::False => TokenKind::False,
            TokenKind::Not => TokenKind::Not,
            TokenKind::Andalso => TokenKind::Andalso,
            TokenKind::Orelse => TokenKind::Orelse,
            TokenKind::Mod => TokenKind::Mod,
            TokenKind::As => TokenKind::As,
            TokenKind::Effect => TokenKind::Effect,
            TokenKind::Handle => TokenKind::Handle,
            TokenKind::With => TokenKind::With,
            TokenKind::Perform => TokenKind::Perform,
            TokenKind::Resume => TokenKind::Resume,
            TokenKind::Return => TokenKind::Return,
            TokenKind::Plus => TokenKind::Plus,
            TokenKind::Minus => TokenKind::Minus,
            TokenKind::Star => TokenKind::Star,
            TokenKind::Slash => TokenKind::Slash,
            TokenKind::PlusDot => TokenKind::PlusDot,
            TokenKind::MinusDot => TokenKind::MinusDot,
            TokenKind::StarDot => TokenKind::StarDot,
            TokenKind::SlashDot => TokenKind::SlashDot,
            TokenKind::Caret => TokenKind::Caret,
            TokenKind::Lt => TokenKind::Lt,
            TokenKind::Gt => TokenKind::Gt,
            TokenKind::Le => TokenKind::Le,
            TokenKind::Ge => TokenKind::Ge,
            TokenKind::LtDot => TokenKind::LtDot,
            TokenKind::GtDot => TokenKind::GtDot,
            TokenKind::LeDot => TokenKind::LeDot,
            TokenKind::GeDot => TokenKind::GeDot,
            TokenKind::Eq => TokenKind::Eq,
            TokenKind::Ne => TokenKind::Ne,
            TokenKind::Tilde => TokenKind::Tilde,
            TokenKind::ColonColon => TokenKind::ColonColon,
            TokenKind::Arrow => TokenKind::Arrow,
            TokenKind::ThinArrow => TokenKind::ThinArrow,
            TokenKind::Bar => TokenKind::Bar,
            TokenKind::PipeGt => TokenKind::PipeGt,
            TokenKind::ColonGt => TokenKind::ColonGt,
            TokenKind::LParen => TokenKind::LParen,
            TokenKind::RParen => TokenKind::RParen,
            TokenKind::LBracket => TokenKind::LBracket,
            TokenKind::RBracket => TokenKind::RBracket,
            TokenKind::Comma => TokenKind::Comma,
            TokenKind::Dot => TokenKind::Dot,
            TokenKind::Colon => TokenKind::Colon,
            TokenKind::Semicolon => TokenKind::Semicolon,
            TokenKind::Underscore => TokenKind::Underscore,
            TokenKind::Hash => TokenKind::Hash,
            TokenKind::Eof => TokenKind::Eof,
        }
    }

    /// True when the two kinds are the same variant (payloads ignored).
    pub fn same_variant(&self, other: &TokenKind) -> (r: bool)
        ensures
            r == same_variant(self@, other@),
    {
        match (self, other) {
            (TokenKind::IntLit(_), TokenKind::IntLit(_)) => true,
            (TokenKind::FloatLit(_), TokenKind::FloatLit(_)) => true,
            (TokenKind::WordLit(_), TokenKind::WordLit(_)) => true,
            (TokenKind::StringLit(_), TokenKind::StringLit(_)) => true,
            (TokenKind::CharLit(_), TokenKind::CharLit(_)) => true,
            (TokenKind::Ident(_), TokenKind::Ident(_)) => true,
            (TokenKind::UpperIdent(_), TokenKind::UpperIdent(_)) => true,
            (TokenKind::TyVar(_), TokenKind::TyVar(_)) => true,
            (TokenKind::Val, TokenKind::Val) => true,
            (TokenKind::Fun, TokenKind::Fun) => true,
            (TokenKind::Fn, TokenKind::Fn) => true,
            (TokenKind::Let, TokenKind::Let) => true,
            (TokenKind::In, TokenKind::In) => true,
            (TokenKind::End, TokenKind::End) => true,
            (TokenKind::If, TokenKind::If) => true,
            (TokenKind::Then, TokenKind::Then) => true,
            (TokenKind::Else, TokenKind::Else) => true,
            (TokenKind::Case, TokenKind::Case) => true,
            (TokenKind::Of, TokenKind::Of) => true,
            (TokenKind::Datatype, TokenKind::Datatype) => true,
            (TokenKind::Type, TokenKind::Type) => true,
            (TokenKind::Local, TokenKind::Local) => true,
            (TokenKind::And, TokenKind::And) => true,
            (TokenKind::Rec, TokenKind::Rec) => true,
            (TokenKind::Use, TokenKind::Use) => true,
            (TokenKind::Structure, TokenKind::Structure) => true,
            (TokenKind::Struct, TokenKind::Struct) => true,
            (TokenKind::Signature, TokenKind::Signature) => true,
            (TokenKind::Sig, TokenKind::Sig) => true,
            (TokenKind::True, TokenKind::True) => true,
            (TokenKind::False, TokenKind::False) => true,
            (TokenKind::Not, TokenKind::Not) => true,
            (TokenKind::Andalso, TokenKind::Andalso) => true,
            (TokenKind::Orelse, TokenKind::Orelse) => true,
            (TokenKind::Mod, TokenKind::Mod) => true,
            (TokenKind::As, TokenKind::As) => true,
            (TokenKind::Effect, TokenKind::Effect) => true,
            (TokenKind::Handle, TokenKind::Handle) => true,
            (TokenKind::With, TokenKind::With) => true,
            (TokenKind::Perform, TokenKind::Perform) => true,
            (TokenKind::Resume, TokenKind::Resume) => true,
            (TokenKind::Return, TokenKind::Return) => true,
            (TokenKind::Plus, TokenKind::Plus) => true,
            (TokenKind::Minus, TokenKind::Minus) => true,
            (TokenKind::Star, TokenKind::Star) => true,
            (TokenKind::Slash, TokenKind::Slash) => true,
            (TokenKind::PlusDot, TokenKind::PlusDot) => true,
            (TokenKind::MinusDot, TokenKind::MinusDot) => true,
            (TokenKind::StarDot, TokenKind::StarDot) => true,
            (TokenKind::SlashDot, TokenKind::SlashDot) => true,
            (TokenKind::Caret, TokenKind::Caret) => true,
            (TokenKind::Lt, TokenKind::Lt) => true,
            (TokenKind::Gt, TokenKind::Gt) => true,
            (TokenKind::Le, TokenKind::Le) => true,
            (TokenKind::Ge, TokenKind::Ge) => true,
            (TokenKind::LtDot, TokenKind::LtDot) => true,
            (TokenKind::GtDot, TokenKind::GtDot) => true,
            (TokenKind::LeDot, TokenKind::LeDot) => true,
            (TokenKind::GeDot, TokenKind::GeDot) => true,
            (TokenKind::Eq, TokenKind::Eq) => true,
            (TokenKind::Ne, TokenKind::Ne) => true,
            (TokenKind::Tilde, TokenKind::Tilde) => true,
            (TokenKind::ColonColon, TokenKind::ColonColon) => true,
            (TokenKind::Arrow, TokenKind::Arrow) => true,
            (TokenKind::ThinArrow, TokenKind::ThinArrow) => true,
            (TokenKind::Bar, TokenKind::Bar) => true,
            (TokenKind::PipeGt, TokenKind::PipeGt) => true,
            (TokenKind::ColonGt, TokenKind::ColonGt) => true,
            (TokenKind::LParen, TokenKind::LParen) => true,
            (TokenKind::RParen, TokenKind::RParen) => true,
            (TokenKind::LBracket, TokenKind::LBracket) => true,
            (TokenKind::RBracket, TokenKind::RBracket) => true,
            (TokenKind::Comma, TokenKind::Comma) => true,
            (TokenKind::Dot, TokenKind::Dot) => true,
            (TokenKind::Colon, TokenKind::Colon) => true,
            (TokenKind::Semicolon, TokenKind::Semicolon) => true,
            (TokenKind::Underscore, TokenKind::Underscore) => true,
            (TokenKind::Hash, TokenKind::Hash) => true,
            (TokenKind::Eof, TokenKind::Eof) => true,
            _ => false,
        }
    }
}

/// Two token kinds agree in their variant.
pub open spec fn same_variant(a: TokKind, b: TokKind) -> bool {
    match (a, b) {
        (TokKind::IntLit(_), TokKind::IntLit(_)) => true,
        (TokKind::FloatLit(_), TokKind::FloatLit(_)) => true,
        (TokKind::WordLit(_), TokKind::WordLit(_)) => true,
        (TokKind::StringLit(_), TokKind::StringLit(_)) => true,
        (TokKind::CharLit(_), TokKind::CharLit(_)) => true,
        (TokKind::Ident(_), TokKind::Ident(_)) => true,
        (TokKind::UpperIdent(_), TokKind::UpperIdent(_)) => true,
        (TokKind::TyVar(_), TokKind::TyVar(_)) => true,
        (TokKind::Val, TokKind::Val) => true,
        (TokKind::Fun, TokKind::Fun) => true,
        (TokKind::Fn, TokKind::Fn) => true,
        (TokKind::Let, TokKind::Let) => true,
        (TokKind::In, TokKind::In) => true,
        (TokKind::End, TokKind::End) => true,
        (TokKind::If, TokKind::If) => true,
        (TokKind::Then, TokKind::Then) => true,
        (TokKind::Else, TokKind::Else) => true,
        (TokKind::Case, TokKind::Case) => true,
        (TokKind::Of, TokKind::Of) => true,
        (TokKind::Datatype, TokKind::Datatype) => true,
        (TokKind::Type, TokKind::Type) => true,
        (TokKind::Local, TokKind::Local) => true,
        (TokKind::And, TokKind::And) => true,
        (TokKind::Rec, TokKind::Rec) => true,
        (TokKind::Use, TokKind::Use) => true,
        (TokKind::Structure, TokKind::Structure) => true,
        (TokKind::Struct, TokKind::Struct) => true,
        (TokKind::Signature, TokKind::Signature) => true,
        (TokKind::Sig, TokKind::Sig) => true,
        (TokKind::True, TokKind::True) => true,
        (TokKind::False, TokKind::False) => true,
        (TokKind::Not, TokKind::Not) => true,
        (TokKind::Andalso, TokKind::Andalso) => true,
        (TokKind::Orelse, TokKind::Orelse) => true,
        (TokKind::Mod, TokKind::Mod) => true,
        (TokKind::As, TokKind::As) => true,
        (TokKind::Effect, TokKind::Effect) => true,
        (TokKind::Handle, TokKind::Handle) => true,
        (TokKind::With, TokKind::With) => true,
        (TokKind::Perform, TokKind::Perform) => true,
        (TokKind::Resume, TokKind::Resume) => true,
        (TokKind::Return, TokKind::Return) => true,
        (TokKind::Plus, TokKind::Plus) => true,
        (TokKind::Minus, TokKind::Minus) => true,
        (TokKind::Star, TokKind::Star) => true,
        (TokKind::Slash, TokKind::Slash) => true,
        (TokKind::PlusDot, TokKind::PlusDot) => true,
        (TokKind::MinusDot, TokKind::MinusDot) => true,
        (TokKind::StarDot, TokKind::StarDot) => true,
        (TokKind::SlashDot, TokKind::SlashDot) => true,
        (TokKind::Caret, TokKind::Caret) => true,
        (TokKind::Lt, TokKind::Lt) => true,
        (TokKind::Gt, TokKind::Gt) => true,
        (TokKind::Le, TokKind::Le) => true,
        (TokKind::Ge, TokKind::Ge) => true,
        (TokKind::LtDot, TokKind::LtDot) => true,
        (TokKind::GtDot, TokKind::GtDot) => true,
        (TokKind::LeDot, TokKind::LeDot) => true,
        (TokKind::GeDot, TokKind::GeDot) => true,
        (TokKind::Eq, TokKind::Eq) => true,
        (TokKind::Ne, TokKind::Ne) => true,
        (TokKind::Tilde, TokKind::Tilde) => true,
        (TokKind::ColonColon, TokKind::ColonColon) => true,
        (TokKind::Arrow, TokKind::Arrow) => true,
        (TokKind::ThinArrow, TokKind::ThinArrow) => true,
        (TokKind::Bar, TokKind::Bar) => true,
        (TokKind::PipeGt, TokKind::PipeGt) => true,
        (TokKind::ColonGt, TokKind::ColonGt) => true,
        (TokKind::LParen, TokKind::LParen) => true,
        (TokKind::RParen, TokKind::RParen) => true,
        (TokKind::LBracket, TokKind::LBracket) => true,
        (TokKind::RBracket, TokKind::RBracket) => true,
        (TokKind::Comma, TokKind::Comma) => true,
        (TokKind::Dot, TokKind::Dot) => true,
        (TokKind::Colon, TokKind::Colon) => true,
        (TokKind::Semicolon, TokKind::Semicolon) => true,
        (TokKind::Underscore, TokKind::Underscore) => true,
        (TokKind::Hash, TokKind::Hash) => true,
        (TokKind::Eof, TokKind::Eof) => true,
        _ => false,
    }
}

/// The keyword spelled by `s`, if any.
pub open spec fn spec_keyword(s: Seq<char>) -> Option<TokKind> {
    if s == "val"@ {
        Some(TokKind::Val)
    } else if s == "fun"@ {
        Some(TokKind::Fun)
    } else if s == "fn"@ {
        Some(TokKind::Fn)
    } else if s == "let"@ {
        Some(TokKind::Let)
    } else if s == "in"@ {
        Some(TokKind::In)
    } else if s == "end"@ {
        Some(TokKind::End)
    } else if s == "if"@ {
        Some(TokKind::If)
    } else if s == "then"@ {
        Some(TokKind::Then)
    } else if s == "else"@ {
        Some(TokKind::Else)
    } else if s == "case"@ {
        Some(TokKind::Case)
    } else if s == "of"@ {
        Some(TokKind::Of)
    } else if s == "datatype"@ {
        Some(TokKind::Datatype)
    } else if s == "type"@ {
        Some(TokKind::Type)
    } else if s == "local"@ {
        Some(TokKind::Local)
    } else if s == "and"@ {
        Some(TokKind::And)
    } else if s == "rec"@ {
        Some(TokKind::Rec)
    } else if s == "use"@ {
        Some(TokKind::Use)
    } else if s == "structure"@ {
        Some(TokKind::Structure)
    } else if s == "struct"@ {
        Some(TokKind::Struct)
    } else if s == "signature"@ {
        Some(TokKind::Signature)
    } else if s == "sig"@ {
        Some(TokKind::Sig)
    } else if s == "true"@ {
        Some(TokKind::True)
    } else if s == "false"@ {
        Some(TokKind::False)
    } else if s == "not"@ {
        Some(TokKind::Not)
    } else if s == "andalso"@ {
        Some(TokKind::Andalso)
    } else if s == "orelse"@ {
        Some(TokKind::Orelse)
    } else if s == "mod"@ {
        Some(TokKind::Mod)
    } else if s == "as"@ {
        Some(TokKind::As)
    } else if s == "effect"@ {
        Some(TokKind::Effect)
    } else if s == "handle"@ {
        Some(TokKind::Handle)
    } else if s == "with"@ {
        Some(TokKind::With)
    } else if s == "perform"@ {
        Some(TokKind::Perform)
    } else if s == "resume"@ {
        Some(TokKind::Resume)
    } else if s == "return"@ {
        Some(TokKind::Return)
    } else {
        None
    }
}

impl TokenKind {
    /// Maps a keyword spelling to its token kind.
    pub fn keyword_from_str(s: &str) -> (r: Option<TokenKind>)
        ensures
            r is Some <==> spec_keyword(s@) is Some,
            r matches Some(k) ==> spec_keyword(s@) == Some(k@),
    {
        if crate::text::str_eq(s, "val") {
            return Some(TokenKind::Val);
        }
        if crate::text::str_eq(s, "fun") {
            return Some(TokenKind::Fun);
        }
        if crate::text::str_eq(s, "fn") {
            return Some(TokenKind::Fn);
        }
        if crate::text::str_eq(s, "let") {
            return Some(TokenKind::Let);
        }
        if crate::text::str_eq(s, "in") {
            return Some(TokenKind::In);
        }
        if crate::text::str_eq(s, "end") {
            return Some(TokenKind::End);
        }
        if crate::text::str_eq(s, "if") {
            return Some(TokenKind::If);
        }
        if crate::text::str_eq(s, "then") {
            return Some(TokenKind::Then);
        }
        if crate::text::str_eq(s, "else") {
            return Some(TokenKind::Else);
        }
        if crate::text::str_eq(s, "case") {
            return Some(TokenKind::Case);
        }
        if crate::text::str_eq(s, "of") {
            return Some(TokenKind::Of);
        }
        if crate::text::str_eq(s, "datatype") {
            return Some(TokenKind::Datatype);
        }
        if crate::text::str_eq(s, "type") {
            return Some(TokenKind::Type);
        }
        if crate::text::str_eq(s, "local") {
            return Some(TokenKind::Local);
        }
        if crate::text::str_eq(s, "and") {
            return Some(TokenKind::And);
        }
        if crate::text::str_eq(s, "rec") {
            return Some(TokenKind::Rec);
        }
        if crate::text::str_eq(s, "use") {
            return Some(TokenKind::Use);
        }
        if crate::text::str_eq(s, "structure") {
            return Some(TokenKind::Structure);
        }
        if crate::text::str_eq(s, "struct") {
            return Some(TokenKind::Struct);
        }
        if crate::text::str_eq(s, "signature") {
            return Some(TokenKind::Signature);
        }
        if crate::text::str_eq(s, "sig") {
            return Some(TokenKind::Sig);
        }
        if crate::text::str_eq(s, "true") {
            return Some(TokenKind::True);
        }
        if crate::text::str_eq(s, "false") {
            return Some(TokenKind::False);
        }
        if crate::text::str_eq(s, "not") {
            return Some(TokenKind::Not);
        }
        if crate::text::str_eq(s, "andalso") {
            return Some(TokenKind::Andalso);
        }
        if crate::text::str_eq(s, "orelse") {
            return Some(TokenKind::Orelse);
        }
        if crate::text::str_eq(s, "mod") {
            return Some(TokenKind::Mod);
        }
        if crate::text::str_eq(s, "as") {
            return Some(TokenKind::As);
        }
        if crate::text::str_eq(s, "effect") {
            return Some(TokenKind::Effect);
        }
        if crate::text::str_eq(s, "handle") {
            return Some(TokenKind::Handle);
        }
        if crate::text::str_eq(s, "with") {
            return Some(TokenKind::With);
        }
        if crate::text::str_eq(s, "perform") {
            return Some(TokenKind::Perform);
        }
        if crate::text::str_eq(s, "resume") {
            return Some(TokenKind::Resume);
        }
        if crate::text::str_eq(s, "return") {
            return Some(TokenKind::Return);
        }
        None
    }
}

} // verus!

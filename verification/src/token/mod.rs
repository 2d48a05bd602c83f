//! Tokens: what the lexer hands to the parser.

use vstd::prelude::*;
use crate::source_file::{low_u32, low32, Location};
use crate::text::{decimal, opt_text, push_decimal, push_text, str_eq};

pub mod lexer;

verus! {

/// The kinds of token. Identifiers, atoms and literals carry their text.
#[derive(Debug)]
pub enum TokenKind {
    // Lexer signals
    Eof,
    Error(Option<String>),
    // Identifiers
    Ident(String),
    Atom(String),
    // Literals
    IntegerLit(u64),
    FloatLit(String, Option<String>),
    StringLit(String),
    CharLit(String),
    // Symbols and keywords
    LParen,
    RParen,
    LBrace,
    RBrace,
    LBracket,
    RBracket,
    Semicolon,
    Comma,
    Period,
    Colon,
    Assign,
    Condition,
    Arrow,
    QuestionMark,
    Bang,
    At,
    Compound,
    Range,
    Plus,
    Minus,
    Star,
    Slash,
    Eq,
    Ne,
    Gt,
    Ge,
    Lt,
    Le,
    Not,
    LogAnd,
    LogOr,
    XOr,
    LShift,
    RShift,
    True,
    False,
    Let,
    And,
    ValOf,
    ResultIs,
    Return,
    Break,
    Next,
    If,
    Else,
    Unless,
    While,
    For,
    Until,
    SwitchOn,
    Match,
    Every,
    Case,
    Default,
    Into,
    Do,
    To,
    By,
    Of,
    Be,
    Section,
    Require,
    Global,
    Manifest,
    Static,
    Mod,
    Abs,
    Type,
}

/// The mathematical value of a token kind: texts as character sequences.
/// Two kinds are equal as tokens when their views are equal.
pub ghost enum TokenKindView {
    Eof,
    Error(Option<Seq<char>>),
    Ident(Seq<char>),
    Atom(Seq<char>),
    IntegerLit(u64),
    FloatLit(Seq<char>, Option<Seq<char>>),
    StringLit(Seq<char>),
    CharLit(Seq<char>),
    LParen,
    RParen,
    LBrace,
    RBrace,
    LBracket,
    RBracket,
    Semicolon,
    Comma,
    Period,
    Colon,
    Assign,
    Condition,
    Arrow,
    QuestionMark,
    Bang,
    At,
    Compound,
    Range,
    Plus,
    Minus,
    Star,
    Slash,
    Eq,
    Ne,
    Gt,
    Ge,
    Lt,
    Le,
    Not,
    LogAnd,
    LogOr,
    XOr,
    LShift,
    RShift,
    True,
    False,
    Let,
    And,
    ValOf,
    ResultIs,
    Return,
    Break,
    Next,
    If,
    Else,
    Unless,
    While,
    For,
    Until,
    SwitchOn,
    Match,
    Every,
    Case,
    Default,
    Into,
    Do,
    To,
    By,
    Of,
    Be,
    Section,
    Require,
    Global,
    Manifest,
    Static,
    Mod,
    Abs,
    Type,
}

/// The views of a list of token kinds.
pub open spec fn kind_views(list: Seq<TokenKind>) -> Seq<TokenKindView> {
    Seq::new(list.len(), |i: int| list[i].view())
}

impl TokenKindView {
    /// How a token of this kind is shown in a message.
    pub open spec fn text(self) -> Seq<char> {
        match self {
            TokenKindView::Eof => "end of file"@,
            TokenKindView::Error(Some(err)) => err,
            TokenKindView::Error(None) => "error"@,
            TokenKindView::Ident(ident) => ident,
            TokenKindView::Atom(atom) => "#"@ + atom,
            TokenKindView::IntegerLit(value) => decimal(value as nat),
            TokenKindView::FloatLit(a, _) => a,
            TokenKindView::StringLit(s) => "\""@ + s + "\""@,
            TokenKindView::CharLit(ch) => "'"@ + ch + "'"@,
            TokenKindView::LParen => "("@,
            TokenKindView::RParen => ")"@,
            TokenKindView::LBrace => "{"@,
            TokenKindView::RBrace => "}"@,
            TokenKindView::LBracket => "["@,
            TokenKindView::RBracket => "]"@,
            TokenKindView::Semicolon => ";"@,
            TokenKindView::Comma => ","@,
            TokenKindView::Period => "."@,
            TokenKindView::Colon => ":"@,
            TokenKindView::Assign => ":="@,
            TokenKindView::Condition => "->"@,
            TokenKindView::Arrow => "=>"@,
            TokenKindView::QuestionMark => "?"@,
            TokenKindView::Bang => "!"@,
            TokenKindView::At => "@"@,
            TokenKindView::Compound => "<>"@,
            TokenKindView::Range => ".."@,
            TokenKindView::Plus => "+"@,
            TokenKindView::Minus => "-"@,
            TokenKindView::Star => "*"@,
            TokenKindView::Slash => "/"@,
            TokenKindView::Eq => "="@,
            TokenKindView::Ne => "~="@,
            TokenKindView::Gt => ">"@,
            TokenKindView::Ge => ">="@,
            TokenKindView::Lt => "<"@,
            TokenKindView::Le => "<="@,
            TokenKindView::Not => "~"@,
            TokenKindView::LogAnd => "&"@,
            TokenKindView::LogOr => "|"@,
            TokenKindView::XOr => "^"@,
            TokenKindView::LShift => "<<"@,
            TokenKindView::RShift => ">>"@,
            TokenKindView::True => "true"@,
            TokenKindView::False => "false"@,
            TokenKindView::Let => "let"@,
            TokenKindView::And => "and"@,
            TokenKindView::ValOf => "valof"@,
            TokenKindView::ResultIs => "resultis"@,
            TokenKindView::Return => "return"@,
            TokenKindView::Break => "break"@,
            TokenKindView::Next => "next"@,
            TokenKindView::If => "if"@,
            TokenKindView::Else => "else"@,
            TokenKindView::Unless => "unless"@,
            TokenKindView::While => "while"@,
            TokenKindView::For => "for"@,
            TokenKindView::Until => "until"@,
            TokenKindView::SwitchOn => "switchon"@,
            TokenKindView::Match => "match"@,
            TokenKindView::Every => "every"@,
            TokenKindView::Case => "case"@,
            TokenKindView::Default => "default"@,
            TokenKindView::Into => "into"@,
            TokenKindView::Do => "do"@,
            TokenKindView::To => "to"@,
            TokenKindView::By => "by"@,
            TokenKindView::Of => "::"@,
            TokenKindView::Be => "be"@,
            TokenKindView::Section => "section"@,
            TokenKindView::Require => "require"@,
            TokenKindView::Global => "global"@,
            TokenKindView::Manifest => "manifest"@,
            TokenKindView::Static => "static"@,
            TokenKindView::Mod => "mod"@,
            TokenKindView::Abs => "abs"@,
            TokenKindView::Type => "<unexpected>"@,
        }
    }
}

impl TokenKind {
    pub open spec fn view(&self) -> TokenKindView {
        match self {
            TokenKind::Eof => TokenKindView::Eof,
            TokenKind::Error(msg) => TokenKindView::Error(opt_text(*msg)),
            TokenKind::Ident(s) => TokenKindView::Ident(s@),
            TokenKind::Atom(s) => TokenKindView::Atom(s@),
            TokenKind::IntegerLit(v) => TokenKindView::IntegerLit(*v),
            TokenKind::FloatLit(m, e) => TokenKindView::FloatLit(m@, opt_text(*e)),
            TokenKind::StringLit(s) => TokenKindView::StringLit(s@),
            TokenKind::CharLit(s) => TokenKindView::CharLit(s@),
            TokenKind::LParen => TokenKindView::LParen,
            TokenKind::RParen => TokenKindView::RParen,
            TokenKind::LBrace => TokenKindView::LBrace,
            TokenKind::RBrace => TokenKindView::RBrace,
            TokenKind::LBracket => TokenKindView::LBracket,
            TokenKind::RBracket => TokenKindView::RBracket,
            TokenKind::Semicolon => TokenKindView::Semicolon,
            TokenKind::Comma => TokenKindView::Comma,
            TokenKind::Period => TokenKindView::Period,
            TokenKind::Colon => TokenKindView::Colon,
            TokenKind::Assign => TokenKindView::Assign,
            TokenKind::Condition => TokenKindView::Condition,
            TokenKind::Arrow => TokenKindView::Arrow,
            TokenKind::QuestionMark => TokenKindView::QuestionMark,
            TokenKind::Bang => TokenKindView::Bang,
            TokenKind::At => TokenKindView::At,
            TokenKind::Compound => TokenKindView::Compound,
            TokenKind::Range => TokenKindView::Range,
            TokenKind::Plus => TokenKindView::Plus,
            TokenKind::Minus => TokenKindView::Minus,
            TokenKind::Star => TokenKindView::Star,
            TokenKind::Slash => TokenKindView::Slash,
            TokenKind::Eq => TokenKindView::Eq,
            TokenKind::Ne => TokenKindView::Ne,
            TokenKind::Gt => TokenKindView::Gt,
            TokenKind::Ge => TokenKindView::Ge,
            TokenKind::Lt => TokenKindView::Lt,
            TokenKind::Le => TokenKindView::Le,
            TokenKind::Not => TokenKindView::Not,
            TokenKind::LogAnd => TokenKindView::LogAnd,
            TokenKind::LogOr => TokenKindView::LogOr,
            TokenKind::XOr => TokenKindView::XOr,
            TokenKind::LShift => TokenKindView::LShift,
            TokenKind::RShift => TokenKindView::RShift,
            TokenKind::True => TokenKindView::True,
            TokenKind::False => TokenKindView::False,
            TokenKind::Let => TokenKindView::Let,
            TokenKind::And => TokenKindView::And,
            TokenKind::ValOf => TokenKindView::ValOf,
            TokenKind::ResultIs => TokenKindView::ResultIs,
            TokenKind::Return => TokenKindView::Return,
            TokenKind::Break => TokenKindView::Break,
            TokenKind::Next => TokenKindView::Next,
            TokenKind::If => TokenKindView::If,
            TokenKind::Else => TokenKindView::Else,
            TokenKind::Unless => TokenKindView::Unless,
            TokenKind::While => TokenKindView::While,
            TokenKind::For => TokenKindView::For,
            TokenKind::Until => TokenKindView::Until,
            TokenKind::SwitchOn => TokenKindView::SwitchOn,
            TokenKind::Match => TokenKindView::Match,
            TokenKind::Every => TokenKindView::Every,
            TokenKind::Case => TokenKindView::Case,
            TokenKind::Default => TokenKindView::Default,
            TokenKind::Into => TokenKindView::Into,
            TokenKind::Do => TokenKindView::Do,
            TokenKind::To => TokenKindView::To,
            TokenKind::By => TokenKindView::By,
            TokenKind::Of => TokenKindView::Of,
            TokenKind::Be => TokenKindView::Be,
            TokenKind::Section => TokenKindView::Section,
            TokenKind::Require => TokenKindView::Require,
            TokenKind::Global => TokenKindView::Global,
            TokenKind::Manifest => TokenKindView::Manifest,
            TokenKind::Static => TokenKindView::Static,
            TokenKind::Mod => TokenKindView::Mod,
            TokenKind::Abs => TokenKindView::Abs,
            TokenKind::Type => TokenKindView::Type,
        }
    }

    /// Whether the two kinds are the same variant with the same text or number.
    pub fn equals(&self, other: &TokenKind) -> (r: bool)
        ensures
            r == (self.view() == other.view()),
    {
        match self {
            TokenKind::Eof => matches!(other, TokenKind::Eof),
            TokenKind::Error(a) => match other {
                TokenKind::Error(b) => match (a, b) {
                    (Some(x), Some(y)) => *x == *y,
                    (None, None) => true,
                    _ => false,
                },
                _ => false,
            },
            TokenKind::Ident(a) => match other {
                TokenKind::Ident(b) => *a == *b,
                _ => false,
            },
            TokenKind::Atom(a) => match other {
                TokenKind::Atom(b) => *a == *b,
                _ => false,
            },
            TokenKind::IntegerLit(a) => match other {
                TokenKind::IntegerLit(b) => *a == *b,
                _ => false,
            },
            TokenKind::FloatLit(a, x) => match other {
                TokenKind::FloatLit(b, y) => *a == *b && match (x, y) {
                    (Some(p), Some(q)) => *p == *q,
                    (None, None) => true,
                    _ => false,
                },
                _ => false,
            },
            TokenKind::StringLit(a) => match other {
                TokenKind::StringLit(b) => *a == *b,
                _ => false,
            },
            TokenKind::CharLit(a) => match other {
                TokenKind::CharLit(b) => *a == *b,
                _ => false,
            },
            TokenKind::LParen => matches!(other, TokenKind::LParen),
            TokenKind::RParen => matches!(other, TokenKind::RParen),
            TokenKind::LBrace => matches!(other, TokenKind::LBrace),
            TokenKind::RBrace => matches!(other, TokenKind::RBrace),
            TokenKind::LBracket => matches!(other, TokenKind::LBracket),
            TokenKind::RBracket => matches!(other, TokenKind::RBracket),
            TokenKind::Semicolon => matches!(other, TokenKind::Semicolon),
            TokenKind::Comma => matches!(other, TokenKind::Comma),
            TokenKind::Period => matches!(other, TokenKind::Period),
            TokenKind::Colon => matches!(other, TokenKind::Colon),
            TokenKind::Assign => matches!(other, TokenKind::Assign),
            TokenKind::Condition => matches!(other, TokenKind::Condition),
            TokenKind::Arrow => matches!(other, TokenKind::Arrow),
            TokenKind::QuestionMark => matches!(other, TokenKind::QuestionMark),
            TokenKind::Bang => matches!(other, TokenKind::Bang),
            TokenKind::At => matches!(other, TokenKind::At),
            TokenKind::Compound => matches!(other, TokenKind::Compound),
            TokenKind::Range => matches!(other, TokenKind::Range),
            TokenKind::Plus => matches!(other, TokenKind::Plus),
            TokenKind::Minus => matches!(other, TokenKind::Minus),
            TokenKind::Star => matches!(other, TokenKind::Star),
            TokenKind::Slash => matches!(other, TokenKind::Slash),
            TokenKind::Eq => matches!(other, TokenKind::Eq),
            TokenKind::Ne => matches!(other, TokenKind::Ne),
            TokenKind::Gt => matches!(other, TokenKind::Gt),
            TokenKind::Ge => matches!(other, TokenKind::Ge),
            TokenKind::Lt => matches!(other, TokenKind::Lt),
            TokenKind::Le => matches!(other, TokenKind::Le),
            TokenKind::Not => matches!(other, TokenKind::Not),
            TokenKind::LogAnd => matches!(other, TokenKind::LogAnd),
            TokenKind::LogOr => matches!(other, TokenKind::LogOr),
            TokenKind::XOr => matches!(other, TokenKind::XOr),
            TokenKind::LShift => matches!(other, TokenKind::LShift),
            TokenKind::RShift => matches!(other, TokenKind::RShift),
            TokenKind::True => matches!(other, TokenKind::True),
            TokenKind::False => matches!(other, TokenKind::False),
            TokenKind::Let => matches!(other, TokenKind::Let),
            TokenKind::And => matches!(other, TokenKind::And),
            TokenKind::ValOf => matches!(other, TokenKind::ValOf),
            TokenKind::ResultIs => matches!(other, TokenKind::ResultIs),
            TokenKind::Return => matches!(other, TokenKind::Return),
            TokenKind::Break => matches!(other, TokenKind::Break),
            TokenKind::Next => matches!(other, TokenKind::Next),
            TokenKind::If => matches!(other, TokenKind::If),
            TokenKind::Else => matches!(other, TokenKind::Else),
            TokenKind::Unless => matches!(other, TokenKind::Unless),
            TokenKind::While => matches!(other, TokenKind::While),
            TokenKind::For => matches!(other, TokenKind::For),
            TokenKind::Until => matches!(other, TokenKind::Until),
            TokenKind::SwitchOn => matches!(other, TokenKind::SwitchOn),
            TokenKind::Match => matches!(other, TokenKind::Match),
            TokenKind::Every => matches!(other, TokenKind::Every),
            TokenKind::Case => matches!(other, TokenKind::Case),
            TokenKind::Default => matches!(other, TokenKind::Default),
            TokenKind::Into => matches!(other, TokenKind::Into),
            TokenKind::Do => matches!(other, TokenKind::Do),
            TokenKind::To => matches!(other, TokenKind::To),
            TokenKind::By => matches!(other, TokenKind::By),
            TokenKind::Of => matches!(other, TokenKind::Of),
            TokenKind::Be => matches!(other, TokenKind::Be),
            TokenKind::Section => matches!(other, TokenKind::Section),
            TokenKind::Require => matches!(other, TokenKind::Require),
            TokenKind::Global => matches!(other, TokenKind::Global),
            TokenKind::Manifest => matches!(other, TokenKind::Manifest),
            TokenKind::Static => matches!(other, TokenKind::Static),
            TokenKind::Mod => matches!(other, TokenKind::Mod),
            TokenKind::Abs => matches!(other, TokenKind::Abs),
            TokenKind::Type => matches!(other, TokenKind::Type),
        }
    }

    /// A copy of this kind.
    pub fn duplicate(&self) -> (r: TokenKind)
        ensures
            r == *self,
    {
        match self {
            TokenKind::Eof => TokenKind::Eof,
            TokenKind::Error(a) => TokenKind::Error(a.clone()),
            TokenKind::Ident(a) => TokenKind::Ident(a.clone()),
            TokenKind::Atom(a) => TokenKind::Atom(a.clone()),
            TokenKind::IntegerLit(a) => TokenKind::IntegerLit(*a),
            TokenKind::FloatLit(a, x) => TokenKind::FloatLit(a.clone(), x.clone()),
            TokenKind::StringLit(a) => TokenKind::StringLit(a.clone()),
            TokenKind::CharLit(a) => TokenKind::CharLit(a.clone()),
            TokenKind::LParen => TokenKind::LParen,
            TokenKind::RParen => TokenKind::RParen,
            TokenKind::LBrace => TokenKind::LBrace,
            TokenKind::RBrace => TokenKind::RBrace,
            TokenKind::LBracket => TokenKind::LBracket,
            TokenKind::RBracket => TokenKind::RBracket,
            TokenKind::Semicolon => TokenKind::Semicolon,
            TokenKind::Comma => TokenKind::Comma,
            TokenKind::Period => TokenKind::Period,
            TokenKind::Colon => TokenKind::Colon,
            TokenKind::Assign => TokenKind::Assign,
            TokenKind::Condition => TokenKind::Condition,
            TokenKind::Arrow => TokenKind::Arrow,
            TokenKind::QuestionMark => TokenKind::QuestionMark,
            TokenKind::Bang => TokenKind::Bang,
            TokenKind::At => TokenKind::At,
            TokenKind::Compound => TokenKind::Compound,
            TokenKind::Range => TokenKind::Range,
            TokenKind::Plus => TokenKind::Plus,
            TokenKind::Minus => TokenKind::Minus,
            TokenKind::Star => TokenKind::Star,
            TokenKind::Slash => TokenKind::Slash,
            TokenKind::Eq => TokenKind::Eq,
            TokenKind::Ne => TokenKind::Ne,
            TokenKind::Gt => TokenKind::Gt,
            TokenKind::Ge => TokenKind::Ge,
            TokenKind::Lt => TokenKind::Lt,
            TokenKind::Le => TokenKind::Le,
            TokenKind::Not => TokenKind::Not,
            TokenKind::LogAnd => TokenKind::LogAnd,
            TokenKind::LogOr => TokenKind::LogOr,
            TokenKind::XOr => TokenKind::XOr,
            TokenKind::LShift => TokenKind::LShift,
            TokenKind::RShift => TokenKind::RShift,
            TokenKind::True => TokenKind::True,
            TokenKind::False => TokenKind::False,
            TokenKind::Let => TokenKind::Let,
            TokenKind::And => TokenKind::And,
            TokenKind::ValOf => TokenKind::ValOf,
            TokenKind::ResultIs => TokenKind::ResultIs,
            TokenKind::Return => TokenKind::Return,
            TokenKind::Break => TokenKind::Break,
            TokenKind::Next => TokenKind::Next,
            TokenKind::If => TokenKind::If,
            TokenKind::Else => TokenKind::Else,
            TokenKind::Unless => TokenKind::Unless,
            TokenKind::While => TokenKind::While,
            TokenKind::For => TokenKind::For,
            TokenKind::Until => TokenKind::Until,
            TokenKind::SwitchOn => TokenKind::SwitchOn,
            TokenKind::Match => TokenKind::Match,
            TokenKind::Every => TokenKind::Every,
            TokenKind::Case => TokenKind::Case,
            TokenKind::Default => TokenKind::Default,
            TokenKind::Into => TokenKind::Into,
            TokenKind::Do => TokenKind::Do,
            TokenKind::To => TokenKind::To,
            TokenKind::By => TokenKind::By,
            TokenKind::Of => TokenKind::Of,
            TokenKind::Be => TokenKind::Be,
            TokenKind::Section => TokenKind::Section,
            TokenKind::Require => TokenKind::Require,
            TokenKind::Global => TokenKind::Global,
            TokenKind::Manifest => TokenKind::Manifest,
            TokenKind::Static => TokenKind::Static,
            TokenKind::Mod => TokenKind::Mod,
            TokenKind::Abs => TokenKind::Abs,
            TokenKind::Type => TokenKind::Type,
        }
    }

    /// The keyword that `word` spells, if it spells one.
    pub open spec fn keyword(word: Seq<char>) -> Option<TokenKind> {
        if word == "true"@ {
            Some(TokenKind::True)
        } else if word == "false"@ {
            Some(TokenKind::False)
        } else if word == "let"@ {
            Some(TokenKind::Let)
        } else if word == "and"@ {
            Some(TokenKind::And)
        } else if word == "valof"@ {
            Some(TokenKind::ValOf)
        } else if word == "resultis"@ {
            Some(TokenKind::ResultIs)
        } else if word == "return"@ {
            Some(TokenKind::Return)
        } else if word == "next"@ {
            Some(TokenKind::Next)
        } else if word == "break"@ {
            Some(TokenKind::Break)
        } else if word == "if"@ {
            Some(TokenKind::If)
        } else if word == "else"@ {
            Some(TokenKind::Else)
        } else if word == "unless"@ {
            Some(TokenKind::Unless)
        } else if word == "until"@ {
            Some(TokenKind::Until)
        } else if word == "switchon"@ {
            Some(TokenKind::SwitchOn)
        } else if word == "match"@ {
            Some(TokenKind::Match)
        } else if word == "every"@ {
            Some(TokenKind::Every)
        } else if word == "while"@ {
            Some(TokenKind::While)
        } else if word == "case"@ {
            Some(TokenKind::Case)
        } else if word == "default"@ {
            Some(TokenKind::Default)
        } else if word == "into"@ {
            Some(TokenKind::Into)
        } else if word == "do"@ {
            Some(TokenKind::Do)
        } else if word == "to"@ {
            Some(TokenKind::To)
        } else if word == "by"@ {
            Some(TokenKind::By)
        } else if word == "of"@ {
            Some(TokenKind::Of)
        } else if word == "be"@ {
            Some(TokenKind::Be)
        } else if word == "section"@ {
            Some(TokenKind::Section)
        } else if word == "require"@ {
            Some(TokenKind::Require)
        } else if word == "global"@ {
            Some(TokenKind::Global)
        } else if word == "manifest"@ {
            Some(TokenKind::Manifest)
        } else if word == "static"@ {
            Some(TokenKind::Static)
        } else if word == "mod"@ {
            Some(TokenKind::Mod)
        } else if word == "abs"@ {
            Some(TokenKind::Abs)
        } else if word == "for"@ {
            Some(TokenKind::For)
        } else if word == "type"@ {
            Some(TokenKind::Type)
        } else {
            None
        }
    }

    /// The token kind of a word: its keyword, or else an identifier with
    /// that text.
    pub fn from(word: String) -> (r: TokenKind)
        ensures
            match TokenKind::keyword(word@) {
                Some(k) => r == k,
                None => r == TokenKind::Ident(word),
            },
    {
        let w = word.as_str();
        if str_eq(w, "true") {
            TokenKind::True
        } else if str_eq(w, "false") {
            TokenKind::False
        } else if str_eq(w, "let") {
            TokenKind::Let
        } else if str_eq(w, "and") {
            TokenKind::And
        } else if str_eq(w, "valof") {
            TokenKind::ValOf
        } else if str_eq(w, "resultis") {
            TokenKind::ResultIs
        } else if str_eq(w, "return") {
            TokenKind::Return
        } else if str_eq(w, "next") {
            TokenKind::Next
        } else if str_eq(w, "break") {
            TokenKind::Break
        } else if str_eq(w, "if") {
            TokenKind::If
        } else if str_eq(w, "else") {
            TokenKind::Else
        } else if str_eq(w, "unless") {
            TokenKind::Unless
        } else if str_eq(w, "until") {
            TokenKind::Until
        } else if str_eq(w, "switchon") {
            TokenKind::SwitchOn
        } else if str_eq(w, "match") {
            TokenKind::Match
        } else if str_eq(w, "every") {
            TokenKind::Every
        } else if str_eq(w, "while") {
            TokenKind::While
        } else if str_eq(w, "case") {
            TokenKind::Case
        } else if str_eq(w, "default") {
            TokenKind::Default
        } else if str_eq(w, "into") {
            TokenKind::Into
        } else if str_eq(w, "do") {
            TokenKind::Do
        } else if str_eq(w, "to") {
            TokenKind::To
        } else if str_eq(w, "by") {
            TokenKind::By
        } else if str_eq(w, "of") {
            TokenKind::Of
        } else if str_eq(w, "be") {
            TokenKind::Be
        } else if str_eq(w, "section") {
            TokenKind::Section
        } else if str_eq(w, "require") {
            TokenKind::Require
        } else if str_eq(w, "global") {
            TokenKind::Global
        } else if str_eq(w, "manifest") {
            TokenKind::Manifest
        } else if str_eq(w, "static") {
            TokenKind::Static
        } else if str_eq(w, "mod") {
            TokenKind::Mod
        } else if str_eq(w, "abs") {
            TokenKind::Abs
        } else if str_eq(w, "for") {
            TokenKind::For
        } else if str_eq(w, "type") {
            TokenKind::Type
        } else {
            TokenKind::Ident(word)
        }
    }

    /// The token that a single character writes by itself, if any.
    pub open spec fn symbol(ch: char) -> Option<TokenKind> {
        if ch == '(' {
            Some(TokenKind::LParen)
        } else if ch == ')' {
            Some(TokenKind::RParen)
        } else if ch == '{' {
            Some(TokenKind::LBrace)
        } else if ch == '}' {
            Some(TokenKind::RBrace)
        } else if ch == '[' {
            Some(TokenKind::LBracket)
        } else if ch == ']' {
            Some(TokenKind::RBracket)
        } else if ch == ';' {
            Some(TokenKind::Semicolon)
        } else if ch == '+' {
            Some(TokenKind::Plus)
        } else if ch == '*' {
            Some(TokenKind::Star)
        } else if ch == '!' {
            Some(TokenKind::Bang)
        } else if ch == '?' {
            Some(TokenKind::QuestionMark)
        } else if ch == ',' {
            Some(TokenKind::Comma)
        } else if ch == '@' {
            Some(TokenKind::At)
        } else if ch == '|' {
            Some(TokenKind::LogOr)
        } else if ch == '&' {
            Some(TokenKind::LogAnd)
        } else if ch == '^' {
            Some(TokenKind::XOr)
        } else {
            None
        }
    }

    pub fn try_from(ch: char) -> (r: Option<TokenKind>)
        ensures
            r == TokenKind::symbol(ch),
    {
        if ch == '(' {
            Some(TokenKind::LParen)
        } else if ch == ')' {
            Some(TokenKind::RParen)
        } else if ch == '{' {
            Some(TokenKind::LBrace)
        } else if ch == '}' {
            Some(TokenKind::RBrace)
        } else if ch == '[' {
            Some(TokenKind::LBracket)
        } else if ch == ']' {
            Some(TokenKind::RBracket)
        } else if ch == ';' {
            Some(TokenKind::Semicolon)
        } else if ch == '+' {
            Some(TokenKind::Plus)
        } else if ch == '*' {
            Some(TokenKind::Star)
        } else if ch == '!' {
            Some(TokenKind::Bang)
        } else if ch == '?' {
            Some(TokenKind::QuestionMark)
        } else if ch == ',' {
            Some(TokenKind::Comma)
        } else if ch == '@' {
            Some(TokenKind::At)
        } else if ch == '|' {
            Some(TokenKind::LogOr)
        } else if ch == '&' {
            Some(TokenKind::LogAnd)
        } else if ch == '^' {
            Some(TokenKind::XOr)
        } else {
            None
        }
    }

    /// How a token of this kind is shown in a message.
    pub open spec fn text(&self) -> Seq<char> {
        self.view().text()
    }

    pub fn to_string(&self) -> (r: String)
        ensures
            r@ == self.text(),
    {
        let mut r = String::new();
        match self {
            TokenKind::Eof => push_text(&mut r, "end of file"),
            TokenKind::Error(Some(err)) => push_text(&mut r, err.as_str()),
            TokenKind::Error(None) => push_text(&mut r, "error"),
            TokenKind::Ident(ident) => push_text(&mut r, ident.as_str()),
            TokenKind::Atom(atom) => {
                push_text(&mut r, "#");
                push_text(&mut r, atom.as_str());
            },
            TokenKind::IntegerLit(value) => push_decimal(&mut r, *value),
            TokenKind::FloatLit(a, _) => push_text(&mut r, a.as_str()),
            TokenKind::StringLit(s) => {
                push_text(&mut r, "\"");
                push_text(&mut r, s.as_str());
                push_text(&mut r, "\"");
            },
            TokenKind::CharLit(ch) => {
                push_text(&mut r, "'");
                push_text(&mut r, ch.as_str());
                push_text(&mut r, "'");
            },
            TokenKind::LParen => push_text(&mut r, "("),
            TokenKind::RParen => push_text(&mut r, ")"),
            TokenKind::LBrace => push_text(&mut r, "{"),
            TokenKind::RBrace => push_text(&mut r, "}"),
            TokenKind::LBracket => push_text(&mut r, "["),
            TokenKind::RBracket => push_text(&mut r, "]"),
            TokenKind::Semicolon => push_text(&mut r, ";"),
            TokenKind::Comma => push_text(&mut r, ","),
            TokenKind::Period => push_text(&mut r, "."),
            TokenKind::Colon => push_text(&mut r, ":"),
            TokenKind::Assign => push_text(&mut r, ":="),
            TokenKind::Condition => push_text(&mut r, "->"),
            TokenKind::Arrow => push_text(&mut r, "=>"),
            TokenKind::QuestionMark => push_text(&mut r, "?"),
            TokenKind::Bang => push_text(&mut r, "!"),
            TokenKind::At => push_text(&mut r, "@"),
            TokenKind::Compound => push_text(&mut r, "<>"),
            TokenKind::Range => push_text(&mut r, ".."),
            TokenKind::Plus => push_text(&mut r, "+"),
            TokenKind::Minus => push_text(&mut r, "-"),
            TokenKind::Star => push_text(&mut r, "*"),
            TokenKind::Slash => push_text(&mut r, "/"),
            TokenKind::Eq => push_text(&mut r, "="),
            TokenKind::Ne => push_text(&mut r, "~="),
            TokenKind::Gt => push_text(&mut r, ">"),
            TokenKind::Ge => push_text(&mut r, ">="),
            TokenKind::Lt => push_text(&mut r, "<"),
            TokenKind::Le => push_text(&mut r, "<="),
            TokenKind::Not => push_text(&mut r, "~"),
            TokenKind::LogAnd => push_text(&mut r, "&"),
            TokenKind::LogOr => push_text(&mut r, "|"),
            TokenKind::XOr => push_text(&mut r, "^"),
            TokenKind::LShift => push_text(&mut r, "<<"),
            TokenKind::RShift => push_text(&mut r, ">>"),
            TokenKind::True => push_text(&mut r, "true"),
            TokenKind::False => push_text(&mut r, "false"),
            TokenKind::Let => push_text(&mut r, "let"),
            TokenKind::And => push_text(&mut r, "and"),
            TokenKind::ValOf => push_text(&mut r, "valof"),
            TokenKind::ResultIs => push_text(&mut r, "resultis"),
            TokenKind::Return => push_text(&mut r, "return"),
            TokenKind::Break => push_text(&mut r, "break"),
            TokenKind::Next => push_text(&mut r, "next"),
            TokenKind::If => push_text(&mut r, "if"),
            TokenKind::Else => push_text(&mut r, "else"),
            TokenKind::Unless => push_text(&mut r, "unless"),
            TokenKind::While => push_text(&mut r, "while"),
            TokenKind::For => push_text(&mut r, "for"),
            TokenKind::Until => push_text(&mut r, "until"),
            TokenKind::SwitchOn => push_text(&mut r, "switchon"),
            TokenKind::Match => push_text(&mut r, "match"),
            TokenKind::Every => push_text(&mut r, "every"),
            TokenKind::Case => push_text(&mut r, "case"),
            TokenKind::Default => push_text(&mut r, "default"),
            TokenKind::Into => push_text(&mut r, "into"),
            TokenKind::Do => push_text(&mut r, "do"),
            TokenKind::To => push_text(&mut r, "to"),
            TokenKind::By => push_text(&mut r, "by"),
            TokenKind::Of => push_text(&mut r, "::"),
            TokenKind::Be => push_text(&mut r, "be"),
            TokenKind::Section => push_text(&mut r, "section"),
            TokenKind::Require => push_text(&mut r, "require"),
            TokenKind::Global => push_text(&mut r, "global"),
            TokenKind::Manifest => push_text(&mut r, "manifest"),
            TokenKind::Static => push_text(&mut r, "static"),
            TokenKind::Mod => push_text(&mut r, "mod"),
            TokenKind::Abs => push_text(&mut r, "abs"),
            TokenKind::Type => push_text(&mut r, "<unexpected>"),
        }
        assert(r@ =~= self.text());
        r
    }
}

/// A token: its kind and where it stands.
#[derive(Debug)]
pub struct Token {
    pub kind: TokenKind,
    pub loc: Location,
}

/// A token as the parser sees it: its kind and its place.
pub ghost struct Lexeme {
    pub kind: TokenKindView,
    pub loc: Location,
}

/// The lexeme of a token.
pub open spec fn lexeme_of(token: Token) -> Lexeme {
    Lexeme { kind: token.kind@, loc: token.loc }
}

/// The lexemes of the tokens.
#[verifier::opaque]
pub open spec fn lexemes_of(tokens: Seq<Token>) -> Seq<Lexeme> {
    Seq::new(tokens.len(), |i: int| lexeme_of(tokens[i]))
}

/// The lexemes of a list of tokens are those of each token, in the order of
/// the list.
pub proof fn lemma_lexemes_of(tokens: Seq<Token>)
    ensures
        lexemes_of(tokens).len() == tokens.len(),
        forall|i: int|
            0 <= i < tokens.len() ==> (#[trigger] lexemes_of(tokens)[i]) == lexeme_of(tokens[i]),
{
    reveal(lexemes_of);
}

impl Token {
    pub fn new(loc: Location, kind: TokenKind) -> (t: Self)
        ensures
            t.kind == kind,
            t.loc == loc,
    {
        Token { kind, loc }
    }

    /// A token of the given kind at `loc`, `width` columns wide.
    pub fn with_width(loc: Location, width: usize, kind: TokenKind) -> (t: Self)
        ensures
            t.kind == kind,
            t.loc == (Location { width: low32(width as int), ..loc }),
    {
        let mut loc = loc;
        loc.set_width(width);
        Token { kind, loc }
    }

    pub fn eof(loc: Location) -> (t: Self)
        ensures
            t.kind == TokenKind::Eof,
            t.loc == loc,
    {
        Token { kind: TokenKind::Eof, loc }
    }

    pub fn is_eof(&self) -> (r: bool)
        ensures
            r == (self.kind is Eof),
    {
        match self.kind {
            TokenKind::Eof => true,
            _ => false,
        }
    }

    pub fn error(loc: Location, msg: Option<String>) -> (t: Self)
        ensures
            t.kind == TokenKind::Error(msg),
            t.loc == loc,
    {
        Token { kind: TokenKind::Error(msg), loc }
    }

    /// The token of a word: a keyword or an identifier, as wide as the word
    /// has characters.
    pub fn ident(loc: Location, ident: String) -> (t: Self)
        ensures
            match TokenKind::keyword(ident@) {
                Some(k) => t.kind == k,
                None => t.kind == TokenKind::Ident(ident),
            },
            t.loc == (Location { width: low32(ident@.len() as int), ..loc }),
    {
        let mut loc = loc;
        loc.set_width(ident.as_str().unicode_len());
        Token { kind: TokenKind::from(ident), loc }
    }

    /// A string literal token; the width counts the two quotes.
    pub fn string_lit(loc: Location, val: String) -> (t: Self)
        ensures
            t.kind == TokenKind::StringLit(val),
            t.loc == (Location { width: low32(val@.len() as int + 2), ..loc }),
    {
        let width = low_u32(val.as_str().unicode_len()).wrapping_add(2);
        assert(width == low32(val@.len() as int + 2));
        Token { kind: TokenKind::StringLit(val), loc: Location { width, ..loc } }
    }

    /// A character literal token; the width counts the two quotes.
    pub fn char_lit(loc: Location, val: String) -> (t: Self)
        ensures
            t.kind == TokenKind::CharLit(val),
            t.loc == (Location { width: low32(val@.len() as int + 2), ..loc }),
    {
        let width = low_u32(val.as_str().unicode_len()).wrapping_add(2);
        assert(width == low32(val@.len() as int + 2));
        Token { kind: TokenKind::CharLit(val), loc: Location { width, ..loc } }
    }

    pub fn kind(&self) -> (r: &TokenKind)
        ensures
            *r == self.kind,
    {
        &self.kind
    }

    pub fn location(&self) -> (r: &Location)
        ensures
            *r == self.loc,
    {
        &self.loc
    }

    /// A copy of this token.
    pub fn duplicate(&self) -> (t: Token)
        ensures
            t == *self,
    {
        Token { kind: self.kind.duplicate(), loc: self.loc }
    }
}

} // verus!

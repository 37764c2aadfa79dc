//! Tokens produced by the lexer.
use vstd::prelude::*;
use crate::chars::{char_string, decimal, u64_to_string, push_char};

verus! {

/// A string literal as written in the template, without its quotes.
#[derive(Debug, Clone, PartialEq)]
pub struct TwigString {
    pub value: String,
}

impl TwigString {
    pub fn new(s: &str) -> (r: TwigString)
        ensures
            r.value@ == s@,
    {
        TwigString { value: s.to_owned() }
    }
}

/// A number literal.
#[derive(Debug, Clone, PartialEq)]
pub enum TwigNumber {
    /// Digits that do not fit an `i64`, or a decimal literal too large for
    /// an `f64`, as written.
    Big(String),
    /// A decimal literal (with a fractional part), as written.
    Float(String),
    /// Digits that fit an `i64`.
    Int(i64),
}

/// What a token holds.
#[derive(Debug, Clone, PartialEq)]
pub enum TokenValue {
    Text(String),
    BlockStart,
    VarStart,
    BlockEnd,
    VarEnd,
    Name(String),
    Number(TwigNumber),
    String(TwigString),
    Operator(String),
    Punctuation(char),
    InterpolationStart,
    InterpolationEnd,
}

/// A token and the line it starts on.
#[derive(Debug, Clone, PartialEq)]
pub struct Token {
    pub value: TokenValue,
    pub line_num: usize,
}

/// Decimal notation of an integer, with a leading `-` when negative.
pub open spec fn signed_decimal(i: int) -> Seq<char> {
    if i < 0 {
        seq!['-'] + decimal((-i) as nat)
    } else {
        decimal(i as nat)
    }
}

/// Writes `i` in decimal notation.
pub fn i64_to_string(i: i64) -> (r: String)
    ensures
        r@ == signed_decimal(i as int),
{
    if i < 0 {
        let m: u64 = if i == i64::MIN {
            9223372036854775808u64
        } else {
            (-i) as u64
        };
        assert(m as int == -(i as int));
        let digits = u64_to_string(m);
        let mut r = String::new();
        push_char(&mut r, '-');
        let r = r.concat(digits.as_str());
        assert(r@ =~= seq!['-'] + decimal((-i) as nat));
        r
    } else {
        u64_to_string(i as u64)
    }
}

impl TwigNumber {
    /// Two numbers are equal.
    pub open spec fn same(&self, other: &TwigNumber) -> bool {
        match (self, other) {
            (TwigNumber::Big(a), TwigNumber::Big(b)) => a@ == b@,
            (TwigNumber::Float(a), TwigNumber::Float(b)) => a@ == b@,
            (TwigNumber::Int(a), TwigNumber::Int(b)) => *a == *b,
            _ => false,
        }
    }

    /// The number as written.
    pub open spec fn text(&self) -> Seq<char> {
        match self {
            TwigNumber::Big(s) => s@,
            TwigNumber::Float(s) => s@,
            TwigNumber::Int(i) => signed_decimal(*i as int),
        }
    }

    pub fn equals(&self, other: &TwigNumber) -> (b: bool)
        ensures
            b == self.same(other),
    {
        match (self, other) {
            (TwigNumber::Big(a), TwigNumber::Big(b)) => *a == *b,
            (TwigNumber::Float(a), TwigNumber::Float(b)) => *a == *b,
            (TwigNumber::Int(a), TwigNumber::Int(b)) => *a == *b,
            _ => false,
        }
    }

    pub fn duplicate(&self) -> (r: TwigNumber)
        ensures
            r == *self,
    {
        match self {
            TwigNumber::Big(s) => TwigNumber::Big(s.clone()),
            TwigNumber::Float(s) => TwigNumber::Float(s.clone()),
            TwigNumber::Int(i) => TwigNumber::Int(*i),
        }
    }

    pub fn to_text(&self) -> (r: String)
        ensures
            r@ == self.text(),
    {
        match self {
            TwigNumber::Big(s) => s.clone(),
            TwigNumber::Float(s) => s.clone(),
            TwigNumber::Int(i) => i64_to_string(*i),
        }
    }
}

impl TokenValue {
    /// Two token values are equal.
    pub open spec fn same(&self, other: &TokenValue) -> bool {
        match (self, other) {
            (TokenValue::Text(a), TokenValue::Text(b)) => a@ == b@,
            (TokenValue::BlockStart, TokenValue::BlockStart) => true,
            (TokenValue::VarStart, TokenValue::VarStart) => true,
            (TokenValue::BlockEnd, TokenValue::BlockEnd) => true,
            (TokenValue::VarEnd, TokenValue::VarEnd) => true,
            (TokenValue::Name(a), TokenValue::Name(b)) => a@ == b@,
            (TokenValue::Number(a), TokenValue::Number(b)) => a.same(b),
            (TokenValue::String(a), TokenValue::String(b)) => a.value@ == b.value@,
            (TokenValue::Operator(a), TokenValue::Operator(b)) => a@ == b@,
            (TokenValue::Punctuation(a), TokenValue::Punctuation(b)) => *a == *b,
            (TokenValue::InterpolationStart, TokenValue::InterpolationStart) => true,
            (TokenValue::InterpolationEnd, TokenValue::InterpolationEnd) => true,
            _ => false,
        }
    }

    /// Decides `same`.
    pub fn equals(&self, other: &TokenValue) -> (b: bool)
        ensures
            b == self.same(other),
    {
        match (self, other) {
            (TokenValue::Text(a), TokenValue::Text(b)) => *a == *b,
            (TokenValue::BlockStart, TokenValue::BlockStart) => true,
            (TokenValue::VarStart, TokenValue::VarStart) => true,
            (TokenValue::BlockEnd, TokenValue::BlockEnd) => true,
            (TokenValue::VarEnd, TokenValue::VarEnd) => true,
            (TokenValue::Name(a), TokenValue::Name(b)) => *a == *b,
            (TokenValue::Number(a), TokenValue::Number(b)) => a.equals(b),
            (TokenValue::String(a), TokenValue::String(b)) => a.value == b.value,
            (TokenValue::Operator(a), TokenValue::Operator(b)) => *a == *b,
            (TokenValue::Punctuation(a), TokenValue::Punctuation(b)) => *a == *b,
            (TokenValue::InterpolationStart, TokenValue::InterpolationStart) => true,
            (TokenValue::InterpolationEnd, TokenValue::InterpolationEnd) => true,
            _ => false,
        }
    }

    /// A copy of this value.
    pub fn duplicate(&self) -> (r: TokenValue)
        ensures
            r == *self,
    {
        match self {
            TokenValue::Text(s) => TokenValue::Text(s.clone()),
            TokenValue::BlockStart => TokenValue::BlockStart,
            TokenValue::VarStart => TokenValue::VarStart,
            TokenValue::BlockEnd => TokenValue::BlockEnd,
            TokenValue::VarEnd => TokenValue::VarEnd,
            TokenValue::Name(s) => TokenValue::Name(s.clone()),
            TokenValue::Number(n) => TokenValue::Number(n.duplicate()),
            TokenValue::String(s) => TokenValue::String(TwigString { value: s.value.clone() }),
            TokenValue::Operator(s) => TokenValue::Operator(s.clone()),
            TokenValue::Punctuation(c) => TokenValue::Punctuation(*c),
            TokenValue::InterpolationStart => TokenValue::InterpolationStart,
            TokenValue::InterpolationEnd => TokenValue::InterpolationEnd,
        }
    }

    /// The English name of the kind of token.
    pub open spec fn english_name(&self) -> Seq<char> {
        match self {
            TokenValue::Text(_) => "text"@,
            TokenValue::BlockStart => "begin of statement block"@,
            TokenValue::VarStart => "begin of print statement"@,
            TokenValue::BlockEnd => "end of statement block"@,
            TokenValue::VarEnd => "end of print statement"@,
            TokenValue::Name(_) => "name"@,
            TokenValue::Number(_) => "number"@,
            TokenValue::String(_) => "string"@,
            TokenValue::Operator(_) => "operator"@,
            TokenValue::Punctuation(_) => "punctuation"@,
            TokenValue::InterpolationStart => "begin of string interpolation"@,
            TokenValue::InterpolationEnd => "end of string interpolation"@,
        }
    }

    /// The text a token of this value holds, for the kinds that hold one.
    pub open spec fn english_value(&self) -> Option<Seq<char>> {
        match self {
            TokenValue::Text(s) => Some(s@),
            TokenValue::Name(s) => Some(s@),
            TokenValue::Number(n) => Some(n.text()),
            TokenValue::String(s) => Some(s.value@),
            TokenValue::Operator(s) => Some(s@),
            TokenValue::Punctuation(c) => Some(seq![*c]),
            _ => None,
        }
    }

    /// The English name of the kind of token and the text it holds.
    pub fn get_english(&self) -> (r: (&'static str, Option<String>))
        ensures
            r.0@ == self.english_name(),
            match (r.1, self.english_value()) {
                (Some(a), Some(b)) => a@ == b,
                (None, None) => true,
                _ => false,
            },
    {
        match self {
            TokenValue::Text(s) => ("text", Some(s.clone())),
            TokenValue::BlockStart => ("begin of statement block", None),
            TokenValue::VarStart => ("begin of print statement", None),
            TokenValue::BlockEnd => ("end of statement block", None),
            TokenValue::VarEnd => ("end of print statement", None),
            TokenValue::Name(s) => ("name", Some(s.clone())),
            TokenValue::Number(n) => ("number", Some(n.to_text())),
            TokenValue::String(s) => ("string", Some(s.value.clone())),
            TokenValue::Operator(s) => ("operator", Some(s.clone())),
            TokenValue::Punctuation(c) => ("punctuation", Some(char_string(*c))),
            TokenValue::InterpolationStart => ("begin of string interpolation", None),
            TokenValue::InterpolationEnd => ("end of string interpolation", None),
        }
    }
}

impl Token {
    pub fn duplicate(&self) -> (r: Token)
        ensures
            r == *self,
    {
        Token { value: self.value.duplicate(), line_num: self.line_num }
    }
}

} // verus!

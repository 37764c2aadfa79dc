//! Conversion of template source to a stream of tokens.
use vstd::prelude::*;
use crate::chars::{string_from, char_string, str_to_chars, alphabetic};
use vstd::string::StringSliceAdditionalSpecFns;
use crate::environment::LexingEnvironment;
use crate::error::{ErrorAt, ErrorMessage, Received};
use crate::Expect;
use crate::tokens::{Token, TokenValue, TwigNumber, TwigString};
use self::iter::{Item, Lexeme, LexError, BracketSymbol, lex_all, item_ok, lex};
use self::matchers::{Matchers, is_separator, law_operator_separator};
use self::options::Options;

pub mod options;
pub mod matchers;
pub mod iter;
pub mod numbers;

verus! {

/// The grammar was compiled for these delimiters and operators.
pub open spec fn compiled(m: Matchers, o: Options, ops: Seq<&'static str>) -> bool {
    &&& m.wf()
    &&& m.var_start@ == o.tag_variable.start@
    &&& m.var_end@ == o.tag_variable.end@
    &&& m.block_start@ == o.tag_block.start@
    &&& m.block_end@ == o.tag_block.end@
    &&& m.comment_start@ == o.tag_comment.start@
    &&& m.comment_end@ == o.tag_comment.end@
    &&& m.trim@ == o.whitespace_trim@
    &&& m.interp_start@ == o.interpolation.start@
    &&& m.interp_end@ == o.interpolation.end@
    &&& m.word_raw@ == "raw"@
    &&& m.word_verbatim@ == "verbatim"@
    &&& m.word_endraw@ == "endraw"@
    &&& m.word_endverbatim@ == "endverbatim"@
    &&& m.word_line@ == "line"@
    &&& m.operators@.len() == ops.len() + 1
    &&& m.operators@[0].chars@ == "="@
    &&& m.operators@[0].byte_len == 1
    &&& !m.operators@[0].needs_sep
    &&& forall|k: int|
        0 <= k < ops.len() ==> {
            &&& (#[trigger] m.operators@[k + 1]).chars@ == ops[k]@
            &&& m.operators@[k + 1].byte_len == ops[k].spec_bytes().len() as usize
            &&& m.operators@[k + 1].needs_sep == alphabetic(ops[k]@.last())
        }
}

/// In a grammar compiled for the operators `ops`, an operator whose last
/// character is alphabetic (`in`, `and`, `not`, ...) matches only where
/// white space or a parenthesis follows it, so that a name that starts
/// with it (`index`, `order`, `notes`) is not taken for the operator.
pub proof fn law_word_operators(m: Matchers, o: Options, ops: Seq<&'static str>, j: int, s: Seq<char>, p: int)
    requires
        compiled(m, o, ops),
        0 <= j < ops.len(),
        alphabetic(ops[j]@.last()),
    ensures
        m.operators@[j + 1].matches_at(s, p) matches Some(e) ==> p < e <= s.len() && is_separator(s[e - 1]),
{
    assert(m.operators@[j + 1].needs_sep);
    law_operator_separator(s, p, m.operators@[j + 1].chars@, 0);
}

/// Parses template file and converts it to a stream of tokens.
pub struct Lexer {
    pub options: Options,
    pub matchers: Matchers,
}

impl Lexer {
    /// The lexer for the default syntax and the operators of `env`.
    pub fn default(env: &LexingEnvironment) -> (l: Lexer)
        requires
            forall|k: int| 0 <= k < env.operators@.len() ==> (#[trigger] env.operators@[k])@.len() > 0,
        ensures
            compiled(l.matchers, l.options, env.operators@),
            l.options.tag_comment.start@ == "{#"@,
            l.options.tag_comment.end@ == "#}"@,
            l.options.tag_block.start@ == "{%"@,
            l.options.tag_block.end@ == "%}"@,
            l.options.tag_variable.start@ == "{{"@,
            l.options.tag_variable.end@ == "}}"@,
            l.options.whitespace_trim@ == "-"@,
            l.options.interpolation.start@ == "#{"@,
            l.options.interpolation.end@ == "}"@,
    {
        let options = Options::default();
        proof {
            reveal_strlit("{#");
            reveal_strlit("#}");
            reveal_strlit("{%");
            reveal_strlit("%}");
            reveal_strlit("{{");
            reveal_strlit("}}");
            reveal_strlit("#{");
            reveal_strlit("}");
        }
        let matchers = Matchers::new(&options, &env.operators);
        Lexer { options, matchers }
    }

    /// Convert provided template into a token stream.
    pub fn tokens(&self, code: &str) -> (it: TokenIter)
        requires
            self.matchers.wf(),
            code@.len() < usize::MAX,
        ensures
            it.code() == code@,
            it.items() == lex_all(self.matchers, code@),
            it.index() == 0,
    {
        TokenIter::new(self, code)
    }
}

/// The text of a bracket symbol.
pub open spec fn symbol_text(b: BracketSymbol) -> Seq<char> {
    match b {
        BracketSymbol::Char(c) => seq![c],
        BracketSymbol::IntStart => "#{"@,
        BracketSymbol::IntEnd => "}"@,
    }
}

/// `v` is the token value that the lexeme stands for in the template `s`.
pub open spec fn token_value_of(s: Seq<char>, lx: Lexeme, v: TokenValue) -> bool {
    match lx {
        Lexeme::Text(a, b) => v matches TokenValue::Text(t) && t@ == s.subrange(a as int, b as int),
        Lexeme::BlockStart => v matches TokenValue::BlockStart,
        Lexeme::VarStart => v matches TokenValue::VarStart,
        Lexeme::BlockEnd => v matches TokenValue::BlockEnd,
        Lexeme::VarEnd => v matches TokenValue::VarEnd,
        Lexeme::Name(a, b) => v matches TokenValue::Name(t) && t@ == s.subrange(a as int, b as int),
        Lexeme::Int(i) => v matches TokenValue::Number(TwigNumber::Int(j)) && i == j,
        Lexeme::Big(a, b) => v matches TokenValue::Number(TwigNumber::Big(t)) && t@ == s.subrange(a as int, b as int),
        Lexeme::Float(a, b) => v matches TokenValue::Number(TwigNumber::Float(t)) && t@ == s.subrange(a as int, b as int),
        Lexeme::Str(a, b) => v matches TokenValue::String(t) && t.value@ == s.subrange(a as int, b as int),
        Lexeme::Operator(a, b) => v matches TokenValue::Operator(t) && t@ == s.subrange(a as int, b as int),
        Lexeme::Punctuation(c) => v matches TokenValue::Punctuation(d) && c == d,
        Lexeme::InterpolationStart => v matches TokenValue::InterpolationStart,
        Lexeme::InterpolationEnd => v matches TokenValue::InterpolationEnd,
    }
}

/// `msg` is the message of the lexing error `e` in the template `s`.
pub open spec fn error_message_of(s: Seq<char>, e: LexError, msg: ErrorMessage) -> bool {
    match e {
        LexError::UnclosedBracket(sym) => msg matches ErrorMessage::Unclosed(t) && t@ == symbol_text(sym),
        LexError::UnclosedTag(block) => msg matches ErrorMessage::Unclosed(t) && t@ == (if block { "block"@ } else { "variable"@ }),
        LexError::UnclosedComment => msg matches ErrorMessage::UnclosedComment,
        LexError::UnclosedRaw(verbatim) => msg matches ErrorMessage::UnclosedBlock(t) && t@ == (if verbatim { "verbatim"@ } else { "raw"@ }),
        LexError::Unexpected(c) => msg matches ErrorMessage::Unexpected(t) && t@ == seq![c],
        LexError::UnexpectedCharacter(c) => msg matches ErrorMessage::UnexpectedCharacter(t) && t@ == seq![c],
        LexError::InvalidLineNumber(a, b) => msg matches ErrorMessage::InvalidLineNumber(t) && t@ == s.subrange(a as int, b as int),
    }
}

/// `r` is what the lexer hands out for the item `it` of the template `s`.
pub open spec fn delivered(s: Seq<char>, it: Item, r: Result<Token, ErrorAt>) -> bool {
    match (it, r) {
        (Item::Token(lx, line), Ok(t)) => t.line_num == line && token_value_of(s, lx, t.value),
        (Item::Error(e, line), Err(err)) => err.line == Some(line) && error_message_of(s, e, *err.message),
        _ => false,
    }
}

/// The token value for a lexeme.
fn make_value(code: &Vec<char>, lx: Lexeme) -> (v: TokenValue)
    requires
        crate::lexer::iter::lexeme_ok(lx, code@.len() as int),
    ensures
        token_value_of(code@, lx, v),
{
    match lx {
        Lexeme::Text(a, b) => TokenValue::Text(string_from(code, a, b)),
        Lexeme::BlockStart => TokenValue::BlockStart,
        Lexeme::VarStart => TokenValue::VarStart,
        Lexeme::BlockEnd => TokenValue::BlockEnd,
        Lexeme::VarEnd => TokenValue::VarEnd,
        Lexeme::Name(a, b) => TokenValue::Name(string_from(code, a, b)),
        Lexeme::Int(i) => TokenValue::Number(TwigNumber::Int(i)),
        Lexeme::Big(a, b) => TokenValue::Number(TwigNumber::Big(string_from(code, a, b))),
        Lexeme::Float(a, b) => TokenValue::Number(TwigNumber::Float(string_from(code, a, b))),
        Lexeme::Str(a, b) => TokenValue::String(TwigString { value: string_from(code, a, b) }),
        Lexeme::Operator(a, b) => TokenValue::Operator(string_from(code, a, b)),
        Lexeme::Punctuation(c) => TokenValue::Punctuation(c),
        Lexeme::InterpolationStart => TokenValue::InterpolationStart,
        Lexeme::InterpolationEnd => TokenValue::InterpolationEnd,
    }
}

/// The text of a bracket symbol.
fn symbol_string(b: BracketSymbol) -> (r: String)
    ensures
        r@ == symbol_text(b),
{
    match b {
        BracketSymbol::Char(c) => char_string(c),
        BracketSymbol::IntStart => String::from_str("#{"),
        BracketSymbol::IntEnd => String::from_str("}"),
    }
}

/// The message for a lexing error.
fn make_message(code: &Vec<char>, e: LexError) -> (msg: ErrorMessage)
    requires
        item_ok(Item::Error(e, 0), code@.len() as int),
    ensures
        error_message_of(code@, e, msg),
{
    match e {
        LexError::UnclosedBracket(sym) => ErrorMessage::Unclosed(symbol_string(sym)),
        LexError::UnclosedTag(block) => ErrorMessage::Unclosed(
            if block { String::from_str("block") } else { String::from_str("variable") },
        ),
        LexError::UnclosedComment => ErrorMessage::UnclosedComment,
        LexError::UnclosedRaw(verbatim) => ErrorMessage::UnclosedBlock(
            if verbatim { String::from_str("verbatim") } else { String::from_str("raw") },
        ),
        LexError::Unexpected(c) => ErrorMessage::Unexpected(char_string(c)),
        LexError::UnexpectedCharacter(c) => ErrorMessage::UnexpectedCharacter(char_string(c)),
        LexError::InvalidLineNumber(a, b) => ErrorMessage::InvalidLineNumber(string_from(code, a, b)),
    }
}

/// Iterator over the tokens of a template.
pub struct TokenIter {
    code: Vec<char>,
    items: Vec<Item>,
    index: usize,
}

impl TokenIter {
    #[verifier::type_invariant]
    spec fn well_formed(self) -> bool {
        &&& forall|k: int| 0 <= k < self.items@.len() ==> item_ok(#[trigger] self.items@[k], self.code@.len() as int)
        &&& self.index <= self.items@.len()
    }

    /// The characters of the template.
    pub closed spec fn code(&self) -> Seq<char> {
        self.code@
    }

    /// All items of the template.
    pub closed spec fn items(&self) -> Seq<Item> {
        self.items@
    }

    /// How many items were handed out.
    pub closed spec fn index(&self) -> int {
        self.index as int
    }

    /// Lexes the template.
    pub fn new(lexer: &Lexer, code: &str) -> (it: TokenIter)
        requires
            lexer.matchers.wf(),
            code@.len() < usize::MAX,
        ensures
            it.code() == code@,
            it.items() == lex_all(lexer.matchers, code@),
            it.index() == 0,
    {
        let chars = str_to_chars(code);
        let items = lex(&lexer.matchers, &chars);
        TokenIter { code: chars, items, index: 0 }
    }

    /// Whether items are left.
    pub fn has_next(&self) -> (b: bool)
        ensures
            b == (self.index() < self.items().len()),
            self.index() <= self.items().len(),
    {
        proof {
            use_type_invariant(self);
        }
        self.index < self.items.len()
    }

    /// The next token, or the error that ends the stream.
    pub fn next(&mut self) -> (r: Option<Result<Token, ErrorAt>>)
        ensures
            final(self).code() == old(self).code(),
            final(self).items() == old(self).items(),
            old(self).index() < old(self).items().len() ==> {
                &&& final(self).index() == old(self).index() + 1
                &&& r matches Some(x) && delivered(old(self).code(), old(self).items()[old(self).index()], x)
            },
            old(self).index() >= old(self).items().len() ==> r is None && final(self).index() == old(self).index(),
    {
        proof {
            use_type_invariant(&*self);
        }
        if self.index >= self.items.len() {
            return None;
        }
        let it = self.items[self.index];
        assert(item_ok(it, self.code@.len() as int));
        self.index = self.index + 1;
        match it {
            Item::Token(lx, line) => Some(Ok(Token { value: make_value(&self.code, lx), line_num: line })),
            Item::Error(e, line) => Some(Err(ErrorAt::new_at(make_message(&self.code, e), line))),
        }
    }
}

impl Expect<TokenValue> for TokenIter {
    type Output = Result<Token, ErrorAt>;

    /// Takes the next token, which should have the value `expected`.
    fn expect(&mut self, expected: TokenValue) -> (r: Result<Token, ErrorAt>)
        ensures
            final(self).code() == old(self).code(),
            final(self).items() == old(self).items(),
            old(self).index() >= old(self).items().len() ==> (r matches Err(e) && e.line is None && *e.message
                == ErrorMessage::ExpectedTokenTypeButReceived(expected, Received::EndOfStream)),
            old(self).index() < old(self).items().len() ==> exists|x: Result<Token, ErrorAt>|
                #[trigger] delivered(old(self).code(), old(self).items()[old(self).index()], x) && match x {
                    Ok(t) => if t.value.same(&expected) {
                        r == Ok::<Token, ErrorAt>(t)
                    } else {
                        (r matches Err(e) && e.line == Some(t.line_num) && *e.message
                            == ErrorMessage::ExpectedTokenTypeButReceived(expected, Received::Token(t.value)))
                    },
                    Err(e) => r == Err::<Token, ErrorAt>(e),
                },
    {
        match self.next() {
            None => Err(ErrorAt::new(ErrorMessage::ExpectedTokenTypeButReceived(expected, Received::EndOfStream))),
            Some(Ok(token)) => {
                if token.value.equals(&expected) {
                    Ok(token)
                } else {
                    let line = token.line_num;
                    Err(
                        ErrorAt::new_at(
                            ErrorMessage::ExpectedTokenTypeButReceived(expected, Received::Token(token.value)),
                            line,
                        ),
                    )
                }
            },
            Some(Err(e)) => Err(e),
        }
    }
}

} // verus!

//! The lexer's state machine.
//!
//! The lexer is described twice: by spec functions over `Model`, one for
//! each lexing routine, and by the executable `Scanner` whose routines are
//! proved to follow them. `lex_all` is the list of items (tokens and at most
//! one error) that a template lexes to.
use vstd::prelude::*;
use crate::chars::{Klass, span, is_digit, is_white, trim_end_at, trim_end, count_newlines, newlines_in, klass_has, span_of, lemma_trim_end_white};
use crate::lexer::numbers::{digits_value, f64_overflow, parse_digits, int_part_finite};
use crate::lexer::matchers::{Matchers, TagKind, skip_ws, quoted_end, name_len, number_len, dq_part, opt_int, quoted_end_of, name_len_of, number_len_of, dq_part_of};

verus! {

/// Iteration state.
#[derive(Clone, Copy, PartialEq, Eq, Structural, Debug)]
pub enum State {
    Data,
    Block,
    Var,
    String,
    Interpolation,
}

/// A bracket of the template language; the interpolation bracket `#{ }`
/// has symbols of its own.
#[derive(Clone, Copy, PartialEq, Eq, Structural, Debug)]
pub enum BracketSymbol {
    Char(char),
    IntStart,
    IntEnd,
}

/// An opened bracket, the symbol that closes it and the line it was opened on.
#[derive(Clone, Copy, PartialEq, Eq, Structural, Debug)]
pub struct Bracket {
    pub open: BracketSymbol,
    pub close: BracketSymbol,
    pub line_num: usize,
}

/// The symbol that closes `open`.
pub open spec fn closing(open: BracketSymbol) -> BracketSymbol {
    match open {
        BracketSymbol::Char('(') => BracketSymbol::Char(')'),
        BracketSymbol::Char('[') => BracketSymbol::Char(']'),
        BracketSymbol::Char('{') => BracketSymbol::Char('}'),
        BracketSymbol::IntStart => BracketSymbol::IntEnd,
        other => other,
    }
}

/// The symbols that open a bracket: `(`, `[`, `{`, `"` and `#{`.
pub open spec fn is_opening(open: BracketSymbol) -> bool {
    ||| open == BracketSymbol::Char('(')
    ||| open == BracketSymbol::Char('[')
    ||| open == BracketSymbol::Char('{')
    ||| open == BracketSymbol::Char('"')
    ||| open == BracketSymbol::IntStart
}

impl Bracket {
    /// The bracket opened by `open` on line `line_num`, with the symbol
    /// that closes it.
    pub fn new(open: BracketSymbol, line_num: usize) -> (b: Bracket)
        requires
            is_opening(open),
        ensures
            b == (Bracket { open, close: closing(open), line_num }),
    {
        let close = match open {
            BracketSymbol::Char('(') => BracketSymbol::Char(')'),
            BracketSymbol::Char('[') => BracketSymbol::Char(']'),
            BracketSymbol::Char('{') => BracketSymbol::Char('}'),
            BracketSymbol::IntStart => BracketSymbol::IntEnd,
            other => other,
        };
        Bracket { open, close, line_num }
    }

    /// The bracket opened by the character `open_char`.
    pub fn from_char(open_char: char, line_num: usize) -> (b: Bracket)
        requires
            is_opening(BracketSymbol::Char(open_char)),
        ensures
            b == (Bracket {
                open: BracketSymbol::Char(open_char),
                close: closing(BracketSymbol::Char(open_char)),
                line_num,
            }),
    {
        Bracket::new(BracketSymbol::Char(open_char), line_num)
    }
}

/// A tag start marker found in the template.
#[derive(Clone, Copy, PartialEq, Eq, Structural, Debug)]
pub struct Position {
    pub loc: usize,
    pub len: usize,
    pub all_len: usize,
    pub kind: TagKind,
    pub ws_trim: bool,
}

/// A token, its text given by a range of the template.
#[derive(Clone, Copy, PartialEq, Eq, Structural, Debug)]
pub enum Lexeme {
    Text(usize, usize),
    BlockStart,
    VarStart,
    BlockEnd,
    VarEnd,
    Name(usize, usize),
    Int(i64),
    Big(usize, usize),
    Float(usize, usize),
    Str(usize, usize),
    Operator(usize, usize),
    Punctuation(char),
    InterpolationStart,
    InterpolationEnd,
}

/// A lexing error.
#[derive(Clone, Copy, PartialEq, Eq, Structural, Debug)]
pub enum LexError {
    /// A bracket that is not closed.
    UnclosedBracket(BracketSymbol),
    /// The template ends inside a block (`true`) or a print tag (`false`).
    UnclosedTag(bool),
    UnclosedComment,
    /// No end tag for a raw (`false`) or verbatim (`true`) section.
    UnclosedRaw(bool),
    Unexpected(char),
    UnexpectedCharacter(char),
    /// A line directive whose number (the digits in the range) is too large.
    InvalidLineNumber(usize, usize),
}

/// What the lexer produces: a token or an error, with its line.
#[derive(Clone, Copy, PartialEq, Eq, Structural, Debug)]
pub enum Item {
    Token(Lexeme, usize),
    Error(LexError, usize),
}

/// The state of the lexer.
#[verifier::ext_equal]
pub struct Model {
    pub items: Seq<Item>,
    pub position: int,
    pub positions: Seq<Position>,
    pub cursor: int,
    pub finished: bool,
    pub is_error: bool,
    pub state: State,
    pub states: Seq<State>,
    pub brackets: Seq<Bracket>,
    pub var_line: Option<usize>,
    pub line: int,
}

/// The ranges a lexeme refers to lie within a template of length `len`.
pub open spec fn lexeme_ok(v: Lexeme, len: int) -> bool {
    match v {
        Lexeme::Text(a, b) => a <= b <= len,
        Lexeme::Name(a, b) => a <= b <= len,
        Lexeme::Big(a, b) => a <= b <= len,
        Lexeme::Float(a, b) => a <= b <= len,
        Lexeme::Str(a, b) => a <= b <= len,
        Lexeme::Operator(a, b) => a <= b <= len,
        _ => true,
    }
}

/// An item refers to ranges within a template of length `len`, and a text
/// token is not empty.
pub open spec fn item_ok(it: Item, len: int) -> bool {
    match it {
        Item::Token(Lexeme::Text(a, b), _) => a < b <= len,
        Item::Token(v, _) => lexeme_ok(v, len),
        Item::Error(LexError::InvalidLineNumber(a, b), _) => a <= b <= len,
        Item::Error(_, _) => true,
    }
}

/// The items are well formed, and an error can only be the last item,
/// present exactly when `is_error` holds.
pub open spec fn items_ok(items: Seq<Item>, len: int, is_error: bool) -> bool {
    &&& forall|k: int| 0 <= k < items.len() ==> item_ok(#[trigger] items[k], len)
    &&& forall|k: int| 0 <= k < items.len() && (#[trigger] items[k]) is Error ==> k == items.len() - 1
    &&& is_error <==> (items.len() > 0 && items.last() is Error)
}

/// The tag start markers of the template, from `p` on, in the order they
/// are found when searching from left to right without overlap.
pub open spec fn tag_starts(m: Matchers, s: Seq<char>, p: int) -> Seq<Position>
    decreases s.len() - p,
{
    if p < 0 || p >= s.len() {
        Seq::empty()
    } else {
        match m.tag_start_at(s, p) {
            Some((kind, len, all_len, trim)) => if all_len > 0 {
                seq![
                    Position {
                        loc: p as usize,
                        len: len as usize,
                        all_len: all_len as usize,
                        kind,
                        ws_trim: trim,
                    },
                ] + tag_starts(m, s, p + all_len)
            } else {
                Seq::empty()
            },
            None => tag_starts(m, s, p + 1),
        }
    }
}

/// The state at the start of the template.
pub open spec fn initial(m: Matchers, s: Seq<char>) -> Model {
    Model {
        items: Seq::empty(),
        position: 0,
        positions: tag_starts(m, s, 0),
        cursor: 0,
        finished: false,
        is_error: false,
        state: State::Data,
        states: Seq::empty(),
        brackets: Seq::empty(),
        var_line: None,
        line: 1,
    }
}

/// Adds a token on the current line; an empty text is not added.
pub open spec fn push_token(st: Model, v: Lexeme) -> Model {
    match v {
        Lexeme::Text(a, b) if a == b => st,
        _ => Model { items: st.items.push(Item::Token(v, st.line as usize)), ..st },
    }
}

/// Adds an error; no token follows it.
pub open spec fn push_error(st: Model, e: LexError, line: usize) -> Model {
    Model { items: st.items.push(Item::Error(e, line)), is_error: true, ..st }
}

pub open spec fn push_state(st: Model, state: State) -> Model {
    Model { states: st.states.push(st.state), state, ..st }
}

/// Returns to the previous state.
pub open spec fn pop_state(st: Model) -> Model {
    if st.states.len() > 0 {
        Model { state: st.states.last(), states: st.states.drop_last(), ..st }
    } else {
        Model { state: State::Data, ..st }
    }
}

/// Moves the cursor over `n` characters, counting the lines passed.
pub open spec fn move_cursor(s: Seq<char>, st: Model, n: int) -> Model {
    Model {
        cursor: st.cursor + n,
        line: st.line + count_newlines(s, st.cursor, st.cursor + n),
        ..st
    }
}

/// A number literal at `a..b`.
pub open spec fn number_lexeme(s: Seq<char>, a: int, b: int) -> Lexeme {
    if span(s, a, Klass::Digit) >= b - a {
        if digits_value(s, a, b) <= i64::MAX {
            Lexeme::Int(digits_value(s, a, b) as i64)
        } else {
            Lexeme::Big(a as usize, b as usize)
        }
    } else if digits_value(s, a, a + span(s, a, Klass::Digit)) < f64_overflow() {
        Lexeme::Float(a as usize, b as usize)
    } else {
        Lexeme::Big(a as usize, b as usize)
    }
}

/// The characters that are punctuation.
pub open spec fn is_punctuation(c: char) -> bool {
    c == '(' || c == ')' || c == '[' || c == ']' || c == '{' || c == '}' || c == '?' || c == ':'
        || c == '.' || c == ',' || c == '|'
}

/// Lexes an expression: white space, operator, name, number, punctuation,
/// string, the start of a double quoted string with interpolations, in this
/// order.
pub open spec fn lex_expression(m: Matchers, s: Seq<char>, st0: Model) -> Model {
    let w = span(s, st0.cursor, Klass::White) as int;
    let st = if w > 0 { move_cursor(s, st0, w) } else { st0 };
    let c = st.cursor;
    if w > 0 && st.cursor >= s.len() {
        if st.state == State::Block || st.state == State::Var {
            push_error(
                st,
                LexError::UnclosedTag(st.state == State::Block),
                match st.var_line {
                    Some(l) => l,
                    None => st.line as usize,
                },
            )
        } else {
            st
        }
    } else if m.best_op(s, c) is Some {
        let e = m.operators@[m.best_op(s, c)->0].matches_at(s, c)->0;
        move_cursor(s, push_token(st, Lexeme::Operator(c as usize, trim_end_at(s, c, e) as usize)), e - c)
    } else if name_len(s, c) > 0 {
        move_cursor(s, push_token(st, Lexeme::Name(c as usize, (c + name_len(s, c)) as usize)), name_len(s, c) as int)
    } else if number_len(s, c) > 0 {
        move_cursor(s, push_token(st, number_lexeme(s, c, c + number_len(s, c))), number_len(s, c) as int)
    } else if 0 <= c < s.len() && is_punctuation(s[c]) {
        let ch = s[c];
        if ch == '(' || ch == '[' || ch == '{' {
            let st2 = Model {
                brackets: st.brackets.push(
                    Bracket { open: BracketSymbol::Char(ch), close: closing(BracketSymbol::Char(ch)), line_num: st.line as usize },
                ),
                ..st
            };
            move_cursor(s, push_token(st2, Lexeme::Punctuation(ch)), 1)
        } else if ch == ')' || ch == ']' || ch == '}' {
            if st.brackets.len() == 0 {
                push_error(st, LexError::Unexpected(ch), st.line as usize)
            } else {
                let b = st.brackets.last();
                let st2 = Model { brackets: st.brackets.drop_last(), ..st };
                if b.close != BracketSymbol::Char(ch) {
                    push_error(st2, LexError::UnclosedBracket(b.open), b.line_num)
                } else {
                    move_cursor(s, push_token(st2, Lexeme::Punctuation(ch)), 1)
                }
            }
        } else {
            move_cursor(s, push_token(st, Lexeme::Punctuation(ch)), 1)
        }
    } else if quoted_end(s, c) is Some {
        let e = quoted_end(s, c)->0;
        move_cursor(s, push_token(st, Lexeme::Str((c + 1) as usize, (e - 1) as usize)), e - c)
    } else if 0 <= c < s.len() && s[c] == '"' {
        let st2 = Model {
            brackets: st.brackets.push(
                Bracket { open: BracketSymbol::Char('"'), close: BracketSymbol::Char('"'), line_num: st.line as usize },
            ),
            ..st
        };
        move_cursor(s, push_state(st2, State::String), 1)
    } else {
        push_error(st, LexError::UnexpectedCharacter(if 0 <= c < s.len() { s[c] } else { ' ' }), st.line as usize)
    }
}

/// Lexes inside a block tag: its end, or an expression.
pub open spec fn lex_block(m: Matchers, s: Seq<char>, st: Model) -> Model {
    if st.brackets.len() == 0 && m.block_end_len(s, st.cursor) is Some {
        pop_state(move_cursor(s, push_token(st, Lexeme::BlockEnd), m.block_end_len(s, st.cursor)->0))
    } else {
        lex_expression(m, s, st)
    }
}

/// Lexes inside a print tag: its end, or an expression.
pub open spec fn lex_var(m: Matchers, s: Seq<char>, st: Model) -> Model {
    if st.brackets.len() == 0 && m.var_end_len(s, st.cursor) is Some {
        pop_state(move_cursor(s, push_token(st, Lexeme::VarEnd), m.var_end_len(s, st.cursor)->0))
    } else {
        lex_expression(m, s, st)
    }
}

/// Lexes inside a double quoted string: an interpolation start, a part of
/// the string, or its end.
pub open spec fn lex_string(m: Matchers, s: Seq<char>, st: Model) -> Model {
    let c = st.cursor;
    let p = dq_part(s.subrange(c, s.len() as int));
    if m.interp_start_len(s, c) is Some {
        let st2 = Model {
            brackets: st.brackets.push(
                Bracket { open: BracketSymbol::IntStart, close: BracketSymbol::IntEnd, line_num: st.line as usize },
            ),
            ..st
        };
        push_state(move_cursor(s, push_token(st2, Lexeme::InterpolationStart), m.interp_start_len(s, c)->0), State::Interpolation)
    } else if p > 0 {
        move_cursor(s, push_token(st, Lexeme::Str(c as usize, (c + p) as usize)), p)
    } else if 0 <= c < s.len() && s[c] == '"' {
        if st.brackets.len() == 0 {
            move_cursor(s, pop_state(st), 1)
        } else {
            let b = st.brackets.last();
            let st2 = Model { brackets: st.brackets.drop_last(), ..st };
            if b.close == BracketSymbol::Char('"') {
                move_cursor(s, pop_state(st2), 1)
            } else {
                push_error(st2, LexError::UnclosedBracket(b.open), b.line_num)
            }
        }
    } else {
        push_error(st, LexError::UnexpectedCharacter(if 0 <= c < s.len() { s[c] } else { ' ' }), st.line as usize)
    }
}

/// Lexes inside an interpolation: its end, or an expression.
pub open spec fn lex_interpolation(m: Matchers, s: Seq<char>, st: Model) -> Model {
    if st.brackets.len() > 0 && st.brackets.last().open == BracketSymbol::IntStart
        && m.interp_end_len(s, st.cursor) is Some {
        let st2 = Model { brackets: st.brackets.drop_last(), ..st };
        pop_state(move_cursor(s, push_token(st2, Lexeme::InterpolationEnd), m.interp_end_len(s, st.cursor)->0))
    } else {
        lex_expression(m, s, st)
    }
}

/// Skips a comment.
pub open spec fn lex_comment(m: Matchers, s: Seq<char>, st: Model) -> Model {
    match m.first_comment_end(s, st.cursor) {
        Some(e) => move_cursor(s, st, e - st.cursor),
        None => push_error(st, LexError::UnclosedComment, st.line as usize),
    }
}

/// Lexes the text of a raw or verbatim section. The cursor moves by the
/// length of the end tag.
pub open spec fn lex_raw_data(m: Matchers, s: Seq<char>, st: Model, verbatim: bool) -> Model {
    let word = if verbatim { m.word_endverbatim@ } else { m.word_endraw@ };
    match m.first_raw_end(s, st.cursor, word) {
        Some((a, n, dash)) => {
            let st2 = move_cursor(s, st, n);
            let e = if dash { trim_end_at(s, st.cursor, a) } else { a };
            push_token(st2, Lexeme::Text(st.cursor as usize, e as usize))
        },
        None => push_error(st, LexError::UnclosedRaw(verbatim), st.line as usize),
    }
}

/// Lexes the text up to the next tag and the start of that tag.
pub open spec fn lex_data(m: Matchers, s: Seq<char>, st: Model) -> Model {
    if st.position >= st.positions.len() {
        Model { cursor: s.len() as int, ..push_token(st, Lexeme::Text(st.cursor as usize, s.len() as usize)) }
    } else {
        let k = first_position_from(st.positions, st.position, st.cursor);
        if k >= st.positions.len() {
            Model { position: st.positions.len() as int, ..st }
        } else {
            let p = st.positions[k];
            let st1 = Model { position: k + 1, ..st };
            let te = if p.ws_trim { trim_end_at(s, st.cursor, p.loc as int) } else { p.loc as int };
            let st2 = move_cursor(s, push_token(st1, Lexeme::Text(st.cursor as usize, te as usize)), p.loc - st.cursor + p.all_len);
            match p.kind {
                TagKind::Comment => lex_comment(m, s, st2),
                TagKind::Block => {
                    let c = st2.cursor;
                    if m.block_raw_len(s, c) is Some {
                        let (n, verbatim) = m.block_raw_len(s, c)->0;
                        lex_raw_data(m, s, move_cursor(s, st2, n), verbatim)
                    } else if m.block_line_len(s, c) is Some {
                        let (n, d0, d) = m.block_line_len(s, c)->0;
                        let st3 = move_cursor(s, st2, n);
                        if digits_value(s, d0, d0 + d) + count_newlines(s, st3.cursor, s.len() as int) <= usize::MAX {
                            Model { line: digits_value(s, d0, d0 + d) as int, ..st3 }
                        } else {
                            push_error(st3, LexError::InvalidLineNumber(d0 as usize, (d0 + d) as usize), st3.line as usize)
                        }
                    } else {
                        Model { var_line: Some(st2.line as usize), ..push_state(push_token(st2, Lexeme::BlockStart), State::Block) }
                    }
                },
                TagKind::Var => Model { var_line: Some(st2.line as usize), ..push_state(push_token(st2, Lexeme::VarStart), State::Var) },
            }
        }
    }
}

/// The first index from `k` on of a marker that is not before `cursor`.
pub open spec fn first_position_from(ps: Seq<Position>, k: int, cursor: int) -> int
    decreases ps.len() - k,
{
    if k < 0 || k >= ps.len() {
        ps.len() as int
    } else if ps[k].loc >= cursor {
        k
    } else {
        first_position_from(ps, k + 1, cursor)
    }
}

/// The marker `first_position_from` finds is not before the cursor.
pub proof fn lemma_first_position_from(ps: Seq<Position>, k: int, cursor: int)
    ensures
        first_position_from(ps, k, cursor) < ps.len() ==> {
            &&& 0 <= first_position_from(ps, k, cursor)
            &&& ps[first_position_from(ps, k, cursor)].loc >= cursor
        },
    decreases ps.len() - k,
{
    if 0 <= k < ps.len() && ps[k].loc < cursor {
        lemma_first_position_from(ps, k + 1, cursor);
    }
}

/// The end of a raw section is found at or after where the search starts,
/// and within the template.
pub proof fn lemma_first_raw_end(m: Matchers, s: Seq<char>, p: int, word: Seq<char>)
    ensures
        m.first_raw_end(s, p, word) matches Some((a, _, _)) ==> 0 <= p <= a < s.len(),
    decreases s.len() - p,
{
    if 0 <= p < s.len() && m.raw_end_at(s, p, word) is None {
        lemma_first_raw_end(m, s, p + 1, word);
    }
}

/// The item is a text token that starts at `a0`.
pub open spec fn text_from(it: Item, a0: int) -> bool {
    it matches Item::Token(Lexeme::Text(a, _), _) && a == a0
}

/// When the tag that ends a text carries the trim mark (`{{-`, `{%-`,
/// `{#-`), the text token before the tag stops before the text's trailing
/// white space: only white space is dropped, so the token ends with a
/// character that is not white space, and a text of white space alone
/// gives no token.
pub proof fn law_trim_before_tag(m: Matchers, s: Seq<char>, st: Model)
    requires
        s.len() <= usize::MAX,
        st.position < st.positions.len(),
        0 <= st.cursor,
        first_position_from(st.positions, st.position, st.cursor) < st.positions.len(),
        st.positions[first_position_from(st.positions, st.position, st.cursor)].ws_trim,
        st.positions[first_position_from(st.positions, st.position, st.cursor)].loc <= s.len(),
        st.positions[first_position_from(st.positions, st.position, st.cursor)].all_len > 0,
    ensures
        ({
            let loc = st.positions[first_position_from(st.positions, st.position, st.cursor)].loc as int;
            let r = lex_data(m, s, st);
            let n = st.items.len() as int;
            &&& forall|a: usize, b: usize, l: usize|
                r.items.len() > n && r.items[n] == Item::Token(Lexeme::Text(a, b), l) && a == st.cursor ==> {
                    &&& st.cursor < b <= loc
                    &&& !is_white(s[b - 1])
                    &&& forall|j: int| b <= j < loc ==> is_white(#[trigger] s[j])
                }
            &&& (exists|j: int| st.cursor <= j < loc && !is_white(#[trigger] s[j])) ==> r.items.len() > n
                && text_from(r.items[n], st.cursor)
        }),
{
    let k = first_position_from(st.positions, st.position, st.cursor);
    lemma_first_position_from(st.positions, st.position, st.cursor);
    let p = st.positions[k];
    let loc = p.loc as int;
    let n = st.items.len() as int;
    lemma_trim_end_white(s, st.cursor, loc);
    let te = trim_end_at(s, st.cursor, loc);
    let st1 = Model { position: k + 1, ..st };
    let st2 = move_cursor(s, push_token(st1, Lexeme::Text(st.cursor as usize, te as usize)), p.loc - st.cursor + p.all_len);
    let r = lex_data(m, s, st);
    assert(st2.cursor > st.cursor);
    if te > st.cursor {
        assert(st2.items == st.items.push(Item::Token(Lexeme::Text(st.cursor as usize, te as usize), st.line as usize)));
    } else {
        assert(st2.items == st.items);
    }
    // What follows the text only adds items after it, and a text it adds
    // (that of a raw section) starts after the tag.
    assert(r.items.len() >= st2.items.len());
    assert(forall|j: int| 0 <= j < st2.items.len() ==> r.items[j] == st2.items[j]);
    match p.kind {
        TagKind::Block => {
            let c = st2.cursor;
            if m.block_raw_len(s, c) is Some {
                let (nr, verbatim) = m.block_raw_len(s, c)->0;
                let st3 = move_cursor(s, st2, nr);
                let word = if verbatim { m.word_endverbatim@ } else { m.word_endraw@ };
                lemma_first_raw_end(m, s, st3.cursor, word);
                assert(st3.cursor >= st2.cursor);
            }
        },
        _ => {},
    }
    assert(r.items.len() > st2.items.len() ==> !text_from(r.items[st2.items.len() as int], st.cursor));
    if exists|j: int| st.cursor <= j < loc && !is_white(#[trigger] s[j]) {
        let j = choose|j: int| st.cursor <= j < loc && !is_white(#[trigger] s[j]);
        assert(te > st.cursor);
    }
}

/// One round of the lexer.
pub open spec fn step(m: Matchers, s: Seq<char>, st: Model) -> Model {
    if st.is_error {
        Model { finished: true, ..st }
    } else if st.cursor >= s.len() {
        if st.brackets.len() > 0 {
            let b = st.brackets.last();
            push_error(Model { brackets: st.brackets.drop_last(), ..st }, LexError::UnclosedBracket(b.open), b.line_num)
        } else {
            Model { finished: true, ..st }
        }
    } else {
        match st.state {
            State::Data => lex_data(m, s, st),
            State::Block => lex_block(m, s, st),
            State::Var => lex_var(m, s, st),
            State::String => lex_string(m, s, st),
            State::Interpolation => lex_interpolation(m, s, st),
        }
    }
}

/// `b` comes strictly before `a` in the order in which the lexer runs.
pub open spec fn progressed(b: Model, a: Model, len: int) -> bool {
    let fa = if a.finished { 0int } else { 1 };
    let fb = if b.finished { 0int } else { 1 };
    let ea = if a.is_error { 0int } else { 1 };
    let eb = if b.is_error { 0int } else { 1 };
    ||| fb < fa
    ||| fb == fa && eb < ea
    ||| fb == fa && eb == ea && 0 <= len - b.cursor < len - a.cursor
    ||| fb == fa && eb == ea && b.cursor == a.cursor && 0 <= b.positions.len() - b.position < a.positions.len() - a.position
}

/// Runs the lexer until it has finished.
pub open spec fn run(m: Matchers, s: Seq<char>, st: Model) -> Model
    decreases (if st.finished { 0int } else { 1 }), (if st.is_error { 0int } else { 1 }), s.len() - st.cursor, st.positions.len() - st.position,
{
    if st.finished {
        st
    } else {
        let next = step(m, s, st);
        if progressed(next, st, s.len() as int) {
            run(m, s, next)
        } else {
            next
        }
    }
}

/// The items that the template `s` lexes to.
pub open spec fn lex_all(m: Matchers, s: Seq<char>) -> Seq<Item> {
    run(m, s, initial(m, s)).items
}

/// No tag starts at any position from `p` on, so none is found.
pub proof fn lemma_no_tag_starts(m: Matchers, s: Seq<char>, p: int)
    requires
        forall|q: int| 0 <= q < s.len() ==> #[trigger] m.tag_start_at(s, q) is None,
    ensures
        tag_starts(m, s, p) == Seq::<Position>::empty(),
    decreases s.len() - p,
{
    if 0 <= p < s.len() {
        assert(m.tag_start_at(s, p) is None);
        lemma_no_tag_starts(m, s, p + 1);
    }
}

/// A template in which no tag starts is all text: it lexes to one text
/// token holding all of it on the first line, or to nothing when it is
/// empty.
pub proof fn law_plain_text(m: Matchers, s: Seq<char>)
    requires
        forall|q: int| 0 <= q < s.len() ==> #[trigger] m.tag_start_at(s, q) is None,
        s.len() <= usize::MAX,
    ensures
        lex_all(m, s) == if s.len() == 0 {
            Seq::<Item>::empty()
        } else {
            seq![Item::Token(Lexeme::Text(0, s.len() as usize), 1)]
        },
{
    lemma_no_tag_starts(m, s, 0);
    let st0 = initial(m, s);
    assert(st0.positions.len() == 0);
    let st1 = step(m, s, st0);
    if s.len() == 0 {
        assert(st1.finished);
        assert(run(m, s, st1) == st1);
        assert(st1.items =~= Seq::<Item>::empty());
    } else {
        assert(st1 == Model { cursor: s.len() as int, ..push_token(st0, Lexeme::Text(0, s.len() as usize)) });
        assert(st1.items == seq![Item::Token(Lexeme::Text(0, s.len() as usize), 1)]);
        assert(progressed(st1, st0, s.len() as int));
        let st2 = step(m, s, st1);
        assert(st2.finished);
        assert(st2.items == st1.items);
        assert(progressed(st2, st1, s.len() as int));
        assert(run(m, s, st2) == st2);
        assert(run(m, s, st1) == st2);
    }
}

} // verus!

verus! {

/// The executable state of the lexer.
pub struct Scanner {
    pub items: Vec<Item>,
    pub position: usize,
    pub positions: Vec<Position>,
    pub cursor: usize,
    pub finished: bool,
    pub is_error: bool,
    pub state: State,
    pub states: Vec<State>,
    pub brackets: Vec<Bracket>,
    pub var_line: Option<usize>,
    pub line: usize,
}

impl Scanner {
    pub open spec fn model(&self) -> Model {
        Model {
            items: self.items@,
            position: self.position as int,
            positions: self.positions@,
            cursor: self.cursor as int,
            finished: self.finished,
            is_error: self.is_error,
            state: self.state,
            states: self.states@,
            brackets: self.brackets@,
            var_line: self.var_line,
            line: self.line as int,
        }
    }

    /// The cursor and the markers stay within the template, and the lines
    /// that remain can be counted without overflow.
    pub open spec fn inv(&self, s: Seq<char>) -> bool {
        &&& self.cursor <= s.len()
        &&& self.position <= self.positions@.len()
        &&& self.line + count_newlines(s, self.cursor as int, s.len() as int) <= usize::MAX
        &&& items_ok(self.items@, s.len() as int, self.is_error)
        &&& forall|k: int|
            0 <= k < self.positions@.len() ==> {
                &&& (#[trigger] self.positions@[k]).loc + self.positions@[k].all_len <= s.len()
                &&& self.positions@[k].all_len > 0
            }
    }

    fn push_token(&mut self, v: Lexeme, code: &Vec<char>)
        requires
            lexeme_ok(v, code@.len() as int),
            items_ok(old(self).items@, code@.len() as int, old(self).is_error),
            !old(self).is_error,
        ensures
            final(self).model() == push_token(old(self).model(), v),
            items_ok(final(self).items@, code@.len() as int, final(self).is_error),
    {
        if let Lexeme::Text(a, b) = v {
            if a == b {
                return;
            }
        }
        let line = self.line;
        let ghost prev = self.items@;
        self.items.push(Item::Token(v, line));
        assert(forall|k: int| 0 <= k < prev.len() ==> self.items@[k] == prev[k]);
    }

    fn push_error(&mut self, e: LexError, line: usize, code: &Vec<char>)
        requires
            item_ok(Item::Error(e, line), code@.len() as int),
            items_ok(old(self).items@, code@.len() as int, old(self).is_error),
            !old(self).is_error,
        ensures
            final(self).model() == push_error(old(self).model(), e, line),
            items_ok(final(self).items@, code@.len() as int, final(self).is_error),
    {
        let ghost prev = self.items@;
        self.items.push(Item::Error(e, line));
        assert(forall|k: int| 0 <= k < prev.len() ==> self.items@[k] == prev[k]);
        self.is_error = true;
    }

    fn push_state(&mut self, state: State)
        ensures
            final(self).model() == push_state(old(self).model(), state),
    {
        let cur = self.state;
        self.states.push(cur);
        self.state = state;
    }

    fn pop_state(&mut self)
        ensures
            final(self).model() == pop_state(old(self).model()),
    {
        match self.states.pop() {
            Some(state) => {
                self.state = state;
            },
            None => {
                self.state = State::Data;
            },
        }
    }

    fn move_cursor(&mut self, code: &Vec<char>, n: usize)
        requires
            old(self).cursor + n <= code@.len(),
            old(self).line + count_newlines(code@, old(self).cursor as int, code@.len() as int) <= usize::MAX,
        ensures
            final(self).model() == move_cursor(code@, old(self).model(), n as int),
            final(self).line + count_newlines(code@, final(self).cursor as int, code@.len() as int) <= usize::MAX,
    {
        let prev = self.cursor;
        let len = code.len();
        assert(prev + n <= len);
        let lines = newlines_in(code, prev, prev + n);
        proof {
            crate::chars::lemma_count_newlines_split(code@, prev as int, prev + n, len as int);
        }
        self.cursor = prev + n;
        self.line = self.line + lines;
    }
}

} // verus!

verus! {

impl Scanner {
    fn lex_expression(&mut self, m: &Matchers, code: &Vec<char>)
        requires
            m.wf(),
            old(self).inv(code@),
            old(self).cursor < code@.len(),
            !old(self).is_error,
            !old(self).finished,
        ensures
            final(self).model() == lex_expression(*m, code@, old(self).model()),
            final(self).inv(code@),
            progressed(final(self).model(), old(self).model(), code@.len() as int),
            !final(self).finished,
    {
        let ghost st0 = self.model();
        let w = span_of(code, self.cursor, Klass::White);
        if w > 0 {
            self.move_cursor(code, w);
            if self.cursor >= code.len() {
                if self.state == State::Block || self.state == State::Var {
                    let line = match self.var_line {
                        Some(l) => l,
                        None => self.line,
                    };
                    let is_block = self.state == State::Block;
                    self.push_error(LexError::UnclosedTag(is_block), line, code);
                }
                return;
            }
        }
        let ghost st = self.model();
        let c = self.cursor;
        match m.operator_at(code, c) {
            Some((_k, e)) => {
                let te = trim_end(code, c, e);
                self.push_token(Lexeme::Operator(c, te), code);
                self.move_cursor(code, e - c);
                return;
            },
            None => {},
        }
        let n = name_len_of(code, c);
        if n > 0 {
            self.push_token(Lexeme::Name(c, c + n), code);
            self.move_cursor(code, n);
            return;
        }
        let n = number_len_of(code, c);
        if n > 0 {
            let d = span_of(code, c, Klass::Digit);
            proof {
                crate::chars::lemma_span_bound(code@, c as int, Klass::Digit);
            }
            let lexeme = if d >= n {
                match parse_digits(code, c, c + n, 9223372036854775807u64) {
                    Some(v) => Lexeme::Int(v as i64),
                    None => Lexeme::Big(c, c + n),
                }
            } else if int_part_finite(code, c, c + d) {
                Lexeme::Float(c, c + n)
            } else {
                Lexeme::Big(c, c + n)
            };
            assert(lexeme == number_lexeme(code@, c as int, c + n));
            self.push_token(lexeme, code);
            self.move_cursor(code, n);
            return;
        }
        let ch = code[c];
        if ch == '(' || ch == ')' || ch == '[' || ch == ']' || ch == '{' || ch == '}' || ch == '?'
            || ch == ':' || ch == '.' || ch == ',' || ch == '|' {
            let line = self.line;
            if ch == '(' || ch == '[' || ch == '{' {
                self.brackets.push(Bracket::from_char(ch, line));
            } else if ch == ')' || ch == ']' || ch == '}' {
                match self.brackets.pop() {
                    Some(expect) => {
                        if expect.close != BracketSymbol::Char(ch) {
                            self.push_error(LexError::UnclosedBracket(expect.open), expect.line_num, code);
                            return;
                        }
                    },
                    None => {
                        self.push_error(LexError::Unexpected(ch), line, code);
                        return;
                    },
                }
            }
            self.push_token(Lexeme::Punctuation(ch), code);
            self.move_cursor(code, 1);
            return;
        }
        match quoted_end_of(code, c) {
            Some(e) => {
                self.push_token(Lexeme::Str(c + 1, e - 1), code);
                self.move_cursor(code, e - c);
                return;
            },
            None => {},
        }
        if ch == '"' {
            let line = self.line;
            self.brackets.push(Bracket { open: BracketSymbol::Char('"'), close: BracketSymbol::Char('"'), line_num: line });
            self.push_state(State::String);
            self.move_cursor(code, 1);
            return;
        }
        let line = self.line;
        self.push_error(LexError::UnexpectedCharacter(ch), line, code);
    }

    fn lex_block(&mut self, m: &Matchers, code: &Vec<char>)
        requires
            m.wf(),
            old(self).inv(code@),
            old(self).cursor < code@.len(),
            !old(self).is_error,
            !old(self).finished,
        ensures
            final(self).model() == lex_block(*m, code@, old(self).model()),
            final(self).inv(code@),
            progressed(final(self).model(), old(self).model(), code@.len() as int),
            !final(self).finished,
    {
        if self.brackets.len() == 0 {
            match m.block_end_at(code, self.cursor) {
                Some(n) => {
                    self.push_token(Lexeme::BlockEnd, code);
                    self.move_cursor(code, n);
                    self.pop_state();
                    return;
                },
                None => {},
            }
        }
        self.lex_expression(m, code);
    }

    fn lex_var(&mut self, m: &Matchers, code: &Vec<char>)
        requires
            m.wf(),
            old(self).inv(code@),
            old(self).cursor < code@.len(),
            !old(self).is_error,
            !old(self).finished,
        ensures
            final(self).model() == lex_var(*m, code@, old(self).model()),
            final(self).inv(code@),
            progressed(final(self).model(), old(self).model(), code@.len() as int),
            !final(self).finished,
    {
        if self.brackets.len() == 0 {
            match m.var_end_at(code, self.cursor) {
                Some(n) => {
                    self.push_token(Lexeme::VarEnd, code);
                    self.move_cursor(code, n);
                    self.pop_state();
                    return;
                },
                None => {},
            }
        }
        self.lex_expression(m, code);
    }

    fn lex_string(&mut self, m: &Matchers, code: &Vec<char>)
        requires
            m.wf(),
            old(self).inv(code@),
            old(self).cursor < code@.len(),
            !old(self).is_error,
            !old(self).finished,
        ensures
            final(self).model() == lex_string(*m, code@, old(self).model()),
            final(self).inv(code@),
            progressed(final(self).model(), old(self).model(), code@.len() as int),
            !final(self).finished,
    {
        let c = self.cursor;
        match m.interp_start_of(code, c) {
            Some(n) => {
                let line = self.line;
                self.brackets.push(Bracket { open: BracketSymbol::IntStart, close: BracketSymbol::IntEnd, line_num: line });
                self.push_token(Lexeme::InterpolationStart, code);
                self.move_cursor(code, n);
                self.push_state(State::Interpolation);
                return;
            },
            None => {},
        }
        let p = dq_part_of(code, c);
        if p > 0 {
            self.push_token(Lexeme::Str(c, c + p), code);
            self.move_cursor(code, p);
            return;
        }
        if code[c] == '"' {
            match self.brackets.pop() {
                None => {
                    self.pop_state();
                    self.move_cursor(code, 1);
                },
                Some(b) => {
                    if b.close == BracketSymbol::Char('"') {
                        self.pop_state();
                        self.move_cursor(code, 1);
                    } else {
                        self.push_error(LexError::UnclosedBracket(b.open), b.line_num, code);
                    }
                },
            }
            return;
        }
        let line = self.line;
        self.push_error(LexError::UnexpectedCharacter(code[c]), line, code);
    }

    fn lex_interpolation(&mut self, m: &Matchers, code: &Vec<char>)
        requires
            m.wf(),
            old(self).inv(code@),
            old(self).cursor < code@.len(),
            !old(self).is_error,
            !old(self).finished,
        ensures
            final(self).model() == lex_interpolation(*m, code@, old(self).model()),
            final(self).inv(code@),
            progressed(final(self).model(), old(self).model(), code@.len() as int),
            !final(self).finished,
    {
        let nb = self.brackets.len();
        if nb > 0 && self.brackets[nb - 1].open == BracketSymbol::IntStart {
            match m.interp_end_of(code, self.cursor) {
                Some(n) => {
                    self.brackets.pop();
                    self.push_token(Lexeme::InterpolationEnd, code);
                    self.move_cursor(code, n);
                    self.pop_state();
                    return;
                },
                None => {},
            }
        }
        self.lex_expression(m, code);
    }
}

} // verus!

verus! {

impl Scanner {
    fn lex_comment(&mut self, m: &Matchers, code: &Vec<char>)
        requires
            m.wf(),
            old(self).inv(code@),
            !old(self).is_error,
        ensures
            final(self).model() == lex_comment(*m, code@, old(self).model()),
            final(self).inv(code@),
            final(self).cursor >= old(self).cursor,
            final(self).finished == old(self).finished,
            old(self).is_error ==> final(self).is_error,
    {
        let c = self.cursor;
        match m.find_comment_end(code, c) {
            Some(e) => {
                self.move_cursor(code, e - c);
            },
            None => {
                let line = self.line;
                self.push_error(LexError::UnclosedComment, line, code);
            },
        }
    }

    fn lex_raw_data(&mut self, m: &Matchers, code: &Vec<char>, verbatim: bool)
        requires
            m.wf(),
            old(self).inv(code@),
            !old(self).is_error,
        ensures
            final(self).model() == lex_raw_data(*m, code@, old(self).model(), verbatim),
            final(self).inv(code@),
            final(self).cursor >= old(self).cursor,
            final(self).finished == old(self).finished,
            old(self).is_error ==> final(self).is_error,
    {
        let c = self.cursor;
        let found = if verbatim {
            m.find_raw_end(code, c, &m.word_endverbatim)
        } else {
            m.find_raw_end(code, c, &m.word_endraw)
        };
        match found {
            Some((a, n, dash)) => {
                self.move_cursor(code, n);
                let e = if dash { trim_end(code, c, a) } else { a };
                self.push_token(Lexeme::Text(c, e), code);
            },
            None => {
                let line = self.line;
                self.push_error(LexError::UnclosedRaw(verbatim), line, code);
            },
        }
    }

    fn lex_data(&mut self, m: &Matchers, code: &Vec<char>)
        requires
            m.wf(),
            old(self).inv(code@),
            old(self).cursor < code@.len(),
            !old(self).is_error,
            !old(self).finished,
        ensures
            final(self).model() == lex_data(*m, code@, old(self).model()),
            final(self).inv(code@),
            progressed(final(self).model(), old(self).model(), code@.len() as int),
            !final(self).finished,
    {
        let plen = self.positions.len();
        if self.position >= plen {
            let c = self.cursor;
            self.push_token(Lexeme::Text(c, code.len()), code);
            self.cursor = code.len();
            return;
        }
        let mut k = self.position;
        while k < plen && self.positions[k].loc < self.cursor
            invariant
                plen == self.positions@.len(),
                self.position <= k <= plen,
                first_position_from(self.positions@, self.position as int, self.cursor as int)
                    == first_position_from(self.positions@, k as int, self.cursor as int),
            decreases plen - k,
        {
            k += 1;
        }
        if k >= plen {
            self.position = plen;
            return;
        }
        let p = self.positions[k];
        self.position = k + 1;
        let c = self.cursor;
        let te = if p.ws_trim { trim_end(code, c, p.loc) } else { p.loc };
        self.push_token(Lexeme::Text(c, te), code);
        assert(self.positions@[k as int] == p);
        assert(p.loc >= c);
        assert(p.loc + p.all_len <= code@.len());
        let total = code.len();
        assert(total == code@.len());
        self.move_cursor(code, p.loc - c + p.all_len);
        match p.kind {
            TagKind::Comment => {
                self.lex_comment(m, code);
            },
            TagKind::Block => {
                let c2 = self.cursor;
                match m.block_raw_of(code, c2) {
                    Some((n, verbatim)) => {
                        self.move_cursor(code, n);
                        self.lex_raw_data(m, code, verbatim);
                        return;
                    },
                    None => {},
                }
                match m.block_line_of(code, c2) {
                    Some((n, d0, d)) => {
                        self.move_cursor(code, n);
                        let remaining = newlines_in(code, self.cursor, code.len());
                        proof {
                            crate::chars::lemma_span_bound(code@, d0 as int, Klass::Digit);
                        }
                        match parse_digits(code, d0, d0 + d, (usize::MAX - remaining) as u64) {
                            Some(v) => {
                                self.line = v as usize;
                            },
                            None => {
                                let line = self.line;
                                self.push_error(LexError::InvalidLineNumber(d0, d0 + d), line, code);
                            },
                        }
                        return;
                    },
                    None => {},
                }
                self.push_token(Lexeme::BlockStart, code);
                self.push_state(State::Block);
                self.var_line = Some(self.line);
            },
            TagKind::Var => {
                self.push_token(Lexeme::VarStart, code);
                self.push_state(State::Var);
                self.var_line = Some(self.line);
            },
        }
    }

    /// One round of the lexer.
    fn step(&mut self, m: &Matchers, code: &Vec<char>)
        requires
            m.wf(),
            old(self).inv(code@),
            !old(self).finished,
        ensures
            final(self).model() == step(*m, code@, old(self).model()),
            final(self).inv(code@),
            progressed(final(self).model(), old(self).model(), code@.len() as int),
    {
        if self.is_error {
            self.finished = true;
            return;
        }
        if self.cursor >= code.len() {
            match self.brackets.pop() {
                Some(b) => {
                    self.push_error(LexError::UnclosedBracket(b.open), b.line_num, code);
                },
                None => {
                    self.finished = true;
                },
            }
            return;
        }
        match self.state {
            State::Data => self.lex_data(m, code),
            State::Block => self.lex_block(m, code),
            State::Var => self.lex_var(m, code),
            State::String => self.lex_string(m, code),
            State::Interpolation => self.lex_interpolation(m, code),
        }
    }
}

/// Finds the tag start markers of the template.
fn find_tag_starts(m: &Matchers, code: &Vec<char>) -> (r: Vec<Position>)
    requires
        m.wf(),
    ensures
        r@ == tag_starts(*m, code@, 0),
        forall|k: int|
            0 <= k < r@.len() ==> {
                &&& (#[trigger] r@[k]).loc + r@[k].all_len <= code@.len()
                &&& r@[k].all_len > 0
            },
{
    let mut r: Vec<Position> = Vec::new();
    let mut p: usize = 0;
    while p < code.len()
        invariant
            p <= code@.len(),
            r@ + tag_starts(*m, code@, p as int) == tag_starts(*m, code@, 0),
            forall|k: int|
                0 <= k < r@.len() ==> {
                    &&& (#[trigger] r@[k]).loc + r@[k].all_len <= code@.len()
                    &&& r@[k].all_len > 0
                },
        decreases code@.len() - p,
    {
        match m.tag_start_of(code, p) {
            Some((kind, len, all_len, trim)) => {
                if all_len == 0 {
                    assert(tag_starts(*m, code@, p as int) =~= Seq::<Position>::empty());
                    assert(r@ =~= r@ + tag_starts(*m, code@, p as int));
                    return r;
                }
                let pos = Position { loc: p, len, all_len, kind, ws_trim: trim };
                let ghost prev = r@;
                r.push(pos);
                assert(prev + tag_starts(*m, code@, p as int) =~= r@ + tag_starts(*m, code@, p + all_len));
                p = p + all_len;
            },
            None => {
                p = p + 1;
            },
        }
    }
    assert(tag_starts(*m, code@, p as int) =~= Seq::<Position>::empty());
    assert(r@ =~= r@ + tag_starts(*m, code@, p as int));
    r
}

/// Lexes the whole template.
pub fn lex(m: &Matchers, code: &Vec<char>) -> (items: Vec<Item>)
    requires
        m.wf(),
        code@.len() < usize::MAX,
    ensures
        items@ == lex_all(*m, code@),
        forall|k: int| 0 <= k < items@.len() ==> item_ok(#[trigger] items@[k], code@.len() as int),
        forall|k: int| 0 <= k < items@.len() && (#[trigger] items@[k]) is Error ==> k == items@.len() - 1,
{
    let positions = find_tag_starts(m, code);
    let mut sc = Scanner {
        items: Vec::new(),
        position: 0,
        positions,
        cursor: 0,
        finished: false,
        is_error: false,
        state: State::Data,
        states: Vec::new(),
        brackets: Vec::new(),
        var_line: None,
        line: 1,
    };
    assert(sc.model() == initial(*m, code@));
    assert(items_ok(sc.items@, code@.len() as int, sc.is_error));
    proof {
        crate::chars::lemma_count_newlines_bound(code@, 0, code@.len() as int);
    }
    while !sc.finished
        invariant
            m.wf(),
            sc.inv(code@),
            run(*m, code@, sc.model()) == run(*m, code@, initial(*m, code@)),
        decreases (if sc.finished { 0int } else { 1 }), (if sc.is_error { 0int } else { 1 }), code@.len() - sc.cursor, sc.positions@.len() - sc.position,
    {
        sc.step(m, code);
    }
    sc.items
}

} // verus!

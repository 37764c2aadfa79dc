//! The operators and tags of the Twig language.
use vstd::prelude::*;
use crate::environment::{Environment, operator_is};
use crate::extension::Extension;
use crate::operator::{Associativity, Operator, OperatorKind, OperatorOptions};
use crate::environment::keyed::{Keyed, keyed_table, keys_distinct, lemma_key_position, lemma_key_position_distinct, lemma_keyed_table_distinct, lemma_keyed_table_step};
use crate::nodes::TokenParser;

pub mod error;
pub mod token_parsers;

verus! {

/// The operators of the core extension: symbol, precedence and kind.
pub open spec fn core_operator_table() -> Seq<(Seq<char>, u16, OperatorKind)> {
    let u = OperatorKind::Unary;
    let l = OperatorKind::Binary(Associativity::Left);
    let r = OperatorKind::Binary(Associativity::Right);
    seq![
        ("not"@, 50u16, u),
        ("-"@, 500u16, u),
        ("+"@, 500u16, u),
        ("or"@, 10u16, l),
        ("and"@, 15u16, l),
        ("b-or"@, 16u16, l),
        ("b-xor"@, 17u16, l),
        ("b-and"@, 18u16, l),
        ("=="@, 20u16, l),
        ("!="@, 20u16, l),
        ("<"@, 20u16, l),
        (">"@, 20u16, l),
        (">="@, 20u16, l),
        ("<="@, 20u16, l),
        ("not in"@, 20u16, l),
        ("in"@, 20u16, l),
        ("matches"@, 20u16, l),
        ("starts with"@, 20u16, l),
        ("ends with"@, 20u16, l),
        (".."@, 25u16, l),
        ("+"@, 30u16, l),
        ("-"@, 30u16, l),
        ("~"@, 40u16, l),
        ("*"@, 60u16, l),
        ("/"@, 60u16, l),
        ("//"@, 60u16, l),
        ("%"@, 60u16, l),
        ("is"@, 100u16, l),
        ("is not"@, 100u16, l),
        ("**"@, 200u16, r),
    ]
}

/// No core operator binds tighter than 500.
pub proof fn lemma_core_precedences()
    ensures
        forall|k: int| 0 <= k < core_operator_table().len() ==> #[trigger] core_operator_table()[k].1 <= 500,
{
    assert forall|k: int| 0 <= k < core_operator_table().len() implies #[trigger] core_operator_table()[k].1 <= 500 by {}
}

/// The parser's operator table for the core operators: one entry per
/// symbol, where the symbol first comes in `core_operator_table`, holding
/// the last entry given for it. The binary `-` and `+` come after the
/// unary ones, so they are the ones kept.
pub open spec fn core_parsing_table() -> Seq<(Seq<char>, u16, OperatorKind)> {
    let u = OperatorKind::Unary;
    let l = OperatorKind::Binary(Associativity::Left);
    let r = OperatorKind::Binary(Associativity::Right);
    seq![
        ("not"@, 50u16, u),
        ("-"@, 30u16, l),
        ("+"@, 30u16, l),
        ("or"@, 10u16, l),
        ("and"@, 15u16, l),
        ("b-or"@, 16u16, l),
        ("b-xor"@, 17u16, l),
        ("b-and"@, 18u16, l),
        ("=="@, 20u16, l),
        ("!="@, 20u16, l),
        ("<"@, 20u16, l),
        (">"@, 20u16, l),
        (">="@, 20u16, l),
        ("<="@, 20u16, l),
        ("not in"@, 20u16, l),
        ("in"@, 20u16, l),
        ("matches"@, 20u16, l),
        ("starts with"@, 20u16, l),
        ("ends with"@, 20u16, l),
        (".."@, 25u16, l),
        ("~"@, 40u16, l),
        ("*"@, 60u16, l),
        ("/"@, 60u16, l),
        ("//"@, 60u16, l),
        ("%"@, 60u16, l),
        ("is"@, 100u16, l),
        ("is not"@, 100u16, l),
        ("**"@, 200u16, r),
    ]
}

/// The options are the entry `e`: symbol, precedence and kind.
pub open spec fn options_are(o: OperatorOptions, e: (Seq<char>, u16, OperatorKind)) -> bool {
    o.value@ == e.0 && o.precedence == e.1 && o.kind == e.2
}

/// The symbols of the parser's core table are distinct.
proof fn lemma_core_symbols_distinct()
    ensures
        forall|i: int, j: int|
            0 <= i < j < core_parsing_table().len() ==> #[trigger] core_parsing_table()[i].0
                != #[trigger] core_parsing_table()[j].0,
{
    reveal_strlit("not");
    reveal_strlit("-");
    reveal_strlit("+");
    reveal_strlit("or");
    reveal_strlit("and");
    reveal_strlit("b-or");
    reveal_strlit("b-xor");
    reveal_strlit("b-and");
    reveal_strlit("==");
    reveal_strlit("!=");
    reveal_strlit("<");
    reveal_strlit(">");
    reveal_strlit(">=");
    reveal_strlit("<=");
    reveal_strlit("not in");
    reveal_strlit("in");
    reveal_strlit("matches");
    reveal_strlit("starts with");
    reveal_strlit("ends with");
    reveal_strlit("..");
    reveal_strlit("~");
    reveal_strlit("*");
    reveal_strlit("/");
    reveal_strlit("//");
    reveal_strlit("%");
    reveal_strlit("is");
    reveal_strlit("is not");
    reveal_strlit("**");
    let p = core_parsing_table();
    assert forall|i: int, j: int| 0 <= i < j < p.len() implies #[trigger] p[i].0 != #[trigger] p[j].0 by {
        assert(p[i].0.len() != p[j].0.len() || p[i].0[0] != p[j].0[0] || p[i].0[1] != p[j].0[1] || p[i].0.last()
            != p[j].0.last());
    }
}

/// The entries of `o` from 22 to `k` are stored at the end of the table,
/// each under a new symbol.
proof fn lemma_core_table_tail(o: Seq<OperatorOptions>, k: int)
    requires
        22 <= k <= 30,
        o.len() == 30,
        forall|m: int| 0 <= m < 30 ==> options_are(#[trigger] o[m], core_operator_table()[m]),
        keyed_table(o.take(22)).len() == 20,
        forall|m: int| 0 <= m < 20 ==> options_are(#[trigger] keyed_table(o.take(22))[m], core_parsing_table()[m]),
    ensures
        keyed_table(o.take(k)).len() == k - 2,
        forall|m: int| 0 <= m < k - 2 ==> options_are(#[trigger] keyed_table(o.take(k))[m], core_parsing_table()[m]),
    decreases k,
{
    if k > 22 {
        lemma_core_table_tail(o, k - 1);
        lemma_core_symbols_distinct();
        let t = keyed_table(o.take(k - 1));
        let p = core_parsing_table();
        assert(options_are(o[k - 1], p[k - 3]));
        lemma_key_position(t, o[k - 1].key());
        assert forall|m: int| 0 <= m < t.len() implies #[trigger] t[m].key() != o[k - 1].key() by {
            assert(options_are(t[m], p[m]));
            assert(p[m].0 != p[k - 3].0);
        }
        lemma_keyed_table_step(o, k - 1);
        assert(keyed_table(o.take(k)) == t.push(o[k - 1]));
    }
}

/// The parser's table of the core operators is `core_parsing_table`.
pub proof fn lemma_core_keyed_table(o: Seq<OperatorOptions>)
    requires
        o.len() == core_operator_table().len(),
        forall|m: int| 0 <= m < o.len() ==> options_are(#[trigger] o[m], core_operator_table()[m]),
    ensures
        keyed_table(o).len() == core_parsing_table().len(),
        forall|m: int| 0 <= m < core_parsing_table().len() ==> options_are(#[trigger] keyed_table(o)[m], core_parsing_table()[m]),
{
    lemma_core_symbols_distinct();
    let c = core_operator_table();
    let p = core_parsing_table();
    let o20 = o.take(20);
    assert forall|m: int| 0 <= m < 20 implies #[trigger] o20[m].key() == p[m].0 || (m == 1 || m == 2) by {
        assert(options_are(o[m], c[m]));
    }
    assert(o20[1].key() == p[1].0) by { assert(options_are(o[1], c[1])); }
    assert(o20[2].key() == p[2].0) by { assert(options_are(o[2], c[2])); }
    assert(keys_distinct(o20)) by {
        assert forall|i: int, j: int| 0 <= i < j < o20.len() implies #[trigger] o20[i].key() != #[trigger] o20[j].key() by {
            assert(o20[i].key() == p[i].0);
            assert(o20[j].key() == p[j].0);
        }
    }
    lemma_keyed_table_distinct(o20);
    assert(options_are(o[20], p[2]));
    assert(options_are(o[21], p[1]));
    lemma_key_position_distinct(o20, o[20].key(), 2);
    lemma_keyed_table_step(o, 20);
    let t21 = o20.update(2, o[20]);
    assert(keyed_table(o.take(21)) == t21);
    assert(keys_distinct(t21)) by {
        assert forall|i: int, j: int| 0 <= i < j < t21.len() implies #[trigger] t21[i].key() != #[trigger] t21[j].key() by {
            assert(t21[i].key() == o20[i].key());
            assert(t21[j].key() == o20[j].key());
        }
    }
    lemma_key_position_distinct(t21, o[21].key(), 1);
    lemma_keyed_table_step(o, 21);
    let t22 = t21.update(1, o[21]);
    assert(keyed_table(o.take(22)) == t22);
    assert forall|m: int| 0 <= m < 20 implies options_are(#[trigger] t22[m], p[m]) by {
        if m != 1 && m != 2 {
            assert(options_are(o[m], c[m]));
            assert(t22[m] == o[m]);
        }
    }
    lemma_core_table_tail(o, 30);
    assert(o.take(30) =~= o);
}

/// The tags of the core extension are distinct, so that a table of their
/// parsers keeps each.
pub proof fn lemma_core_tags_keyed(ps: Seq<TokenParser>)
    requires
        ps.len() == core_tags().len(),
        forall|m: int| 0 <= m < ps.len() ==> (#[trigger] ps[m]).tag@ == core_tags()[m],
    ensures
        keyed_table(ps) == ps,
{
    reveal_strlit("for");
    reveal_strlit("if");
    reveal_strlit("extends");
    reveal_strlit("include");
    reveal_strlit("block");
    reveal_strlit("use");
    reveal_strlit("filter");
    reveal_strlit("macro");
    reveal_strlit("import");
    reveal_strlit("from");
    reveal_strlit("set");
    reveal_strlit("spaceless");
    reveal_strlit("flush");
    reveal_strlit("do");
    reveal_strlit("embed");
    let t = core_tags();
    assert forall|i: int, j: int| 0 <= i < j < ps.len() implies #[trigger] ps[i].key() != #[trigger] ps[j].key() by {
        assert(ps[i].key() == t[i] && ps[j].key() == t[j]);
        assert(t[i].len() != t[j].len() || t[i][0] != t[j][0] || t[i][1] != t[j][1] || t[i].last() != t[j].last());
    }
    lemma_keyed_table_distinct(ps);
}

/// The tags of the core extension.
pub open spec fn core_tags() -> Seq<Seq<char>> {
    seq![
        "for"@,
        "if"@,
        "extends"@,
        "include"@,
        "block"@,
        "use"@,
        "filter"@,
        "macro"@,
        "import"@,
        "from"@,
        "set"@,
        "spaceless"@,
        "flush"@,
        "do"@,
        "embed"@,
    ]
}

/// The core Twig extension.
pub struct CoreExtension;

impl Extension for CoreExtension {
    /// Adds the core operators and tags.
    fn apply(env: &mut Environment)
        ensures
            final(env).operators@.len() == old(env).operators@.len() + core_operator_table().len(),
            forall|k: int| 0 <= k < old(env).operators@.len() ==> final(env).operators@[k] == old(env).operators@[k],
            forall|k: int|
                0 <= k < core_operator_table().len() ==> operator_is(
                    #[trigger] final(env).operators@[old(env).operators@.len() + k],
                    core_operator_table()[k],
                ),
            final(env).token_parsers@.len() == old(env).token_parsers@.len() + core_tags().len(),
            forall|k: int| 0 <= k < old(env).token_parsers@.len() ==> final(env).token_parsers@[k] == old(env).token_parsers@[k],
            forall|k: int|
                0 <= k < core_tags().len() ==> (#[trigger] final(env).token_parsers@[old(env).token_parsers@.len() + k]).tag@
                    == core_tags()[k],
    {
        let ops = vec![
            Operator::new_unary("not", 50),
            Operator::new_unary("-", 500),
            Operator::new_unary("+", 500),
            Operator::new_binary_left("or", 10),
            Operator::new_binary_left("and", 15),
            Operator::new_binary_left("b-or", 16),
            Operator::new_binary_left("b-xor", 17),
            Operator::new_binary_left("b-and", 18),
            Operator::new_binary_left("==", 20),
            Operator::new_binary_left("!=", 20),
            Operator::new_binary_left("<", 20),
            Operator::new_binary_left(">", 20),
            Operator::new_binary_left(">=", 20),
            Operator::new_binary_left("<=", 20),
            Operator::new_binary_left("not in", 20),
            Operator::new_binary_left("in", 20),
            Operator::new_binary_left("matches", 20),
            Operator::new_binary_left("starts with", 20),
            Operator::new_binary_left("ends with", 20),
            Operator::new_binary_left("..", 25),
            Operator::new_binary_left("+", 30),
            Operator::new_binary_left("-", 30),
            Operator::new_binary_left("~", 40),
            Operator::new_binary_left("*", 60),
            Operator::new_binary_left("/", 60),
            Operator::new_binary_left("//", 60),
            Operator::new_binary_left("%", 60),
            Operator::new_binary_left("is", 100),
            Operator::new_binary_left("is not", 100),
            Operator::new_binary_right("**", 200),
        ];
        assert(ops@.len() == core_operator_table().len());
        assert forall|k: int| 0 <= k < ops@.len() implies operator_is(#[trigger] ops@[k], core_operator_table()[k]) by {
        }
        env.push_operators(ops);
        let parsers = vec![
            TokenParser::new(token_parsers::For::new()),
            TokenParser::new(token_parsers::If::new()),
            TokenParser::new(token_parsers::Extends::new()),
            TokenParser::new(token_parsers::Include::new()),
            TokenParser::new(token_parsers::Block::new()),
            TokenParser::new(token_parsers::Use::new()),
            TokenParser::new(token_parsers::Filter::new()),
            TokenParser::new(token_parsers::Macro::new()),
            TokenParser::new(token_parsers::Import::new()),
            TokenParser::new(token_parsers::From::new()),
            TokenParser::new(token_parsers::SetTag::new()),
            TokenParser::new(token_parsers::Spaceless::new()),
            TokenParser::new(token_parsers::Flush::new()),
            TokenParser::new(token_parsers::Do::new()),
            TokenParser::new(token_parsers::Embed::new()),
        ];
        assert(parsers@.len() == core_tags().len());
        assert forall|k: int| 0 <= k < parsers@.len() implies (#[trigger] parsers@[k]).tag@ == core_tags()[k] by {
        }
        env.push_token_parsers(parsers);
    }
}

} // verus!

//! Configuration of the template language: its operators and tags.
use vstd::prelude::*;
use std::collections::HashMap;
use crate::chars::str_eq;
use crate::extension::{Extension, CoreExtension, core_operator_table, core_tags};
use crate::extension::core_extension::{core_parsing_table, options_are, lemma_core_keyed_table, lemma_core_tags_keyed};
use crate::environment::keyed::{Keyed, keyed_table, keyed_options, keyed_parsers, find_keyed, key_position, keys_distinct, law_keyed_table, lemma_key_position};
use crate::nodes::context::{operators_ok, find_operator};
use crate::operator::{Associativity, Operator, OperatorKind, OperatorOptions};
use crate::nodes::TokenParser;

pub mod keyed;
pub mod operators;

verus! {

/// Environment configuration.
pub struct Config {
    pub autoescape: String,
}

/// The value stored under the key `key` (`HashMap::get`).
#[verifier::external_body]
pub(crate) fn map_get(map: &HashMap<String, String>, key: &str) -> (r: Option<String>)
    ensures
        r matches Some(v) ==> exists|k: String| #[trigger] map@.contains_key(k) && k@ == key@ && map@[k]@ == v@,
        r is None ==> forall|k: String| #[trigger] map@.contains_key(k) ==> k@ != key@,
{
    map.get(key).cloned()
}

impl Config {
    pub fn default() -> (c: Config)
        ensures
            c.autoescape@ == "html"@,
    {
        Config { autoescape: String::from_str("html") }
    }

    /// The configuration given by `map`: its `autoescape` entry, when it has
    /// one, else the default.
    pub fn from_hashmap(map: HashMap<String, String>) -> (c: Config)
        ensures
            (exists|k: String| #[trigger] map@.contains_key(k) && k@ == "autoescape"@) ==> exists|k: String|
                #[trigger] map@.contains_key(k) && k@ == "autoescape"@ && c.autoescape@ == map@[k]@,
            !(exists|k: String| #[trigger] map@.contains_key(k) && k@ == "autoescape"@) ==> c.autoescape@ == "html"@,
    {
        let default = Config::default();
        match map_get(&map, "autoescape") {
            Some(v) => Config { autoescape: v },
            None => default,
        }
    }
}

/// Project configuration container.
pub struct Environment {
    pub operators: Vec<Operator>,
    pub token_parsers: Vec<TokenParser>,
}

/// The operator matches an entry `(symbol, precedence, kind)` of a table.
pub open spec fn operator_is(o: Operator, e: (Seq<char>, u16, OperatorKind)) -> bool {
    o.options.value@ == e.0 && o.options.precedence == e.1 && o.options.kind == e.2
}

/// The strings of `s`, each once, in the order of their first occurrence.
pub open spec fn distinct(s: Seq<Seq<char>>) -> Seq<Seq<char>>
    decreases s.len(),
{
    if s.len() == 0 {
        Seq::empty()
    } else {
        let r = distinct(s.drop_last());
        if r.contains(s.last()) {
            r
        } else {
            r.push(s.last())
        }
    }
}

/// The symbols of the operators.
pub open spec fn symbols_of(ops: Seq<Operator>) -> Seq<Seq<char>> {
    ops.map_values(|o: Operator| o.options.value@)
}

/// The characters of each string.
pub open spec fn views_of(s: Seq<&'static str>) -> Seq<Seq<char>> {
    s.map_values(|v: &'static str| v@)
}

impl Environment {
    /// The environment with the core extension applied.
    pub fn new(config: Config) -> (e: Environment)
        ensures
            e.operators@.len() == core_operator_table().len(),
            forall|k: int| 0 <= k < e.operators@.len() ==> operator_is(#[trigger] e.operators@[k], core_operator_table()[k]),
            e.token_parsers@.len() == core_tags().len(),
            forall|k: int| 0 <= k < e.token_parsers@.len() ==> (#[trigger] e.token_parsers@[k]).tag@ == core_tags()[k],
    {
        let mut staged = Environment { operators: Vec::new(), token_parsers: Vec::new() };
        let ghost n_ops = staged.operators@.len();
        let ghost n_tags = staged.token_parsers@.len();
        CoreExtension::apply(&mut staged);
        assert forall|k: int| 0 <= k < staged.operators@.len() implies operator_is(#[trigger] staged.operators@[k], core_operator_table()[k]) by {
            assert(operator_is(staged.operators@[n_ops + k], core_operator_table()[k]));
        }
        assert forall|k: int| 0 <= k < staged.token_parsers@.len() implies (#[trigger] staged.token_parsers@[k]).tag@ == core_tags()[k] by {
            assert(staged.token_parsers@[n_tags + k].tag@ == core_tags()[k]);
        }
        staged
    }

    pub fn default() -> (e: Environment)
        ensures
            e.operators@.len() == core_operator_table().len(),
            forall|k: int| 0 <= k < e.operators@.len() ==> operator_is(#[trigger] e.operators@[k], core_operator_table()[k]),
            e.token_parsers@.len() == core_tags().len(),
            forall|k: int| 0 <= k < e.token_parsers@.len() ==> (#[trigger] e.token_parsers@[k]).tag@ == core_tags()[k],
    {
        Environment::new(Config::default())
    }

    /// Compiles the environment: the operator symbols for the lexer, each
    /// once; for the parser, the operators stored by symbol and the tag
    /// parsers stored by tag, the last one given for a symbol or tag
    /// winning (see `keyed_table`).
    pub fn init_all(self) -> (c: CompiledEnvironment)
        ensures
            views_of(c.lexing.operators@) == distinct(symbols_of(self.operators@)),
            c.parsing.operators@ == keyed_table(self.operators@.map_values(|o: Operator| o.options)),
            c.parsing.handlers@ == keyed_table(self.token_parsers@),
    {
        let mut symbols: Vec<&'static str> = Vec::new();
        let mut i: usize = 0;
        while i < self.operators.len()
            invariant
                i <= self.operators@.len(),
                views_of(symbols@) == distinct(symbols_of(self.operators@.take(i as int))),
            decreases self.operators@.len() - i,
        {
            let o = self.operators[i].options;
            let mut found = false;
            let mut j: usize = 0;
            while j < symbols.len()
                invariant
                    j <= symbols@.len(),
                    found <==> exists|k: int| 0 <= k < j && (#[trigger] symbols@[k])@ == o.value@,
                    o == self.operators@[i as int].options,
                decreases symbols@.len() - j,
            {
                if str_eq(symbols[j], o.value) {
                    found = true;
                }
                j += 1;
            }
            assert(self.operators@.take(i + 1).drop_last() =~= self.operators@.take(i as int));
            let ghost prev = symbols@;
            assert(symbols_of(self.operators@.take(i + 1)).drop_last() =~= symbols_of(self.operators@.take(i as int)));
            assert(found <==> views_of(prev).contains(o.value@)) by {
                if found {
                    let k = choose|k: int| 0 <= k < symbols@.len() && (#[trigger] symbols@[k])@ == o.value@;
                    assert(views_of(prev)[k] == o.value@);
                }
                if views_of(prev).contains(o.value@) {
                    let k = choose|k: int| 0 <= k < views_of(prev).len() && views_of(prev)[k] == o.value@;
                    assert(prev[k]@ == o.value@);
                }
            }
            if !found {
                symbols.push(o.value);
                assert(views_of(symbols@) =~= views_of(prev).push(o.value@));
            }
            i += 1;
        }
        assert(self.operators@.take(i as int) =~= self.operators@);
        let options = keyed_options(&self.operators);
        let handlers = keyed_parsers(self.token_parsers);
        CompiledEnvironment {
            lexing: LexingEnvironment { operators: symbols },
            parsing: ParsingEnvironment { operators: options, handlers },
        }
    }

    pub fn push_operators(&mut self, ops: Vec<Operator>)
        ensures
            final(self).operators@ == old(self).operators@ + ops@,
            final(self).token_parsers@ == old(self).token_parsers@,
    {
        let mut ops = ops;
        self.operators.append(&mut ops);
    }

    pub fn push_token_parsers(&mut self, ops: Vec<TokenParser>)
        ensures
            final(self).token_parsers@ == old(self).token_parsers@ + ops@,
            final(self).operators@ == old(self).operators@,
    {
        let mut ops = ops;
        self.token_parsers.append(&mut ops);
    }
}

/// The parser's lookup of an operator is a lookup by symbol.
pub proof fn lemma_find_operator_keyed(ops: Seq<OperatorOptions>, sym: Seq<char>)
    ensures
        find_operator(ops, sym) == find_keyed(ops, sym),
    decreases ops.len(),
{
    if ops.len() > 0 {
        lemma_find_operator_keyed(ops.drop_last(), sym);
        lemma_key_position(ops.drop_last(), sym);
        if let Some(i) = key_position(ops.drop_last(), sym) {
            assert(ops.drop_last()[i] == ops[i]);
        }
    }
}

/// The compiled operator table is a map by symbol: no symbol is stored
/// twice, and the parser's lookup of a symbol gives the options of the last
/// operator given for it.
pub proof fn law_operator_table(ops: Seq<Operator>, sym: Seq<char>)
    ensures
        keys_distinct(keyed_table(ops.map_values(|o: Operator| o.options))),
        find_operator(keyed_table(ops.map_values(|o: Operator| o.options)), sym) == find_operator(
            ops.map_values(|o: Operator| o.options),
            sym,
        ),
{
    let all = ops.map_values(|o: Operator| o.options);
    law_keyed_table(all, sym);
    lemma_find_operator_keyed(all, sym);
    lemma_find_operator_keyed(keyed_table(all), sym);
}

/// What the lexer needs: the operator symbols.
pub struct LexingEnvironment {
    pub operators: Vec<&'static str>,
}

/// What the parser needs: the operators, one entry per symbol, and the tag
/// parsers, one per tag; each holds the last entry given for its symbol or
/// tag (see `keyed_table`).
pub struct ParsingEnvironment {
    pub operators: Vec<OperatorOptions>,
    pub handlers: Vec<TokenParser>,
}

/// Project configuration container with all extensions applied.
pub struct CompiledEnvironment {
    pub lexing: LexingEnvironment,
    pub parsing: ParsingEnvironment,
}

impl CompiledEnvironment {
    pub fn default() -> (c: CompiledEnvironment)
        ensures
            views_of(c.lexing.operators@) == distinct(core_operator_table().map_values(|e: (Seq<char>, u16, OperatorKind)| e.0)),
            c.parsing.operators@.len() == core_parsing_table().len(),
            forall|k: int|
                0 <= k < c.parsing.operators@.len() ==> options_are(
                    #[trigger] c.parsing.operators@[k],
                    core_parsing_table()[k],
                ),
            c.parsing.handlers@.len() == core_tags().len(),
            forall|k: int| 0 <= k < c.parsing.handlers@.len() ==> (#[trigger] c.parsing.handlers@[k]).tag@ == core_tags()[k],
            operators_ok(c.parsing.operators@),
    {
        let e = Environment::default();
        let ghost opts = e.operators@.map_values(|o: Operator| o.options);
        proof {
            assert forall|m: int| 0 <= m < opts.len() implies options_are(#[trigger] opts[m], core_operator_table()[m]) by {
                assert(operator_is(e.operators@[m], core_operator_table()[m]));
            }
            lemma_core_keyed_table(opts);
            lemma_core_tags_keyed(e.token_parsers@);
        }
        assert(symbols_of(e.operators@) =~= core_operator_table().map_values(|e: (Seq<char>, u16, OperatorKind)| e.0));
        let c = e.init_all();
        proof {
            let p = core_parsing_table();
            assert forall|k: int| 0 <= k < c.parsing.operators@.len() implies #[trigger] c.parsing.operators@[k].kind
                == OperatorKind::Binary(Associativity::Left) ==> c.parsing.operators@[k].precedence < u16::MAX by {
                assert(options_are(c.parsing.operators@[k], p[k]));
            }
        }
        c
    }
}

} // verus!

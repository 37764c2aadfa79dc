//! The parser's position in a token stream, and the symbols imported so far.
use vstd::prelude::*;
use crate::chars::str_eq;
use crate::environment::ParsingEnvironment;
use crate::error::{ErrorAt, ErrorMessage, Received};
use crate::lexer::{TokenIter, delivered};
use crate::lexer::iter::Item;
use crate::operator::{Associativity, OperatorKind, OperatorOptions};
use crate::tokens::{Token, TokenValue};

verus! {

/// A fresh random UUID (`uuid::Uuid::new_v4`), as a number. Its version
/// bits say 4 and its variant bits say RFC 4122; the other bits are random.
#[verifier::external_body]
fn new_uuid() -> (r: u128)
    ensures
        r & 0xF000_C000_0000_0000_0000u128 == 0x4000_8000_0000_0000_0000u128,
{
    uuid::Uuid::new_v4().as_u128()
}

/// A function imported under an alias, with the key that stands for it.
#[derive(Debug)]
pub struct ImportedFunction {
    pub uuid: u128,
    pub name: String,
    pub alias: String,
}

/// The value of an imported function.
pub struct ImportedFunctionSpec {
    pub uuid: u128,
    pub alias: Seq<char>,
    pub name: Seq<char>,
}

impl View for ImportedFunction {
    type V = ImportedFunctionSpec;

    open spec fn view(&self) -> ImportedFunctionSpec {
        ImportedFunctionSpec { uuid: self.uuid, alias: self.alias@, name: self.name@ }
    }
}

impl ImportedFunction {
    pub fn new(uuid: u128, alias: &str, name: &str) -> (f: ImportedFunction)
        ensures
            f@ == (ImportedFunctionSpec { uuid, alias: alias@, name: name@ }),
    {
        ImportedFunction { uuid, name: name.to_string(), alias: alias.to_string() }
    }

    /// A copy of this record.
    pub fn duplicate(&self) -> (r: ImportedFunction)
        ensures
            r@ == self@,
    {
        ImportedFunction { uuid: self.uuid, name: self.name.clone(), alias: self.alias.clone() }
    }
}

/// The functions imported in one scope, each alias once.
#[derive(Debug)]
pub struct ImportedSymbols {
    pub functions: Vec<ImportedFunction>,
}

impl ImportedSymbols {
    pub fn new() -> (s: ImportedSymbols)
        ensures
            s.functions@.len() == 0,
    {
        ImportedSymbols { functions: Vec::new() }
    }
}

/// The values of the functions of a scope.
pub open spec fn scope_view(s: ImportedSymbols) -> Seq<ImportedFunctionSpec> {
    s.functions@.map_values(|f: ImportedFunction| f@)
}

/// Where the function with alias `name` stands in a scope: the first entry
/// with that alias.
pub open spec fn alias_position(fs: Seq<ImportedFunctionSpec>, name: Seq<char>) -> Option<int>
    decreases fs.len(),
{
    if fs.len() == 0 {
        None
    } else if fs[0].alias == name {
        Some(0)
    } else {
        match alias_position(fs.drop_first(), name) {
            Some(i) => Some(i + 1),
            None => None,
        }
    }
}

/// The function with alias `name` in a scope.
pub open spec fn scope_find(fs: Seq<ImportedFunctionSpec>, name: Seq<char>) -> Option<ImportedFunctionSpec> {
    match alias_position(fs, name) {
        Some(i) => Some(fs[i]),
        None => None,
    }
}

/// A scope with `f` imported: it replaces the function of the same alias,
/// or comes last.
pub open spec fn scope_insert(fs: Seq<ImportedFunctionSpec>, f: ImportedFunctionSpec) -> Seq<ImportedFunctionSpec> {
    match alias_position(fs, f.alias) {
        Some(i) => fs.update(i, f),
        None => fs.push(f),
    }
}

/// The function with alias `name` in the innermost scope that has one: the
/// current scope is searched before its parents.
pub open spec fn scopes_find(scopes: Seq<Seq<ImportedFunctionSpec>>, name: Seq<char>) -> Option<ImportedFunctionSpec>
    decreases scopes.len(),
{
    if scopes.len() == 0 {
        None
    } else {
        match scope_find(scopes.last(), name) {
            Some(f) => Some(f),
            None => scopes_find(scopes.drop_last(), name),
        }
    }
}

/// Where an alias stands, it stands first.
pub proof fn lemma_alias_position(fs: Seq<ImportedFunctionSpec>, name: Seq<char>)
    ensures
        match alias_position(fs, name) {
            Some(i) => 0 <= i < fs.len() && fs[i].alias == name && forall|j: int|
                0 <= j < i ==> #[trigger] fs[j].alias != name,
            None => forall|j: int| 0 <= j < fs.len() ==> #[trigger] fs[j].alias != name,
        },
    decreases fs.len(),
{
    if fs.len() > 0 {
        lemma_alias_position(fs.drop_first(), name);
        if fs[0].alias != name {
            assert forall|j: int| 1 <= j < fs.len() implies fs[j] == fs.drop_first()[j - 1] by {}
        }
    }
}

/// Two errors are reported alike: same line, same text.
pub open spec fn same_error(x: ErrorAt, y: ErrorAt) -> bool {
    x.line == y.line && x.message.text() == y.message.text()
}

/// The first entry of a scope with an alias is the one `alias_position`
/// gives, and an alias no entry has has no position.
pub proof fn lemma_alias_position_unique(fs: Seq<ImportedFunctionSpec>, name: Seq<char>, i: int)
    ensures
        0 <= i < fs.len() && fs[i].alias == name && (forall|j: int| 0 <= j < i ==> #[trigger] fs[j].alias != name)
            ==> alias_position(fs, name) == Some(i),
        (forall|j: int| 0 <= j < fs.len() ==> #[trigger] fs[j].alias != name) ==> alias_position(fs, name) is None,
{
    lemma_alias_position(fs, name);
    if let Some(k) = alias_position(fs, name) {
        if 0 <= i < fs.len() && fs[i].alias == name && (forall|j: int| 0 <= j < i ==> #[trigger] fs[j].alias != name) {
            if k < i {
                assert(fs[k].alias != name);
            }
            if k > i {
                assert(fs[i].alias != name);
            }
        }
        assert(fs[k].alias == name);
    }
}

/// Importing `f` into a scope: its alias now finds `f`; other aliases find
/// what they found.
pub proof fn lemma_scope_insert(fs: Seq<ImportedFunctionSpec>, f: ImportedFunctionSpec, name: Seq<char>)
    ensures
        scope_find(scope_insert(fs, f), name) == if name == f.alias {
            Some(f)
        } else {
            scope_find(fs, name)
        },
{
    lemma_alias_position(fs, f.alias);
    lemma_alias_position(fs, name);
    let ins = scope_insert(fs, f);
    match alias_position(fs, f.alias) {
        Some(i) => {
            assert(ins == fs.update(i, f));
            if name == f.alias {
                lemma_alias_position_unique(ins, name, i);
            } else {
                assert forall|j: int| 0 <= j < fs.len() implies #[trigger] ins[j].alias == fs[j].alias by {}
                match alias_position(fs, name) {
                    Some(k) => {
                        assert(k != i);
                        lemma_alias_position_unique(ins, name, k);
                    },
                    None => {
                        lemma_alias_position_unique(ins, name, 0);
                    },
                }
            }
        },
        None => {
            assert(ins == fs.push(f));
            if name == f.alias {
                lemma_alias_position_unique(ins, name, fs.len() as int);
            } else {
                match alias_position(fs, name) {
                    Some(k) => {
                        lemma_alias_position_unique(ins, name, k);
                    },
                    None => {
                        lemma_alias_position_unique(ins, name, 0);
                    },
                }
            }
        },
    }
}

/// Importing `f` into the innermost scope: a lookup of its alias finds `f`,
/// and every other lookup finds what it found before.
pub proof fn law_import_then_find(scopes: Seq<Seq<ImportedFunctionSpec>>, f: ImportedFunctionSpec, name: Seq<char>)
    requires
        scopes.len() > 0,
    ensures
        scopes_find(scopes.update(scopes.len() - 1, scope_insert(scopes.last(), f)), name) == if name == f.alias {
            Some(f)
        } else {
            scopes_find(scopes, name)
        },
{
    let s2 = scopes.update(scopes.len() - 1, scope_insert(scopes.last(), f));
    assert(s2.drop_last() =~= scopes.drop_last());
    assert(s2.last() == scope_insert(scopes.last(), f));
    lemma_scope_insert(scopes.last(), f, name);
}

/// Opening a scope changes no lookup, and closing it again gives back the
/// scopes.
pub proof fn law_scope_push_pop(scopes: Seq<Seq<ImportedFunctionSpec>>, name: Seq<char>)
    ensures
        scopes_find(scopes.push(Seq::empty()), name) == scopes_find(scopes, name),
        scopes.push(Seq::empty()).drop_last() == scopes,
{
    let s2 = scopes.push(Seq::<ImportedFunctionSpec>::empty());
    assert(s2.drop_last() =~= scopes);
    assert(alias_position(Seq::<ImportedFunctionSpec>::empty(), name) is None);
}

/// The error for a stream that ends too soon.
pub open spec fn eof_error() -> ErrorAt {
    ErrorAt { line: None, message: Box::new(ErrorMessage::UnexpectedEndOfTemplate) }
}

/// An error pinned to a line.
pub open spec fn error_at(message: ErrorMessage, line: usize) -> ErrorAt {
    ErrorAt { line: Some(line), message: Box::new(message) }
}

/// The token at position `p`: the token, the error the lexer stopped on,
/// or the end of the stream.
pub open spec fn token_at(ts: Seq<Result<Token, ErrorAt>>, p: int) -> Result<Token, ErrorAt> {
    if 0 <= p < ts.len() {
        ts[p]
    } else {
        Err(eof_error())
    }
}

/// The token at `p` is a token with value `v`.
pub open spec fn token_is(ts: Seq<Result<Token, ErrorAt>>, p: int, v: TokenValue) -> bool {
    token_at(ts, p) matches Ok(t) && t.value.same(&v)
}

/// What `skip_to_next_if` finds at `p`: whether the token there has the
/// value `v`, or, past the end of the stream, the end-of-template error.
pub open spec fn skip_test(ts: Seq<Result<Token, ErrorAt>>, p: int, v: TokenValue) -> Result<bool, ErrorAt> {
    if 0 <= p < ts.len() {
        Ok(token_is(ts, p, v))
    } else {
        Err(eof_error())
    }
}

/// Where the stream stands after taking the token at `p`, if there is one.
pub open spec fn after(ts: Seq<Result<Token, ErrorAt>>, p: int) -> int {
    if token_at(ts, p) is Ok {
        p + 1
    } else {
        p
    }
}

/// The token at `p` if its value is `v`, else the error `ExpectedOtherTokenValue`.
pub open spec fn expected_token(ts: Seq<Result<Token, ErrorAt>>, p: int, v: TokenValue) -> Result<Token, ErrorAt> {
    match token_at(ts, p) {
        Err(e) => Err(e),
        Ok(t) => if t.value.same(&v) {
            Ok(t)
        } else {
            Err(error_at(ErrorMessage::ExpectedOtherTokenValue(t.value, v), t.line_num))
        },
    }
}

/// The token at `p` if its value is `v`, else `message` at its line.
pub open spec fn expected_or(ts: Seq<Result<Token, ErrorAt>>, p: int, v: TokenValue, message: ErrorMessage) -> Result<Token, ErrorAt> {
    match token_at(ts, p) {
        Err(e) => Err(e),
        Ok(t) => if t.value.same(&v) {
            Ok(t)
        } else {
            Err(error_at(message, t.line_num))
        },
    }
}

/// The name held by the token at `p`, else the error that a name was expected.
pub open spec fn expected_name(ts: Seq<Result<Token, ErrorAt>>, p: int) -> Result<Seq<char>, ErrorAt> {
    match token_at(ts, p) {
        Err(e) => Err(e),
        Ok(t) => match t.value {
            TokenValue::Name(n) => Ok(n@),
            _ => Err(
                error_at(
                    ErrorMessage::ExpectedTokenTypeButReceived(
                        TokenValue::Name(arbitrary()),
                        Received::Token(t.value),
                    ),
                    t.line_num,
                ),
            ),
        },
    }
}

/// The options of the operator `op`: the last entry for its symbol.
pub open spec fn find_operator(ops: Seq<OperatorOptions>, op: Seq<char>) -> Option<OperatorOptions>
    decreases ops.len(),
{
    if ops.len() == 0 {
        None
    } else if ops.last().value@ == op {
        Some(ops.last())
    } else {
        find_operator(ops.drop_last(), op)
    }
}

/// What the expression grammar reads: the tokens, the operators and the
/// scopes of imported functions.
pub struct Input {
    pub tokens: Seq<Result<Token, ErrorAt>>,
    pub operators: Seq<OperatorOptions>,
    pub scopes: Seq<Seq<ImportedFunctionSpec>>,
}

/// No left-associative operator has the largest precedence, so that the
/// precedence above it exists.
pub open spec fn operators_ok(ops: Seq<OperatorOptions>) -> bool {
    forall|k: int|
        0 <= k < ops.len() && #[trigger] ops[k].kind == OperatorKind::Binary(Associativity::Left) ==> ops[k].precedence
            < u16::MAX
}

/// An operator found in a table is one of its entries.
pub proof fn lemma_find_operator(ops: Seq<OperatorOptions>, op: Seq<char>)
    ensures
        find_operator(ops, op) matches Some(o) ==> exists|k: int| 0 <= k < ops.len() && ops[k] == o,
    decreases ops.len(),
{
    if ops.len() > 0 {
        lemma_find_operator(ops.drop_last(), op);
        if let Some(o) = find_operator(ops.drop_last(), op) {
            let k = choose|k: int| 0 <= k < ops.drop_last().len() && ops.drop_last()[k] == o;
            assert(ops[k] == o);
        }
        assert(ops[ops.len() - 1] == ops.last());
    }
}

/// `ts` are the tokens the lexer hands out from item `start` on.
pub open spec fn tokens_delivered(code: Seq<char>, items: Seq<Item>, start: int, ts: Seq<Result<Token, ErrorAt>>) -> bool {
    &&& ts.len() == items.len() - start
    &&& forall|k: int| 0 <= k < ts.len() ==> delivered(code, items[start + k], #[trigger] ts[k])
}

/// The parser's state: the operators, the tokens, the position of the
/// current token, and a stack of scopes of imported functions.
pub struct Context {
    pub operators: Vec<OperatorOptions>,
    pub tokens: Vec<Result<Token, ErrorAt>>,
    pub position: usize,
    pub imported_symbols: Vec<ImportedSymbols>,
}

impl Context {
    /// The tokens of the template, the last one possibly a lexing error.
    pub open spec fn tokens(&self) -> Seq<Result<Token, ErrorAt>> {
        self.tokens@
    }

    /// The position of the current token.
    pub open spec fn pos(&self) -> int {
        self.position as int
    }

    /// The scopes of imported functions, outermost first.
    pub open spec fn scopes(&self) -> Seq<Seq<ImportedFunctionSpec>> {
        self.imported_symbols@.map_values(|s: ImportedSymbols| scope_view(s))
    }

    /// What the expression grammar reads.
    pub open spec fn input(&self) -> Input {
        Input { tokens: self.tokens(), operators: self.operators@, scopes: self.scopes() }
    }

    /// The tokens and the operators are those of `other`.
    pub open spec fn same_input(&self, other: &Context) -> bool {
        self.tokens() == other.tokens() && self.operators@ == other.operators@
    }

    /// Reads all tokens of `tokens`; the first is current.
    pub fn new(env: &ParsingEnvironment, tokens: &mut TokenIter) -> (c: Context)
        ensures
            c.operators@ == env.operators@,
            c.pos() == 0,
            c.scopes() == seq![Seq::<ImportedFunctionSpec>::empty()],
            final(tokens).code() == old(tokens).code(),
            final(tokens).items() == old(tokens).items(),
            final(tokens).index() == old(tokens).items().len(),
            tokens_delivered(old(tokens).code(), old(tokens).items(), old(tokens).index(), c.tokens()),
    {
        let ghost start = old(tokens).index();
        let _ = tokens.has_next();
        let mut all: Vec<Result<Token, ErrorAt>> = Vec::new();
        while tokens.has_next()
            invariant
                tokens.code() == old(tokens).code(),
                tokens.items() == old(tokens).items(),
                start <= tokens.index() <= tokens.items().len(),
                all@.len() == tokens.index() - start,
                forall|k: int|
                    0 <= k < all@.len() ==> delivered(tokens.code(), tokens.items()[start + k], #[trigger] all@[k]),
            decreases tokens.items().len() - tokens.index(),
        {
            match tokens.next() {
                Some(r) => all.push(r),
                None => {},
            }
        }
        let mut symbols: Vec<ImportedSymbols> = Vec::new();
        symbols.push(ImportedSymbols::new());
        assert(scope_view(symbols@[0]) =~= Seq::<ImportedFunctionSpec>::empty());
        let mut operators: Vec<OperatorOptions> = Vec::new();
        let mut j: usize = 0;
        while j < env.operators.len()
            invariant
                j <= env.operators@.len(),
                operators@ == env.operators@.take(j as int),
            decreases env.operators@.len() - j,
        {
            operators.push(env.operators[j]);
            j += 1;
            assert(operators@ =~= env.operators@.take(j as int));
        }
        assert(env.operators@.take(j as int) =~= env.operators@);
        let c = Context { operators, tokens: all, position: 0, imported_symbols: symbols };
        assert(c.scopes() =~= seq![Seq::<ImportedFunctionSpec>::empty()]);
        c
    }

    /// Opens a scope for imports.
    pub fn push_local_scope(&mut self)
        ensures
            final(self).same_input(&*old(self)),
            final(self).pos() == old(self).pos(),
            final(self).scopes() == old(self).scopes().push(Seq::empty()),
    {
        let fresh = ImportedSymbols::new();
        assert(scope_view(fresh) =~= Seq::<ImportedFunctionSpec>::empty());
        self.imported_symbols.push(fresh);
        assert(self.scopes() =~= old(self).scopes().push(Seq::empty()));
    }

    /// Closes the innermost scope of imports, if there is one.
    pub fn pop_local_scope(&mut self)
        ensures
            final(self).same_input(&*old(self)),
            final(self).pos() == old(self).pos(),
            final(self).scopes() == if old(self).scopes().len() > 0 {
                old(self).scopes().drop_last()
            } else {
                old(self).scopes()
            },
    {
        let _ = self.imported_symbols.pop();
        assert(self.scopes() =~= if old(self).scopes().len() > 0 {
            old(self).scopes().drop_last()
        } else {
            old(self).scopes()
        });
    }

    /// Registers `alias` as an imported function of the innermost scope, under
    /// a fresh random key, which it returns.
    pub fn add_imported_function(&mut self, alias: &str, name: &str) -> (uuid: u128)
        requires
            old(self).imported_symbols@.len() > 0,
        ensures
            final(self).same_input(&*old(self)),
            final(self).pos() == old(self).pos(),
            uuid & 0xF000_C000_0000_0000_0000u128 == 0x4000_8000_0000_0000_0000u128,
            final(self).scopes() == old(self).scopes().update(
                old(self).scopes().len() - 1,
                scope_insert(
                    old(self).scopes().last(),
                    ImportedFunctionSpec { uuid, alias: alias@, name: name@ },
                ),
            ),
    {
        let uuid = new_uuid();
        let f = ImportedFunction::new(uuid, alias, name);
        let last = self.imported_symbols.len() - 1;
        let ghost old_scopes = self.scopes();
        let mut scope = self.imported_symbols.remove(last);
        assert(self.imported_symbols@ =~= old(self).imported_symbols@.drop_last());
        let ghost fs = scope_view(scope);
        assert(fs == old_scopes.last());
        proof {
            lemma_alias_position(fs, alias@);
        }
        let mut i: usize = 0;
        while i < scope.functions.len() && !str_eq(scope.functions[i].alias.as_str(), alias)
            invariant
                fs == scope_view(scope),
                i <= scope.functions@.len(),
                forall|j: int| 0 <= j < i ==> #[trigger] fs[j].alias != alias@,
            decreases scope.functions@.len() - i,
        {
            i += 1;
        }
        let ghost new_fs = scope_insert(fs, f@);
        if i < scope.functions.len() {
            proof {
                assert(fs[i as int].alias == alias@);
                if let Some(k) = alias_position(fs, alias@) {
                    if k > i {
                        assert(fs[i as int].alias != alias@);
                    }
                }
            }
            assert(alias_position(fs, alias@) == Some(i as int));
            scope.functions.set(i, f);
            assert(scope_view(scope) =~= new_fs);
        } else {
            assert(alias_position(fs, alias@) is None);
            scope.functions.push(f);
            assert(scope_view(scope) =~= new_fs);
        }
        self.imported_symbols.push(scope);
        assert(self.scopes() =~= old_scopes.update(old_scopes.len() - 1, new_fs));
        uuid
    }

    /// The current token, or the error at the current position.
    fn peek(&self) -> (r: Result<Token, ErrorAt>)
        ensures
            r == token_at(self.tokens(), self.pos()),
    {
        if self.position < self.tokens.len() {
            match &self.tokens[self.position] {
                Ok(t) => Ok(t.duplicate()),
                Err(e) => Err(e.duplicate()),
            }
        } else {
            Err(ErrorAt::new(ErrorMessage::UnexpectedEndOfTemplate))
        }
    }

    /// The current token; at the end of the stream, `UnexpectedEndOfTemplate`.
    pub fn current(&self) -> (r: Result<Token, ErrorAt>)
        ensures
            r == token_at(self.tokens(), self.pos()),
    {
        self.peek()
    }

    /// The current token, or `None` at the end of the stream.
    pub fn maybe_current(&self) -> (r: Result<Option<Token>, ErrorAt>)
        ensures
            r == if 0 <= self.pos() < self.tokens().len() {
                match self.tokens()[self.pos()] {
                    Ok(t) => Ok(Some(t)),
                    Err(e) => Err(e),
                }
            } else {
                Ok(None)
            },
    {
        if self.position < self.tokens.len() {
            match &self.tokens[self.position] {
                Ok(t) => Ok(Some(t.duplicate())),
                Err(e) => Err(e.duplicate()),
            }
        } else {
            Ok(None)
        }
    }

    /// Takes the current token: returns it and advances past it.
    pub fn next(&mut self) -> (r: Result<Token, ErrorAt>)
        ensures
            final(self).same_input(&*old(self)),
            final(self).scopes() == old(self).scopes(),
            r == token_at(old(self).tokens(), old(self).pos()),
            final(self).pos() == after(old(self).tokens(), old(self).pos()),
    {
        let r = self.peek();
        if self.position < self.tokens.len() && r.is_ok() {
            self.position = self.position + 1;
        }
        r
    }

    /// Advances past the current token if its value is `expected`, and says
    /// whether it did; at the end of the stream, the end-of-template error.
    pub fn skip_to_next_if(&mut self, expected: TokenValue) -> (r: Result<bool, ErrorAt>)
        ensures
            final(self).same_input(&*old(self)),
            final(self).scopes() == old(self).scopes(),
            r == skip_test(old(self).tokens(), old(self).pos(), expected),
            final(self).pos() == if r == Ok::<bool, ErrorAt>(true) {
                old(self).pos() + 1
            } else {
                old(self).pos()
            },
    {
        if self.position < self.tokens.len() {
            let skip = match &self.tokens[self.position] {
                Ok(t) => t.value.equals(&expected),
                Err(_) => false,
            };
            if skip {
                self.position = self.position + 1;
            }
            Ok(skip)
        } else {
            Err(ErrorAt::new(ErrorMessage::UnexpectedEndOfTemplate))
        }
    }

    /// Takes the current token, which should have the value `expected`.
    pub fn expect(&mut self, expected: TokenValue) -> (r: Result<Token, ErrorAt>)
        ensures
            final(self).same_input(&*old(self)),
            final(self).scopes() == old(self).scopes(),
            r == expected_token(old(self).tokens(), old(self).pos(), expected),
            final(self).pos() == after(old(self).tokens(), old(self).pos()),
    {
        let t = self.next()?;
        if t.value.equals(&expected) {
            Ok(t)
        } else {
            let line = t.line_num;
            Err(ErrorAt::new_at(ErrorMessage::ExpectedOtherTokenValue(t.value, expected), line))
        }
    }

    /// Takes the current token, which should be a name, and returns the name.
    pub fn expect_name(&mut self) -> (r: Result<String, ErrorAt>)
        ensures
            final(self).same_input(&*old(self)),
            final(self).scopes() == old(self).scopes(),
            final(self).pos() == after(old(self).tokens(), old(self).pos()),
            match expected_name(old(self).tokens(), old(self).pos()) {
                Ok(n) => r matches Ok(s) && s@ == n,
                Err(e) => r matches Err(x) && same_error(x, e),
            },
    {
        let t = self.next()?;
        let line = t.line_num;
        match t.value {
            TokenValue::Name(n) => Ok(n),
            other => {
                let e = ErrorAt::new_at(
                    ErrorMessage::ExpectedTokenTypeButReceived(
                        TokenValue::Name(String::new()),
                        Received::Token(other),
                    ),
                    line,
                );
                proof {
                    let spec_e = expected_name(old(self).tokens(), old(self).pos());
                    assert(spec_e matches Err(x) && same_error(e, x));
                }
                Err(e)
            },
        }
    }

    /// Takes the current token, which should have the value `expected`;
    /// else the error is `error_message` at the token's line.
    pub fn expect_or_error(&mut self, expected: TokenValue, error_message: ErrorMessage) -> (r: Result<Token, ErrorAt>)
        ensures
            final(self).same_input(&*old(self)),
            final(self).scopes() == old(self).scopes(),
            r == expected_or(old(self).tokens(), old(self).pos(), expected, error_message),
            final(self).pos() == after(old(self).tokens(), old(self).pos()),
    {
        let t = self.next()?;
        if t.value.equals(&expected) {
            Ok(t)
        } else {
            Err(ErrorAt::new_at(error_message, t.line_num))
        }
    }

    /// Takes the current token and returns what `check` makes of it.
    pub fn expect_match_or<T, C: FnOnce(&Token) -> Result<T, ErrorAt>>(&mut self, check: C) -> (r: Result<T, ErrorAt>)
        requires
            forall|t: Token| call_requires(check, (&t,)),
        ensures
            final(self).same_input(&*old(self)),
            final(self).scopes() == old(self).scopes(),
            final(self).pos() == after(old(self).tokens(), old(self).pos()),
            match token_at(old(self).tokens(), old(self).pos()) {
                Ok(t) => call_ensures(check, (&t,), r),
                Err(e) => r == Err::<T, ErrorAt>(e),
            },
    {
        let t = self.next()?;
        check(&t)
    }

    /// Whether the current token has the value `expected`.
    pub fn test(&self, expected: TokenValue) -> (r: Result<bool, ErrorAt>)
        ensures
            r == match token_at(self.tokens(), self.pos()) {
                Ok(t) => Ok::<bool, ErrorAt>(t.value.same(&expected)),
                Err(e) => Err(e),
            },
    {
        let t = self.peek()?;
        Ok(t.value.equals(&expected))
    }

    /// The options of the operator `op_str`: those of the last entry for
    /// its symbol, or `None` where the environment has no such operator.
    pub fn get_operator_options(&self, op_str: &str) -> (r: Option<OperatorOptions>)
        ensures
            r == find_operator(self.operators@, op_str@),
    {
        let ops = &self.operators;
        let mut i = ops.len();
        assert(ops@.take(i as int) =~= ops@);
        while i > 0
            invariant
                ops@ == self.operators@,
                i <= ops@.len(),
                find_operator(ops@, op_str@) == find_operator(ops@.take(i as int), op_str@),
            decreases i,
        {
            let o = ops[i - 1];
            assert(ops@.take(i as int).last() == o);
            if str_eq(o.value, op_str) {
                assert(find_operator(ops@.take(i as int), op_str@) == Some(o));
                return Some(o);
            }
            assert(ops@.take(i as int).drop_last() =~= ops@.take(i - 1));
            i -= 1;
        }
        None
    }

    /// The function imported as `name` in this scope or, failing that, in
    /// the nearest parent scope that has one.
    pub fn get_imported_function(&self, name: &str) -> (r: Option<ImportedFunction>)
        ensures
            match scopes_find(self.scopes(), name@) {
                Some(f) => r matches Some(g) && g@ == f,
                None => r is None,
            },
    {
        let mut i: usize = self.imported_symbols.len();
        assert(self.scopes().take(i as int) =~= self.scopes());
        while i > 0
            invariant
                i <= self.imported_symbols@.len(),
                scopes_find(self.scopes(), name@) == scopes_find(self.scopes().take(i as int), name@),
            decreases i,
        {
            let fs = &self.imported_symbols[i - 1].functions;
            let ghost sv = scope_view(self.imported_symbols@[i - 1]);
            assert(self.scopes()[i - 1] == sv);
            assert(self.scopes().take(i as int).last() == sv);
            let mut j: usize = 0;
            while j < fs.len()
                invariant
                    sv == fs@.map_values(|f: ImportedFunction| f@),
                    j <= fs@.len(),
                    0 < i <= self.imported_symbols@.len(),
                    self.scopes().take(i as int).last() == sv,
                    scopes_find(self.scopes(), name@) == scopes_find(self.scopes().take(i as int), name@),
                    forall|k: int| 0 <= k < j ==> #[trigger] sv[k].alias != name@,
                decreases fs@.len() - j,
            {
                if str_eq(fs[j].alias.as_str(), name) {
                    proof {
                        assert(fs@[j as int]@ == sv[j as int]);
                        assert(sv[j as int].alias == name@);
                        lemma_alias_position(sv, name@);
                        if let Some(k) = alias_position(sv, name@) {
                            if k > j {
                                assert(sv[j as int].alias != name@);
                            }
                        }
                        assert(alias_position(sv, name@) == Some(j as int));
                        assert(scope_find(sv, name@) == Some(sv[j as int]));
                    }
                    return Some(fs[j].duplicate());
                }
                j += 1;
            }
            proof {
                lemma_alias_position(sv, name@);
                assert(alias_position(sv, name@) is None);
                assert(self.scopes().take(i as int).drop_last() =~= self.scopes().take(i - 1));
            }
            i -= 1;
        }
        assert(self.scopes().take(0).len() == 0);
        None
    }
}

} // verus!

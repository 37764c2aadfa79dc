//! The tags of the core extension. Of their parsers, `from` is complete,
//! `macro` and `set` read their heads, and the others are not written yet.
use vstd::prelude::*;
use crate::error::{ErrorAt, ErrorMessage};
use crate::extension::core_extension::error::{CoreErrorAt, CoreErrorMessage};
use crate::nodes::TokenParserExtension;
use crate::nodes::body::{Body, BodySpec, ImportTarget, ImportTargetSpec};
use crate::nodes::context::{
    Context, Input, ImportedFunctionSpec, operators_ok, same_error, error_at, token_at,
    expected_name, expected_token, scope_insert, skip_test,
};
use crate::nodes::expr::{Expr, ExprSpec, ExprValue, ExprValueSpec, list_view, lemma_list_view_push};
use crate::nodes::expr_parser::{parse_expression, parse_named_arguments};
use crate::nodes::grammar::{
    Parsed, remaining, string_with, parsed_expression, parsed_named_arguments, expr_outcome, list_outcome,
};
use crate::tokens::{Token, TokenValue};

verus! {

/// The `for` tag.
pub struct For;

impl For {
    pub fn new() -> For {
        For
    }
}

impl TokenParserExtension for For {
    open spec fn tag_spec(&self) -> &'static str {
        "for"
    }

    fn get_tag(&self) -> (r: &'static str) {
        "for"
    }

    /// Not written yet: reports so at the tag's line.
    fn parse(&self, parser: &mut Context, token: &Token) -> (r: Result<Option<Body>, ErrorAt>)
        ensures
            *final(parser) == *old(parser),
            r == Err::<Option<Body>, ErrorAt>(error_at(ErrorMessage::NotImplemented("the for tag"), token.line_num)),
    {
        Err(ErrorAt::new_at(ErrorMessage::NotImplemented("the for tag"), token.line_num))
    }
}

/// The `if` tag.
pub struct If;

impl If {
    pub fn new() -> If {
        If
    }
}

impl TokenParserExtension for If {
    open spec fn tag_spec(&self) -> &'static str {
        "if"
    }

    fn get_tag(&self) -> (r: &'static str) {
        "if"
    }

    /// Not written yet: reports so at the tag's line.
    fn parse(&self, parser: &mut Context, token: &Token) -> (r: Result<Option<Body>, ErrorAt>)
        ensures
            *final(parser) == *old(parser),
            r == Err::<Option<Body>, ErrorAt>(error_at(ErrorMessage::NotImplemented("the if tag"), token.line_num)),
    {
        Err(ErrorAt::new_at(ErrorMessage::NotImplemented("the if tag"), token.line_num))
    }
}

/// The `extends` tag.
pub struct Extends;

impl Extends {
    pub fn new() -> Extends {
        Extends
    }
}

impl TokenParserExtension for Extends {
    open spec fn tag_spec(&self) -> &'static str {
        "extends"
    }

    fn get_tag(&self) -> (r: &'static str) {
        "extends"
    }

    /// Not written yet: reports so at the tag's line.
    fn parse(&self, parser: &mut Context, token: &Token) -> (r: Result<Option<Body>, ErrorAt>)
        ensures
            *final(parser) == *old(parser),
            r == Err::<Option<Body>, ErrorAt>(error_at(ErrorMessage::NotImplemented("the extends tag"), token.line_num)),
    {
        Err(ErrorAt::new_at(ErrorMessage::NotImplemented("the extends tag"), token.line_num))
    }
}

/// The `include` tag.
pub struct Include;

impl Include {
    pub fn new() -> Include {
        Include
    }
}

impl TokenParserExtension for Include {
    open spec fn tag_spec(&self) -> &'static str {
        "include"
    }

    fn get_tag(&self) -> (r: &'static str) {
        "include"
    }

    /// Not written yet: reports so at the tag's line.
    fn parse(&self, parser: &mut Context, token: &Token) -> (r: Result<Option<Body>, ErrorAt>)
        ensures
            *final(parser) == *old(parser),
            r == Err::<Option<Body>, ErrorAt>(error_at(ErrorMessage::NotImplemented("the include tag"), token.line_num)),
    {
        Err(ErrorAt::new_at(ErrorMessage::NotImplemented("the include tag"), token.line_num))
    }
}

/// The `block` tag.
pub struct Block;

impl Block {
    pub fn new() -> Block {
        Block
    }
}

impl TokenParserExtension for Block {
    open spec fn tag_spec(&self) -> &'static str {
        "block"
    }

    fn get_tag(&self) -> (r: &'static str) {
        "block"
    }

    /// Not written yet: reports so at the tag's line.
    fn parse(&self, parser: &mut Context, token: &Token) -> (r: Result<Option<Body>, ErrorAt>)
        ensures
            *final(parser) == *old(parser),
            r == Err::<Option<Body>, ErrorAt>(error_at(ErrorMessage::NotImplemented("the block tag"), token.line_num)),
    {
        Err(ErrorAt::new_at(ErrorMessage::NotImplemented("the block tag"), token.line_num))
    }
}

/// The `use` tag.
pub struct Use;

impl Use {
    pub fn new() -> Use {
        Use
    }
}

impl TokenParserExtension for Use {
    open spec fn tag_spec(&self) -> &'static str {
        "use"
    }

    fn get_tag(&self) -> (r: &'static str) {
        "use"
    }

    /// Not written yet: reports so at the tag's line.
    fn parse(&self, parser: &mut Context, token: &Token) -> (r: Result<Option<Body>, ErrorAt>)
        ensures
            *final(parser) == *old(parser),
            r == Err::<Option<Body>, ErrorAt>(error_at(ErrorMessage::NotImplemented("the use tag"), token.line_num)),
    {
        Err(ErrorAt::new_at(ErrorMessage::NotImplemented("the use tag"), token.line_num))
    }
}

/// The `filter` tag.
pub struct Filter;

impl Filter {
    pub fn new() -> Filter {
        Filter
    }
}

impl TokenParserExtension for Filter {
    open spec fn tag_spec(&self) -> &'static str {
        "filter"
    }

    fn get_tag(&self) -> (r: &'static str) {
        "filter"
    }

    /// Not written yet: reports so at the tag's line.
    fn parse(&self, parser: &mut Context, token: &Token) -> (r: Result<Option<Body>, ErrorAt>)
        ensures
            *final(parser) == *old(parser),
            r == Err::<Option<Body>, ErrorAt>(error_at(ErrorMessage::NotImplemented("the filter tag"), token.line_num)),
    {
        Err(ErrorAt::new_at(ErrorMessage::NotImplemented("the filter tag"), token.line_num))
    }
}

/// The `macro` tag.
pub struct Macro;

impl Macro {
    pub fn new() -> Macro {
        Macro
    }
}

/// The head of a macro: its name, its arguments with their defaults, and the
/// end of the tag; the position after it.
pub open spec fn parsed_macro_head(i: Input, p: int) -> Result<int, ErrorAt> {
    match expected_name(i.tokens, p) {
        Err(x) => Err(x),
        Ok(_) => match parsed_named_arguments(i, p + 1, true) {
            Err(x) => Err(x),
            Ok((_, q)) => match expected_token(i.tokens, q, TokenValue::BlockEnd) {
                Err(x) => Err(x),
                Ok(_) => Ok(q + 1),
            },
        },
    }
}

impl TokenParserExtension for Macro {
    open spec fn tag_spec(&self) -> &'static str {
        "macro"
    }

    fn get_tag(&self) -> (r: &'static str) {
        "macro"
    }

    /// Reads the head of the macro and opens its scope; macro bodies are not
    /// parsed yet, which it reports at the tag's line.
    fn parse(&self, parser: &mut Context, token: &Token) -> (r: Result<Option<Body>, ErrorAt>)
        ensures
            match parsed_macro_head(old(parser).input(), old(parser).pos()) {
                Err(e) => r matches Err(x) && same_error(x, e),
                Ok(q) => r == Err::<Option<Body>, ErrorAt>(
                    error_at(ErrorMessage::NotImplemented("macro bodies"), token.line_num),
                ) && final(parser).pos() == q && final(parser).scopes() == old(parser).scopes().push(Seq::empty()),
            },
    {
        let _name = parser.expect_name()?;
        let _arguments = parse_named_arguments(parser, true)?;
        let line = token.line_num;
        parser.expect(TokenValue::BlockEnd)?;
        parser.push_local_scope();
        Err(ErrorAt::new_at(ErrorMessage::NotImplemented("macro bodies"), line))
    }
}

/// The `import` tag.
pub struct Import;

impl Import {
    pub fn new() -> Import {
        Import
    }
}

impl TokenParserExtension for Import {
    open spec fn tag_spec(&self) -> &'static str {
        "import"
    }

    fn get_tag(&self) -> (r: &'static str) {
        "import"
    }

    /// Not written yet: reports so at the tag's line.
    fn parse(&self, parser: &mut Context, token: &Token) -> (r: Result<Option<Body>, ErrorAt>)
        ensures
            *final(parser) == *old(parser),
            r == Err::<Option<Body>, ErrorAt>(error_at(ErrorMessage::NotImplemented("the import tag"), token.line_num)),
    {
        Err(ErrorAt::new_at(ErrorMessage::NotImplemented("the import tag"), token.line_num))
    }
}

/// The `from` tag: `{% from source import name, name as alias %}`.
pub struct From;

impl From {
    pub fn new() -> From {
        From
    }
}

/// The names an import brings in after `acc`, each with its alias (itself
/// when none is given): pairs (alias, name), separated by commas.
pub open spec fn parsed_import_targets(i: Input, p: int, acc: Seq<(Seq<char>, Seq<char>)>) -> Result<(Seq<(Seq<char>, Seq<char>)>, int), ErrorAt>
    decreases remaining(i, p),
{
    match expected_name(i.tokens, p) {
        Err(x) => Err(x),
        Ok(name) => {
            let alias_part: Result<(Seq<char>, int), ErrorAt> = match skip_test(
                i.tokens,
                p + 1,
                TokenValue::Name(string_with("as"@)),
            ) {
                Err(x) => Err(x),
                Ok(true) => match expected_name(i.tokens, p + 2) {
                    Err(x) => Err(x),
                    Ok(a) => Ok((a, p + 3)),
                },
                Ok(false) => Ok((name, p + 1)),
            };
            match alias_part {
                Err(x) => Err(x),
                Ok((alias, q)) => {
                    let acc2 = acc.push((alias, name));
                    match skip_test(i.tokens, q, TokenValue::Punctuation(',')) {
                        Err(x) => Err(x),
                        Ok(true) => parsed_import_targets(i, q + 1, acc2),
                        Ok(false) => Ok((acc2, q)),
                    }
                },
            }
        },
    }
}

/// The rest of a `from` tag: the source expression, `import`, the targets
/// and the end of the tag; with the position after it.
pub open spec fn parsed_from(i: Input, p: int) -> Result<(ExprSpec, Seq<(Seq<char>, Seq<char>)>, int), ErrorAt> {
    match parsed_expression(i, p, 0) {
        Err(x) => Err(x),
        Ok((source, q)) => match expected_token(i.tokens, q, TokenValue::Name(string_with("import"@))) {
            Err(x) => Err(x),
            Ok(_) => match parsed_import_targets(i, q + 1, Seq::empty()) {
                Err(x) => Err(x),
                Ok((targets, q2)) => match expected_token(i.tokens, q2, TokenValue::BlockEnd) {
                    Err(x) => Err(x),
                    Ok(_) => Ok((source, targets, q2 + 1)),
                },
            },
        },
    }
}

/// The scopes after importing `fs`, in order, into the innermost one.
pub open spec fn imports_applied(scopes: Seq<Seq<ImportedFunctionSpec>>, fs: Seq<ImportedFunctionSpec>) -> Seq<Seq<ImportedFunctionSpec>>
    decreases fs.len(),
{
    if fs.len() == 0 {
        scopes
    } else {
        let prev = imports_applied(scopes, fs.drop_last());
        prev.update(prev.len() - 1, scope_insert(prev.last(), fs.last()))
    }
}

/// Importing keeps the number of scopes.
pub proof fn lemma_imports_applied_len(scopes: Seq<Seq<ImportedFunctionSpec>>, fs: Seq<ImportedFunctionSpec>)
    requires
        scopes.len() > 0,
    ensures
        imports_applied(scopes, fs).len() == scopes.len(),
    decreases fs.len(),
{
    if fs.len() > 0 {
        lemma_imports_applied_len(scopes, fs.drop_last());
    }
}

/// The imported functions that import targets stand for.
pub open spec fn target_functions(slots: Seq<(u128, String, ImportTarget)>) -> Seq<ImportedFunctionSpec> {
    slots.map_values(
        |t: (u128, String, ImportTarget)|
            ImportedFunctionSpec {
                uuid: t.0,
                alias: t.1@,
                name: match t.2 {
                    ImportTarget::Function { symbol } => symbol@,
                },
            },
    )
}

/// The views of (alias, name) pairs.
pub open spec fn pairs_of(v: Seq<(String, String)>) -> Seq<(Seq<char>, Seq<char>)> {
    v.map_values(|t: (String, String)| (t.0@, t.1@))
}

/// Parses the import targets after `acc`.
fn parse_import_targets(parser: &mut Context, acc: Vec<(String, String)>) -> (r: Result<Vec<(String, String)>, ErrorAt>)
    ensures
        final(parser).same_input(&*old(parser)),
        final(parser).scopes() == old(parser).scopes(),
        match parsed_import_targets(old(parser).input(), old(parser).pos(), pairs_of(acc@)) {
            Ok((v, q)) => r matches Ok(x) && pairs_of(x@) == v && final(parser).pos() == q,
            Err(e) => r matches Err(x) && same_error(x, e),
        },
    decreases remaining(old(parser).input(), old(parser).pos()),
{
    let name = parser.expect_name()?;
    let as_word = String::from_str("as");
    proof {
        assert(string_with("as"@)@ == "as"@);
    }
    let alias = if parser.skip_to_next_if(TokenValue::Name(as_word))? {
        parser.expect_name()?
    } else {
        name.clone()
    };
    let mut acc = acc;
    proof {
        assert(pairs_of(acc@.push((alias, name))) =~= pairs_of(acc@).push((alias@, name@)));
    }
    acc.push((alias, name));
    if parser.skip_to_next_if(TokenValue::Punctuation(','))? {
        parse_import_targets(parser, acc)
    } else {
        Ok(acc)
    }
}

impl TokenParserExtension for From {
    open spec fn tag_spec(&self) -> &'static str {
        "from"
    }

    fn get_tag(&self) -> (r: &'static str) {
        "from"
    }

    /// Parses the source and the targets, and imports each target, under a
    /// fresh key, into the innermost scope.
    fn parse(&self, parser: &mut Context, token: &Token) -> (r: Result<Option<Body>, ErrorAt>)
        ensures
            match parsed_from(old(parser).input(), old(parser).pos()) {
                Err(e) => r matches Err(x) && same_error(x, e),
                Ok((source, targets, q)) => {
                    &&& r matches Ok(Some(Body::Import { source: s, targets: slots, line }))
                    &&& s@ == source
                    &&& line == token.line_num
                    &&& slots@.len() == targets.len()
                    &&& forall|k: int|
                        0 <= k < targets.len() ==> (#[trigger] slots@[k]).1@ == targets[k].0 && slots@[k].2@
                            == (ImportTargetSpec::Function { symbol: targets[k].1 }) && slots@[k].0
                            & 0xF000_C000_0000_0000_0000u128 == 0x4000_8000_0000_0000_0000u128
                    &&& final(parser).pos() == q
                    &&& final(parser).scopes() == imports_applied(old(parser).scopes(), target_functions(slots@))
                },
            },
    {
        let macro_expr = parse_expression(parser, 0)?;
        let import_word = String::from_str("import");
        proof {
            assert(string_with("import"@)@ == "import"@);
        }
        parser.expect(TokenValue::Name(import_word))?;
        let no_targets: Vec<(String, String)> = Vec::new();
        assert(pairs_of(no_targets@) =~= Seq::<(Seq<char>, Seq<char>)>::empty());
        let targets = parse_import_targets(parser, no_targets)?;
        parser.expect(TokenValue::BlockEnd)?;
        let ghost scopes0 = parser.scopes();
        let ghost pos_after = parser.pos();
        let mut slots: Vec<(u128, String, ImportTarget)> = Vec::new();
        let mut k: usize = 0;
        assert(target_functions(slots@) =~= Seq::<ImportedFunctionSpec>::empty());
        while k < targets.len()
            invariant
                k <= targets@.len(),
                slots@.len() == k,
                parser.operators@ == old(parser).operators@,
                parser.tokens() == old(parser).tokens(),
                parser.imported_symbols@.len() == scopes0.len(),
                scopes0.len() > 0,
                parser.pos() == pos_after,
                forall|j: int|
                    0 <= j < k ==> (#[trigger] slots@[j]).1@ == targets@[j].0@ && slots@[j].2@
                        == (ImportTargetSpec::Function { symbol: targets@[j].1@ }) && slots@[j].0
                        & 0xF000_C000_0000_0000_0000u128 == 0x4000_8000_0000_0000_0000u128,
                parser.scopes() == imports_applied(scopes0, target_functions(slots@)),
            decreases targets@.len() - k,
        {
            let alias = &targets[k].0;
            let name = &targets[k].1;
            let uuid = parser.add_imported_function(alias.as_str(), name.as_str());
            assert(parser.scopes().len() == parser.imported_symbols@.len());
            let slot = (uuid, alias.clone(), ImportTarget::Function { symbol: name.clone() });
            proof {
                let fs = target_functions(slots@);
                let f = ImportedFunctionSpec { uuid, alias: alias@, name: name@ };
                assert(target_functions(slots@.push(slot)) =~= fs.push(f));
                assert(fs.push(f).drop_last() =~= fs);
                lemma_imports_applied_len(scopes0, fs);
            }
            slots.push(slot);
            k += 1;
        }
        proof {
            assert forall|j: int| 0 <= j < targets@.len() implies #[trigger] pairs_of(targets@)[j] == (
            targets@[j].0@, targets@[j].1@) by {}
        }
        Ok(Some(Body::Import { source: Box::new(macro_expr), targets: slots, line: token.line_num }))
    }
}

/// The `set` tag.
pub struct SetTag;

impl SetTag {
    pub fn new() -> SetTag {
        SetTag
    }
}

/// Names that cannot be assigned to.
pub open spec fn invalid_lvalue(n: Seq<char>) -> bool {
    n == "true"@ || n == "false"@ || n == "none"@
}

/// The targets of an assignment after `acc`: names separated by commas.
pub open spec fn parsed_assignment_targets(i: Input, p: int, acc: Seq<ExprSpec>) -> Parsed<Seq<ExprSpec>>
    decreases remaining(i, p),
{
    match token_at(i.tokens, p) {
        Err(x) => Err(x),
        Ok(t) => match t.value {
            TokenValue::Name(n) => if invalid_lvalue(n@) {
                Err(error_at(ErrorMessage::CustomError(CoreErrorMessage::CanNotAssignTo(n)), t.line_num))
            } else {
                let acc2 = acc.push(ExprSpec { line: t.line_num, value: ExprValueSpec::AssignName(n@) });
                match skip_test(i.tokens, p + 1, TokenValue::Punctuation(',')) {
                    Err(x) => Err(x),
                    Ok(true) => parsed_assignment_targets(i, p + 2, acc2),
                    Ok(false) => Ok((acc2, p + 1)),
                }
            },
            _ => Err(
                error_at(ErrorMessage::CustomError(CoreErrorMessage::OnlyVariablesCanBeAssignedTo), t.line_num),
            ),
        },
    }
}

/// Parses the targets of an assignment: names separated by commas.
pub fn parse_assignment_expression(parser: &mut Context) -> (r: Result<Vec<Expr>, ErrorAt>)
    ensures
        final(parser).same_input(&*old(parser)),
        final(parser).scopes() == old(parser).scopes(),
        list_outcome(
            r,
            parsed_assignment_targets(old(parser).input(), old(parser).pos(), Seq::empty()),
            final(parser).pos(),
        ),
{
    let targets: Vec<Expr> = Vec::new();
    assert(list_view(targets@) =~= Seq::<ExprSpec>::empty());
    parse_assignment_targets(parser, targets)
}

/// Parses the targets of an assignment after `targets`.
fn parse_assignment_targets(parser: &mut Context, targets: Vec<Expr>) -> (r: Result<Vec<Expr>, ErrorAt>)
    ensures
        final(parser).same_input(&*old(parser)),
        final(parser).scopes() == old(parser).scopes(),
        list_outcome(
            r,
            parsed_assignment_targets(old(parser).input(), old(parser).pos(), list_view(targets@)),
            final(parser).pos(),
        ),
    decreases remaining(old(parser).input(), old(parser).pos()),
{
    let token = parser.current()?;
    let line = token.line_num;
    let name = match token.value {
        TokenValue::Name(name) => {
            let _ = parser.next();
            name
        },
        _ => {
            return Err(CoreErrorAt::new_at(CoreErrorMessage::OnlyVariablesCanBeAssignedTo, line).into_error());
        },
    };
    let n = name.as_str();
    if crate::chars::str_eq(n, "true") || crate::chars::str_eq(n, "false") || crate::chars::str_eq(n, "none") {
        return Err(CoreErrorAt::new_at(CoreErrorMessage::CanNotAssignTo(name), line).into_error());
    }
    let target = Expr::new_at(ExprValue::AssignName(name), line);
    let mut targets = targets;
    proof {
        lemma_list_view_push(targets@, target);
    }
    targets.push(target);
    if parser.skip_to_next_if(TokenValue::Punctuation(','))? {
        parse_assignment_targets(parser, targets)
    } else {
        Ok(targets)
    }
}

impl TokenParserExtension for SetTag {
    open spec fn tag_spec(&self) -> &'static str {
        "set"
    }

    fn get_tag(&self) -> (r: &'static str) {
        "set"
    }

    /// Reads the targets of the assignment; the rest is not parsed yet, which
    /// it reports at the tag's line.
    fn parse(&self, parser: &mut Context, token: &Token) -> (r: Result<Option<Body>, ErrorAt>)
        ensures
            match parsed_assignment_targets(old(parser).input(), old(parser).pos(), Seq::empty()) {
                Err(e) => r matches Err(x) && same_error(x, e),
                Ok((_, q)) => r == Err::<Option<Body>, ErrorAt>(
                    error_at(ErrorMessage::NotImplemented("the set tag"), token.line_num),
                ) && final(parser).pos() == q,
            },
    {
        let line = token.line_num;
        let _targets = parse_assignment_expression(parser)?;
        Err(ErrorAt::new_at(ErrorMessage::NotImplemented("the set tag"), line))
    }
}

/// The `spaceless` tag.
pub struct Spaceless;

impl Spaceless {
    pub fn new() -> Spaceless {
        Spaceless
    }
}

impl TokenParserExtension for Spaceless {
    open spec fn tag_spec(&self) -> &'static str {
        "spaceless"
    }

    fn get_tag(&self) -> (r: &'static str) {
        "spaceless"
    }

    /// Not written yet: reports so at the tag's line.
    fn parse(&self, parser: &mut Context, token: &Token) -> (r: Result<Option<Body>, ErrorAt>)
        ensures
            *final(parser) == *old(parser),
            r == Err::<Option<Body>, ErrorAt>(error_at(ErrorMessage::NotImplemented("the spaceless tag"), token.line_num)),
    {
        Err(ErrorAt::new_at(ErrorMessage::NotImplemented("the spaceless tag"), token.line_num))
    }
}

/// The `flush` tag.
pub struct Flush;

impl Flush {
    pub fn new() -> Flush {
        Flush
    }
}

impl TokenParserExtension for Flush {
    open spec fn tag_spec(&self) -> &'static str {
        "flush"
    }

    fn get_tag(&self) -> (r: &'static str) {
        "flush"
    }

    /// Not written yet: reports so at the tag's line.
    fn parse(&self, parser: &mut Context, token: &Token) -> (r: Result<Option<Body>, ErrorAt>)
        ensures
            *final(parser) == *old(parser),
            r == Err::<Option<Body>, ErrorAt>(error_at(ErrorMessage::NotImplemented("the flush tag"), token.line_num)),
    {
        Err(ErrorAt::new_at(ErrorMessage::NotImplemented("the flush tag"), token.line_num))
    }
}

/// The `do` tag.
pub struct Do;

impl Do {
    pub fn new() -> Do {
        Do
    }
}

impl TokenParserExtension for Do {
    open spec fn tag_spec(&self) -> &'static str {
        "do"
    }

    fn get_tag(&self) -> (r: &'static str) {
        "do"
    }

    /// Not written yet: reports so at the tag's line.
    fn parse(&self, parser: &mut Context, token: &Token) -> (r: Result<Option<Body>, ErrorAt>)
        ensures
            *final(parser) == *old(parser),
            r == Err::<Option<Body>, ErrorAt>(error_at(ErrorMessage::NotImplemented("the do tag"), token.line_num)),
    {
        Err(ErrorAt::new_at(ErrorMessage::NotImplemented("the do tag"), token.line_num))
    }
}

/// The `embed` tag.
pub struct Embed;

impl Embed {
    pub fn new() -> Embed {
        Embed
    }
}

impl TokenParserExtension for Embed {
    open spec fn tag_spec(&self) -> &'static str {
        "embed"
    }

    fn get_tag(&self) -> (r: &'static str) {
        "embed"
    }

    /// Not written yet: reports so at the tag's line.
    fn parse(&self, parser: &mut Context, token: &Token) -> (r: Result<Option<Body>, ErrorAt>)
        ensures
            *final(parser) == *old(parser),
            r == Err::<Option<Body>, ErrorAt>(error_at(ErrorMessage::NotImplemented("the embed tag"), token.line_num)),
    {
        Err(ErrorAt::new_at(ErrorMessage::NotImplemented("the embed tag"), token.line_num))
    }
}

} // verus!

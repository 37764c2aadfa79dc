//! A tag and the parser of its body.
use vstd::prelude::*;
use crate::nodes::TokenParserExtension;

verus! {

/// A tag name together with the extension that parses the tag.
pub struct TokenParser {
    pub tag: &'static str,
    pub extension: Box<dyn TokenParserExtension>,
}

impl TokenParser {
    pub fn new<E: TokenParserExtension + 'static>(parser_extension: E) -> (t: TokenParser)
        ensures
            t.tag == parser_extension.tag_spec(),
    {
        TokenParser { tag: parser_extension.get_tag(), extension: Box::new(parser_extension) }
    }
}

} // verus!

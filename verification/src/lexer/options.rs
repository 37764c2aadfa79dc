//! Delimiters of the template syntax.
use vstd::prelude::*;

verus! {

/// Start and end markers of one kind of tag.
#[derive(Copy, Clone)]
pub struct Delimiters {
    pub start: &'static str,
    pub end: &'static str,
}

impl Delimiters {
    pub fn new(start: &'static str, end: &'static str) -> (d: Delimiters)
        ensures
            d.start == start,
            d.end == end,
    {
        Delimiters { start, end }
    }
}

/// Twig options.
#[derive(Copy, Clone)]
pub struct Options {
    pub tag_comment: Delimiters,
    pub tag_block: Delimiters,
    pub tag_variable: Delimiters,
    pub whitespace_trim: &'static str,
    pub interpolation: Delimiters,
}

impl Options {
    /// No delimiter is empty.
    pub open spec fn delimiters_non_empty(&self) -> bool {
        &&& self.tag_variable.start@.len() > 0
        &&& self.tag_variable.end@.len() > 0
        &&& self.tag_block.start@.len() > 0
        &&& self.tag_block.end@.len() > 0
        &&& self.tag_comment.start@.len() > 0
        &&& self.tag_comment.end@.len() > 0
        &&& self.interpolation.start@.len() > 0
        &&& self.interpolation.end@.len() > 0
    }

    /// The standard Twig syntax: `{# #}`, `{% %}`, `{{ }}`, `-` and `#{ }`.
    pub fn default() -> (o: Options)
        ensures
            o.tag_comment.start@ == "{#"@,
            o.tag_comment.end@ == "#}"@,
            o.tag_block.start@ == "{%"@,
            o.tag_block.end@ == "%}"@,
            o.tag_variable.start@ == "{{"@,
            o.tag_variable.end@ == "}}"@,
            o.whitespace_trim@ == "-"@,
            o.interpolation.start@ == "#{"@,
            o.interpolation.end@ == "}"@,
    {
        Options {
            tag_comment: Delimiters::new("{#", "#}"),
            tag_block: Delimiters::new("{%", "%}"),
            tag_variable: Delimiters::new("{{", "}}"),
            whitespace_trim: "-",
            interpolation: Delimiters::new("#{", "}"),
        }
    }
}

} // verus!

//! Errors of the engine: finding templates.
use vstd::prelude::*;
use crate::chars::{debug_quoted, debug_string};
use crate::error::{Caused, Error, ExtensionError, quoted};

verus! {

/// What went wrong while finding a template.
#[derive(Clone, Debug)]
pub enum EngineError {
    TemplateNotFound { name: String, search_paths: Vec<String> },
}

/// The paths as `{:?}` writes a list of them: `["a", "b"]`.
pub open spec fn debug_list(s: Seq<String>) -> Seq<char> {
    "["@ + debug_items(s) + "]"@
}

/// The paths as `{:?}` writes them, separated by `, `.
pub open spec fn debug_items(s: Seq<String>) -> Seq<char>
    decreases s.len(),
{
    if s.len() == 0 {
        Seq::empty()
    } else if s.len() == 1 {
        debug_quoted(s[0]@)
    } else {
        debug_items(s.drop_last()) + ", "@ + debug_quoted(s.last()@)
    }
}

impl EngineError {
    /// This error, caused by `cause`.
    pub fn caused_by(self, cause: Error) -> (c: Caused<EngineError>)
        ensures
            c.err == self,
            *c.cause == Some(cause),
    {
        Caused::new(self, Some(cause))
    }

    /// The text of the error.
    pub open spec fn text(&self) -> Seq<char> {
        match self {
            EngineError::TemplateNotFound { name, search_paths } => if search_paths@.len() == 0 {
                "Template "@ + quoted(name@) + " was not found"@
            } else {
                "Template "@ + quoted(name@) + " was not found, looked in "@ + debug_list(search_paths@)
            },
        }
    }

    /// Writes the text of the error.
    pub fn message(&self) -> (r: String)
        ensures
            r@ == self.text(),
    {
        match self {
            EngineError::TemplateNotFound { name, search_paths } => {
                let r = String::from_str("Template \"");
                let r = r.concat(name.as_str());
                let r = r.concat("\" was not found");
                proof {
                    reveal_strlit("Template \"");
                    reveal_strlit("Template ");
                    reveal_strlit("\"");
                    reveal_strlit("\" was not found");
                    reveal_strlit(" was not found");
                    assert(r@ =~= "Template "@ + quoted(name@) + " was not found"@);
                }
                if search_paths.len() == 0 {
                    return r;
                }
                let mut items = String::new();
                let mut i: usize = 0;
                assert(items@ =~= debug_items(search_paths@.take(0)));
                while i < search_paths.len()
                    invariant
                        i <= search_paths@.len(),
                        items@ == debug_items(search_paths@.take(i as int)),
                    decreases search_paths@.len() - i,
                {
                    let d = debug_string(search_paths[i].as_str());
                    proof {
                        reveal_strlit(", ");
                        let t = search_paths@.take(i + 1);
                        assert(t.drop_last() =~= search_paths@.take(i as int));
                        assert(t.last() == search_paths@[i as int]);
                    }
                    if i == 0 {
                        items = d;
                        assert(search_paths@.take(1).len() == 1);
                        assert(search_paths@.take(1)[0] == search_paths@[0]);
                    } else {
                        items = items.concat(", ");
                        items = items.concat(d.as_str());
                    }
                    i += 1;
                }
                assert(search_paths@.take(i as int) =~= search_paths@);
                let r = r.concat(", looked in [");
                let r = r.concat(items.as_str());
                let r = r.concat("]");
                proof {
                    reveal_strlit(", looked in [");
                    reveal_strlit(" was not found, looked in ");
                    reveal_strlit("[");
                    reveal_strlit("]");
                    assert(r@ =~= "Template "@ + quoted(name@) + " was not found, looked in "@ + debug_list(
                        search_paths@,
                    ));
                }
                r
            },
        }
    }
}

impl ExtensionError for EngineError {
    open spec fn text(&self) -> Seq<char> {
        EngineError::text(self)
    }

    fn message(&self) -> (r: String) {
        EngineError::message(self)
    }
}

} // verus!

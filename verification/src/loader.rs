//! Sources of templates, by name.
use vstd::prelude::*;
use std::collections::HashMap;
use crate::environment::map_get;
use crate::error::{Error, ErrorAt, ErrorMessage};
use crate::error::engine::EngineError;

verus! {

/// Gives the source of a template by its name.
pub trait Loader {
    fn get_source(&self, name: &str) -> Result<String, Error>;
}

/// Templates held in memory, by name.
#[derive(Debug)]
pub struct ArrayLoader {
    files: HashMap<String, String>,
}

impl ArrayLoader {
    /// A loader of the given sources.
    pub fn new(sources: HashMap<String, String>) -> (l: ArrayLoader)
        ensures
            l.files() == sources@,
    {
        ArrayLoader { files: sources }
    }

    /// The sources, by name.
    pub closed spec fn files(&self) -> Map<String, String> {
        self.files@
    }

    /// The loader has a template whose name has the characters `name`.
    pub open spec fn has(&self, name: Seq<char>) -> bool {
        exists|k: String| #[trigger] self.files().contains_key(k) && k@ == name
    }
}

impl Loader for ArrayLoader {
    /// The source of the template `name`; else `TemplateNotFound`, with no
    /// search paths, caused by an end of template at line 0.
    fn get_source(&self, name: &str) -> (r: Result<String, Error>)
        ensures
            r is Ok <==> self.has(name@),
            r matches Ok(s) ==> exists|k: String|
                #[trigger] self.files().contains_key(k) && k@ == name@ && self.files()[k]@ == s@,
            r matches Err(e) ==> (e matches Error::Engine(c) && c.err matches EngineError::TemplateNotFound {
                name: n,
                search_paths: paths,
            } && n@ == name@ && paths@.len() == 0 && *c.cause == Some(
                Error::Template(ErrorAt { line: Some(0), message: Box::new(ErrorMessage::UnexpectedEndOfTemplate) }),
            )),
    {
        match map_get(&self.files, name) {
            Some(contents) => {
                proof {
                    let k = choose|k: String| #[trigger] self.files@.contains_key(k) && k@ == name@
                        && self.files@[k]@ == contents@;
                    assert(self.files().contains_key(k));
                }
                Ok(contents)
            },
            None => {
                let not_found = EngineError::TemplateNotFound { name: name.to_string(), search_paths: Vec::new() };
                let cause = Error::Template(ErrorAt::new_at(ErrorMessage::UnexpectedEndOfTemplate, 0));
                Err(Error::Engine(not_found.caused_by(cause)))
            },
        }
    }
}

} // verus!

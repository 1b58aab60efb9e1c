//! The HTTP verbs that a mapping annotation can declare.

use vstd::prelude::*;
use crate::text::same_text;

verus! {

/// The verb of an endpoint. `Any` stands for a mapping that is bound to no
/// single verb.
#[derive(Clone, Copy, Debug, PartialEq, Eq, Structural)]
pub enum HttpVerbs {
    Get,
    Post,
    Put,
    Patch,
    Delete,
    Options,
    Head,
    Any,
}

impl HttpVerbs {
    /// The text of the verb: the HTTP method name in upper case, `ANY` for
    /// the verb-agnostic mapping.
    pub open spec fn text(self) -> Seq<char> {
        match self {
            HttpVerbs::Get => "GET"@,
            HttpVerbs::Post => "POST"@,
            HttpVerbs::Put => "PUT"@,
            HttpVerbs::Patch => "PATCH"@,
            HttpVerbs::Delete => "DELETE"@,
            HttpVerbs::Options => "OPTIONS"@,
            HttpVerbs::Head => "HEAD"@,
            HttpVerbs::Any => "ANY"@,
        }
    }

    /// The verb that the annotation called `name` declares, for each of the
    /// eight mapping annotations; `None` for every other name.
    pub open spec fn of_annotation(name: Seq<char>) -> Option<HttpVerbs> {
        if name == "@RequestMapping"@ {
            Some(HttpVerbs::Any)
        } else if name == "@DeleteMapping"@ {
            Some(HttpVerbs::Delete)
        } else if name == "@GetMapping"@ {
            Some(HttpVerbs::Get)
        } else if name == "@HeadMapping"@ {
            Some(HttpVerbs::Head)
        } else if name == "@OptionsMapping"@ {
            Some(HttpVerbs::Options)
        } else if name == "@PatchMapping"@ {
            Some(HttpVerbs::Patch)
        } else if name == "@PostMapping"@ {
            Some(HttpVerbs::Post)
        } else if name == "@PutMapping"@ {
            Some(HttpVerbs::Put)
        } else {
            None
        }
    }

    /// Looks an annotation name up in the dictionary of mapping annotations.
    pub fn from_annotation(name: &str) -> (verb: Option<HttpVerbs>)
        ensures
            verb == HttpVerbs::of_annotation(name@),
    {
        if same_text(name, "@RequestMapping") {
            Some(HttpVerbs::Any)
        } else if same_text(name, "@DeleteMapping") {
            Some(HttpVerbs::Delete)
        } else if same_text(name, "@GetMapping") {
            Some(HttpVerbs::Get)
        } else if same_text(name, "@HeadMapping") {
            Some(HttpVerbs::Head)
        } else if same_text(name, "@OptionsMapping") {
            Some(HttpVerbs::Options)
        } else if same_text(name, "@PatchMapping") {
            Some(HttpVerbs::Patch)
        } else if same_text(name, "@PostMapping") {
            Some(HttpVerbs::Post)
        } else if same_text(name, "@PutMapping") {
            Some(HttpVerbs::Put)
        } else {
            None
        }
    }

    /// The text of the verb.
    pub fn as_str(&self) -> (name: &'static str)
        ensures
            name@ == self.text(),
    {
        match self {
            Self::Get => "GET",
            Self::Post => "POST",
            Self::Put => "PUT",
            Self::Patch => "PATCH",
            Self::Delete => "DELETE",
            Self::Options => "OPTIONS",
            Self::Head => "HEAD",
            Self::Any => "ANY",
        }
    }
}

} // verus!

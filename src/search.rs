//! Choices of the `search` command: the output format and the index.
use vstd::prelude::*;

use crate::config::{same_text, ElasticSearchServer};

verus! {

/// How records are printed: as JSON, as `key: value` lines, or through a template.
#[derive(Debug, Clone, PartialEq, Eq)]
pub enum OutputFormat {
    JSON,
    Pretty,
    Custom(String),
}

impl OutputFormat {
    /// The format named on the command line: `pretty` (also when none is named),
    /// `json`, or any other text as a template.
    pub fn from_name(name: Option<&str>) -> (r: OutputFormat)
        ensures
            name is None ==> r == OutputFormat::Pretty,
            name matches Some(n) ==> (n@ == "pretty"@ ==> r == OutputFormat::Pretty),
            name matches Some(n) ==> (n@ == "json"@ ==> r == OutputFormat::JSON),
            name matches Some(n) ==> (n@ != "pretty"@ && n@ != "json"@ ==> (
            r matches OutputFormat::Custom(t) && t@ == n@)),
    {
        proof {
            reveal_strlit("pretty");
            reveal_strlit("json");
            assert("pretty"@.len() != "json"@.len());
        }
        match name {
            None => OutputFormat::Pretty,
            Some(n) => {
                let owned = n.to_owned();
                if same_text(&owned, "pretty") {
                    OutputFormat::Pretty
                } else if same_text(&owned, "json") {
                    OutputFormat::JSON
                } else {
                    OutputFormat::Custom(owned)
                }
            },
        }
    }
}

/// The index to search: the one given, else the server's default index, else `*`.
pub fn search_index(given: Option<String>, server: &ElasticSearchServer) -> (r: String)
    ensures
        given matches Some(g) ==> r == g,
        given is None ==> (server.default_index matches Some(d) ==> r == d),
        given is None && server.default_index is None ==> r@ == "*"@,
{
    match given {
        Some(g) => g,
        None => match &server.default_index {
            Some(d) => d.clone(),
            None => "*".to_owned(),
        },
    }
}

} // verus!

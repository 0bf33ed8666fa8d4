//! The searches that the client asks a sidecar for.

use crate::json;
use crate::json::JsonView;
use crate::text;
use serde_json::Value;
use vstd::prelude::*;

verus! {

/// A search.
#[derive(Debug)]
pub enum Query {
    /// A fuzzy search for files by path and name.
    Find { query: String, max_results: usize, cursor: Option<String> },
    /// A search of file contents.
    Grep { query: String, max_results: usize, output_mode: String, cursor: Option<String> },
    /// A search of file contents for any of several literal patterns.
    MultiGrep {
        patterns: Vec<String>,
        constraints: Option<String>,
        max_results: usize,
        output_mode: String,
        cursor: Option<String>,
        context: Option<usize>,
    },
}

/// What a search is: whether it is one for several patterns that names none, and what a sidecar is
/// told of it, the names of the tool, on its own routes and for MCP, and the arguments.
pub struct QueryView {
    pub lacks_patterns: bool,
    pub direct_tool: Seq<char>,
    pub mcp_tool: Seq<char>,
    pub payload: JsonView,
}

/// A number, if there is one.
pub open spec fn optional_nat(n: Option<usize>) -> Option<nat> {
    match n {
        Some(n) => Some(n as nat),
        None => None,
    }
}

/// The arguments of a search for files.
pub open spec fn find_payload(
    query: Seq<char>,
    max_results: nat,
    cursor: Option<Seq<char>>,
) -> JsonView {
    json::object(
        seq![
            ("query"@, JsonView::Str(query)),
            ("maxResults"@, json::number_of(max_results)),
            ("cursor"@, json::optional_str(cursor)),
        ],
    )
}

/// The arguments of a search of file contents.
pub open spec fn grep_payload(
    query: Seq<char>,
    max_results: nat,
    output_mode: Seq<char>,
    cursor: Option<Seq<char>>,
) -> JsonView {
    json::object(
        seq![
            ("query"@, JsonView::Str(query)),
            ("maxResults"@, json::number_of(max_results)),
            ("output_mode"@, JsonView::Str(output_mode)),
            ("cursor"@, json::optional_str(cursor)),
        ],
    )
}

/// The arguments of a search for several patterns.
pub open spec fn multi_grep_payload(
    patterns: Seq<Seq<char>>,
    constraints: Option<Seq<char>>,
    max_results: nat,
    output_mode: Seq<char>,
    cursor: Option<Seq<char>>,
    context: Option<nat>,
) -> JsonView {
    json::object(
        seq![
            ("patterns"@, JsonView::Array(patterns.map_values(|p: Seq<char>| JsonView::Str(p)))),
            ("constraints"@, json::optional_str(constraints)),
            ("maxResults"@, json::number_of(max_results)),
            ("output_mode"@, JsonView::Str(output_mode)),
            ("cursor"@, json::optional_str(cursor)),
            ("context"@, json::optional_number(context)),
        ],
    )
}

impl View for Query {
    type V = QueryView;

    open spec fn view(&self) -> QueryView {
        match *self {
            Query::Find { query, max_results, cursor } => QueryView {
                lacks_patterns: false,
                direct_tool: "find"@,
                mcp_tool: "find_files"@,
                payload: find_payload(query@, max_results as nat, text::optional_text(cursor)),
            },
            Query::Grep { query, max_results, output_mode, cursor } => QueryView {
                lacks_patterns: false,
                direct_tool: "grep"@,
                mcp_tool: "grep"@,
                payload: grep_payload(
                    query@,
                    max_results as nat,
                    output_mode@,
                    text::optional_text(cursor),
                ),
            },
            Query::MultiGrep {
                patterns,
                constraints,
                max_results,
                output_mode,
                cursor,
                context,
            } => QueryView {
                lacks_patterns: patterns@.len() == 0,
                direct_tool: "multi-grep"@,
                mcp_tool: "multi_grep"@,
                payload: multi_grep_payload(
                    text::string_texts(patterns@),
                    text::optional_text(constraints),
                    max_results as nat,
                    output_mode@,
                    text::optional_text(cursor),
                    optional_nat(context),
                ),
            },
        }
    }
}

/// Why a search for several patterns that names none is refused.
pub open spec fn no_pattern() -> Seq<char> {
    "multi-grep requires at least one pattern"@
}

impl Query {
    /// The name of the tool on the sidecar's own routes.
    pub fn direct_tool(&self) -> (r: String)
        ensures
            r@ == self@.direct_tool,
    {
        match self {
            Query::Find { .. } => "find".to_string(),
            Query::Grep { .. } => "grep".to_string(),
            Query::MultiGrep { .. } => "multi-grep".to_string(),
        }
    }

    /// The name of the tool for MCP.
    pub fn mcp_tool(&self) -> (r: String)
        ensures
            r@ == self@.mcp_tool,
    {
        match self {
            Query::Find { .. } => "find_files".to_string(),
            Query::Grep { .. } => "grep".to_string(),
            Query::MultiGrep { .. } => "multi_grep".to_string(),
        }
    }

    /// The arguments of the search.
    pub fn payload(&self) -> (r: Value)
        ensures
            json::json_view(r) == self@.payload,
    {
        let mut fields: Vec<(String, Value)> = Vec::new();
        match self {
            Query::Find { query, max_results, cursor } => {
                fields.push(json::field("query", json::json_str(query.as_str())));
                fields.push(json::field("maxResults", json::json_number(*max_results)));
                fields.push(json::field("cursor", json::json_optional_str(cursor)));
                assert(json::field_views(fields@) == seq![
                    ("query"@, JsonView::Str(query@)),
                    ("maxResults"@, json::number_of(*max_results as nat)),
                    ("cursor"@, json::optional_str(text::optional_text(*cursor))),
                ]);
                proof {
                    reveal_strlit("query");
                    reveal_strlit("maxResults");
                    reveal_strlit("cursor");
                    let named = json::field_views(fields@);
                    assert(named[0].0 == "query"@);
                    assert(named[1].0 == "maxResults"@);
                    assert(named[2].0 == "cursor"@);
                    assert(json::names_differ(named));
                }
            },
            Query::Grep { query, max_results, output_mode, cursor } => {
                fields.push(json::field("query", json::json_str(query.as_str())));
                fields.push(json::field("maxResults", json::json_number(*max_results)));
                fields.push(json::field("output_mode", json::json_str(output_mode.as_str())));
                fields.push(json::field("cursor", json::json_optional_str(cursor)));
                assert(json::field_views(fields@) == seq![
                    ("query"@, JsonView::Str(query@)),
                    ("maxResults"@, json::number_of(*max_results as nat)),
                    ("output_mode"@, JsonView::Str(output_mode@)),
                    ("cursor"@, json::optional_str(text::optional_text(*cursor))),
                ]);
                proof {
                    reveal_strlit("query");
                    reveal_strlit("maxResults");
                    reveal_strlit("output_mode");
                    reveal_strlit("cursor");
                    let named = json::field_views(fields@);
                    assert(named[0].0 == "query"@);
                    assert(named[1].0 == "maxResults"@);
                    assert(named[2].0 == "output_mode"@);
                    assert(named[3].0 == "cursor"@);
                    assert(json::names_differ(named));
                }
            },
            Query::MultiGrep {
                patterns,
                constraints,
                max_results,
                output_mode,
                cursor,
                context,
            } => {
                fields.push(json::field("patterns", json::json_strings(patterns)));
                fields.push(json::field("constraints", json::json_optional_str(constraints)));
                fields.push(json::field("maxResults", json::json_number(*max_results)));
                fields.push(json::field("output_mode", json::json_str(output_mode.as_str())));
                fields.push(json::field("cursor", json::json_optional_str(cursor)));
                fields.push(json::field("context", json::json_optional_number(*context)));
                assert(patterns@.map_values(|p: String| JsonView::Str(p@)) == text::string_texts(
                    patterns@,
                ).map_values(|p: Seq<char>| JsonView::Str(p)));
                assert(json::field_views(fields@) == seq![
                    (
                        "patterns"@,
                        JsonView::Array(
                            text::string_texts(patterns@).map_values(
                                |p: Seq<char>| JsonView::Str(p),
                            ),
                        ),
                    ),
                    ("constraints"@, json::optional_str(text::optional_text(*constraints))),
                    ("maxResults"@, json::number_of(*max_results as nat)),
                    ("output_mode"@, JsonView::Str(output_mode@)),
                    ("cursor"@, json::optional_str(text::optional_text(*cursor))),
                    ("context"@, json::optional_number(optional_nat(*context))),
                ]);
                proof {
                    reveal_strlit("patterns");
                    reveal_strlit("constraints");
                    reveal_strlit("maxResults");
                    reveal_strlit("output_mode");
                    reveal_strlit("cursor");
                    reveal_strlit("context");
                    assert("constraints"@[0] != "output_mode"@[0]);
                    let named = json::field_views(fields@);
                    assert(named[0].0 == "patterns"@);
                    assert(named[1].0 == "constraints"@);
                    assert(named[2].0 == "maxResults"@);
                    assert(named[3].0 == "output_mode"@);
                    assert(named[4].0 == "cursor"@);
                    assert(named[5].0 == "context"@);
                    assert(json::names_differ(named));
                }
            },
        }
        json::json_object(fields)
    }

    /// Refuses a search for several patterns that names none.
    pub fn check(&self) -> (r: Result<(), String>)
        ensures
            match r {
                Ok(()) => !self@.lacks_patterns,
                Err(message) => self@.lacks_patterns && message@ == no_pattern(),
            },
    {
        match self {
            Query::MultiGrep { patterns, .. } => if patterns.len() == 0 {
                Err("multi-grep requires at least one pattern".to_string())
            } else {
                Ok(())
            },
            _ => Ok(()),
        }
    }
}

} // verus!

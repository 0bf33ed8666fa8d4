//! What a sidecar is told of a search.

use crate::json;
use crate::json::JsonView;
use crate::laws::numbers;
use crate::query::Query;
use vstd::prelude::*;

verus! {

/// The names of the fields of an object.
pub open spec fn names(value: JsonView) -> Set<Seq<char>> {
    match value {
        JsonView::Object(fields) => fields.dom(),
        _ => Set::empty(),
    }
}

/// `value` is an object in which the field `name` holds `held`, and that is what is got from it.
pub open spec fn has(value: JsonView, name: Seq<char>, held: JsonView) -> bool {
    &&& value matches JsonView::Object(fields) && fields.dom().contains(name) && fields[name]
        == held
    &&& value.get(name) == Some(held)
}

/// `value` is the number `n`.
pub open spec fn is_number(value: JsonView, n: int) -> bool {
    value matches JsonView::Number(digits) && numbers::writes(digits, n)
}

/// `value` is `text`, or null where there is none.
pub open spec fn is_text_or_null(value: JsonView, text: Option<String>) -> bool {
    match text {
        Some(text) => value == JsonView::Str(text@),
        None => value == JsonView::Null,
    }
}

/// `value` is `n`, or null where there is none.
pub open spec fn is_number_or_null(value: JsonView, n: Option<usize>) -> bool {
    match n {
        Some(n) => is_number(value, n as int),
        None => value == JsonView::Null,
    }
}

/// A search for files is sent with its own text, limit and cursor, and with nothing else.
pub proof fn find_is_sent_as_it_is(query: String, max_results: usize, cursor: Option<String>)
    ensures
        ({
            let sent = (Query::Find { query, max_results, cursor })@.payload;
            &&& names(sent) == set!["query"@, "maxResults"@, "cursor"@]
            &&& has(sent, "query"@, JsonView::Str(query@))
            &&& sent.get("maxResults"@) matches Some(limit) && is_number(limit, max_results as int)
                && has(sent, "maxResults"@, limit)
            &&& sent.get("cursor"@) matches Some(at) && is_text_or_null(at, cursor) && has(
                sent,
                "cursor"@,
                at,
            )
        }),
{
    reveal_strlit("query");
    reveal_strlit("maxResults");
    reveal_strlit("cursor");
    reveal_with_fuel(json::fields_of, 4);
    numbers::decimals_are_worth_their_number(max_results as nat);
    let sent = (Query::Find { query, max_results, cursor })@.payload;
    let fields = seq![
        ("query"@, JsonView::Str(query@)),
        ("maxResults"@, json::number_of(max_results as nat)),
        ("cursor"@, json::optional_str(crate::text::optional_text(cursor))),
    ];
    assert("query"@.len() == 5 && "maxResults"@.len() == 10 && "cursor"@.len() == 6);
    assert(fields.drop_last().drop_last().drop_last() == Seq::<(Seq<char>, JsonView)>::empty());
    assert(sent == json::object(fields));
}

/// A search of contents is sent with its own text, limit, mode and cursor, and with nothing else.
pub proof fn grep_is_sent_as_it_is(
    query: String,
    max_results: usize,
    output_mode: String,
    cursor: Option<String>,
)
    ensures
        ({
            let sent = (Query::Grep { query, max_results, output_mode, cursor })@.payload;
            &&& names(sent) == set!["query"@, "maxResults"@, "output_mode"@, "cursor"@]
            &&& has(sent, "query"@, JsonView::Str(query@))
            &&& sent.get("maxResults"@) matches Some(limit) && is_number(limit, max_results as int)
                && has(sent, "maxResults"@, limit)
            &&& has(sent, "output_mode"@, JsonView::Str(output_mode@))
            &&& sent.get("cursor"@) matches Some(at) && is_text_or_null(at, cursor) && has(
                sent,
                "cursor"@,
                at,
            )
        }),
{
    reveal_strlit("query");
    reveal_strlit("maxResults");
    reveal_strlit("output_mode");
    reveal_strlit("cursor");
    reveal_with_fuel(json::fields_of, 5);
    numbers::decimals_are_worth_their_number(max_results as nat);
    let sent = (Query::Grep { query, max_results, output_mode, cursor })@.payload;
    let fields = seq![
        ("query"@, JsonView::Str(query@)),
        ("maxResults"@, json::number_of(max_results as nat)),
        ("output_mode"@, JsonView::Str(output_mode@)),
        ("cursor"@, json::optional_str(crate::text::optional_text(cursor))),
    ];
    assert("query"@.len() == 5 && "maxResults"@.len() == 10 && "cursor"@.len() == 6
        && "output_mode"@.len() == 11);
    assert(fields.drop_last().drop_last().drop_last().drop_last() == Seq::<
        (Seq<char>, JsonView),
    >::empty());
    assert(sent == json::object(fields));
}

/// A search for several patterns is sent with all of them in their order, with its own constraints,
/// limit, mode, cursor and context, and with nothing else.
pub proof fn multi_grep_is_sent_as_it_is(
    patterns: Vec<String>,
    constraints: Option<String>,
    max_results: usize,
    output_mode: String,
    cursor: Option<String>,
    context: Option<usize>,
)
    ensures
        ({
            let query = (Query::MultiGrep {
                patterns,
                constraints,
                max_results,
                output_mode,
                cursor,
                context,
            });
            let sent = query@.payload;
            &&& names(sent) == set![
                "patterns"@,
                "constraints"@,
                "maxResults"@,
                "output_mode"@,
                "cursor"@,
                "context"@,
            ]
            &&& sent.get("patterns"@) matches Some(JsonView::Array(items)) && has(
                sent,
                "patterns"@,
                JsonView::Array(items),
            ) && items.len() == patterns@.len() && forall|i: int|
                0 <= i < items.len() ==> #[trigger] items[i] == JsonView::Str(patterns@[i]@)
            &&& sent.get("constraints"@) matches Some(some) && is_text_or_null(some, constraints)
                && has(sent, "constraints"@, some)
            &&& sent.get("maxResults"@) matches Some(limit) && is_number(limit, max_results as int)
                && has(sent, "maxResults"@, limit)
            &&& has(sent, "output_mode"@, JsonView::Str(output_mode@))
            &&& sent.get("cursor"@) matches Some(at) && is_text_or_null(at, cursor) && has(
                sent,
                "cursor"@,
                at,
            )
            &&& sent.get("context"@) matches Some(lines) && is_number_or_null(lines, context)
                && has(sent, "context"@, lines)
            &&& query@.lacks_patterns <==> patterns@.len() == 0
        }),
{
    reveal_strlit("patterns");
    reveal_strlit("constraints");
    reveal_strlit("maxResults");
    reveal_strlit("output_mode");
    reveal_strlit("cursor");
    reveal_strlit("context");
    reveal_with_fuel(json::fields_of, 7);
    numbers::decimals_are_worth_their_number(max_results as nat);
    if let Some(n) = context {
        numbers::decimals_are_worth_their_number(n as nat);
    }
    let query = (Query::MultiGrep {
        patterns,
        constraints,
        max_results,
        output_mode,
        cursor,
        context,
    });
    let sent = query@.payload;
    let items = crate::text::string_texts(patterns@).map_values(|p: Seq<char>| JsonView::Str(p));
    let fields = seq![
        ("patterns"@, JsonView::Array(items)),
        ("constraints"@, json::optional_str(crate::text::optional_text(constraints))),
        ("maxResults"@, json::number_of(max_results as nat)),
        ("output_mode"@, JsonView::Str(output_mode@)),
        ("cursor"@, json::optional_str(crate::text::optional_text(cursor))),
        ("context"@, json::optional_number(crate::query::optional_nat(context))),
    ];
    assert("patterns"@.len() == 8 && "constraints"@.len() == 11 && "maxResults"@.len() == 10
        && "cursor"@.len() == 6 && "output_mode"@.len() == 11 && "context"@.len() == 7);
    assert("constraints"@[0] != "output_mode"@[0]);
    assert(fields.drop_last().drop_last().drop_last().drop_last().drop_last().drop_last() == Seq::<
        (Seq<char>, JsonView),
    >::empty());
    assert(sent == json::object(fields));
}

/// Two searches for files with different limits are sent with different arguments.
pub proof fn different_limits_are_sent_differently(
    query: String,
    cursor: Option<String>,
    one: usize,
    other: usize,
)
    requires
        one != other,
    ensures
        (Query::Find { query, max_results: one, cursor })@.payload != (Query::Find {
            query,
            max_results: other,
            cursor,
        })@.payload,
{
    find_is_sent_as_it_is(query, one, cursor);
    find_is_sent_as_it_is(query, other, cursor);
}

/// Each kind of search has its own tool, and only a search for several patterns can lack them.
pub proof fn each_search_has_its_tool(query: Query)
    ensures
        match query {
            Query::Find { .. } => query@.direct_tool == "find"@ && query@.mcp_tool == "find_files"@
                && !query@.lacks_patterns,
            Query::Grep { .. } => query@.direct_tool == "grep"@ && query@.mcp_tool == "grep"@
                && !query@.lacks_patterns,
            Query::MultiGrep { patterns, .. } => query@.direct_tool == "multi-grep"@
                && query@.mcp_tool == "multi_grep"@ && (query@.lacks_patterns <==> patterns@.len()
                == 0),
        },
{
}

} // verus!

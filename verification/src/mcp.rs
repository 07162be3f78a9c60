//! The MCP tool surface: the static tool registry and the call-listing
//! page size.

use vstd::prelude::*;

verus! {

/// One tool of the registry.
#[derive(Debug, Clone)]
pub struct McpToolInfo {
    pub id: &'static str,
    pub sig: &'static str,
    pub doc: &'static str,
    /// `visibility`, `runs`, `analytics` or `search`.
    pub category: &'static str,
}

/// The tool registry.
#[derive(Debug, Clone)]
pub struct McpToolsResponse {
    pub tools: Vec<McpToolInfo>,
}

/// Query of the per-tool statistics.
#[derive(Debug)]
pub struct StatsParams {
    pub tool: String,
}

/// The registry: id, signature, documentation and category of each tool, in
/// listing order.
pub open spec fn tool_registry() -> Seq<(Seq<char>, Seq<char>, Seq<char>, Seq<char>)> {
    seq![
        ("run_prompt"@, "(prompt: string, providers?: string[])"@, "Execute a prompt across selected providers."@, "runs"@),
        ("get_visibility"@, "(prompt: string, days: number = 7)"@, "Return visibility trend points for a prompt."@, "visibility"@),
        ("compare_brands"@, "(brands: string[], prompt: string)"@, "Side-by-side ranking comparison."@, "visibility"@),
        ("get_citations"@, "(prompt?: string, since?: string)"@, "Aggregated citations with frequency + source type."@, "analytics"@),
        ("list_trends"@, "(days: number = 30)"@, "Volatility + delta leaderboard across all prompts."@, "analytics"@),
        ("search_benchmarks"@, "(query: string)"@, "Public benchmark dataset search."@, "search"@),
        ("audit"@, "(target: string, max_pages?: number, fail_on?: string[])"@, "Crawl a URL/sitemap and score citation-readiness (Identity, Extractability, Corroboration)."@, "analytics"@),
    ]
}

/// The static registry of MCP tools.
pub fn mcp_tools() -> (r: McpToolsResponse)
    ensures
        r.tools@.len() == tool_registry().len(),
        forall|i: int| 0 <= i < r.tools@.len() ==> ((#[trigger] r.tools@[i]).id@, r.tools@[i].sig@, r.tools@[i].doc@, r.tools@[i].category@) == tool_registry()[i],
{
    let mut tools: Vec<McpToolInfo> = Vec::new();
    tools.push(McpToolInfo {
        id: "run_prompt",
        sig: "(prompt: string, providers?: string[])",
        doc: "Execute a prompt across selected providers.",
        category: "runs",
    });
    tools.push(McpToolInfo {
        id: "get_visibility",
        sig: "(prompt: string, days: number = 7)",
        doc: "Return visibility trend points for a prompt.",
        category: "visibility",
    });
    tools.push(McpToolInfo {
        id: "compare_brands",
        sig: "(brands: string[], prompt: string)",
        doc: "Side-by-side ranking comparison.",
        category: "visibility",
    });
    tools.push(McpToolInfo {
        id: "get_citations",
        sig: "(prompt?: string, since?: string)",
        doc: "Aggregated citations with frequency + source type.",
        category: "analytics",
    });
    tools.push(McpToolInfo {
        id: "list_trends",
        sig: "(days: number = 30)",
        doc: "Volatility + delta leaderboard across all prompts.",
        category: "analytics",
    });
    tools.push(McpToolInfo {
        id: "search_benchmarks",
        sig: "(query: string)",
        doc: "Public benchmark dataset search.",
        category: "search",
    });
    tools.push(McpToolInfo {
        id: "audit",
        sig: "(target: string, max_pages?: number, fail_on?: string[])",
        doc: "Crawl a URL/sitemap and score citation-readiness (Identity, Extractability, Corroboration).",
        category: "analytics",
    });
    McpToolsResponse { tools }
}

/// Page size of the call listing when the query names none.
pub fn default_limit() -> (l: i64)
    ensures
        l == 20,
{
    20
}

/// The page size of the call listing, clamped into [1, 200].
pub fn calls_limit(requested: i64) -> (l: i64)
    ensures
        l == (if requested < 1 { 1 } else if requested > 200 { 200 } else { requested as int }),
{
    if requested < 1 {
        1
    } else if requested > 200 {
        200
    } else {
        requested
    }
}

} // verus!

//! The query front end's decision core: which store operation each
//! command runs, and what it answers.

use vstd::prelude::*;

use crate::database::{count_success, sort_desc, spec_matches, sum_success_ms, DatabaseStats,
    ResultStore, SearchResult};

verus! {

/// The query tool's configuration.
pub struct QueryArgs {
    /// Database file location.
    pub database: String,
    /// What to ask.
    pub command: QueryCommand,
}

/// One query against the store.
pub enum QueryCommand {
    /// Aggregate counts and mean processing time.
    Stats,
    /// Case-sensitive substring search over successful rows' texts.
    Search { query: String, limit: usize },
    /// List processed files, optionally filtered.
    List { method: Option<String>, include_failed: bool },
    /// Export rows as structured data.
    Export { output: String, include_text: bool },
}

/// What a query answers.
pub enum QueryResponse {
    /// The aggregate counts.
    Stats { stats: DatabaseStats },
    /// The search hits, most recent first.
    Hits { hits: Vec<SearchResult> },
    /// The command has no implementation yet.
    Unsupported,
}

/// Run one query against the store: statistics are computed fresh from the
/// rows, a search answers the most recent matching rows, and the remaining
/// commands are unimplemented.
pub fn run_query(store: &ResultStore, command: &QueryCommand) -> (r: QueryResponse)
    ensures
        match command {
            QueryCommand::Stats => r matches QueryResponse::Stats { stats } && stats.total
                == store@.len() && stats.successful == count_success(store@) && stats.failed
                == store@.len() - count_success(store@) && stats.avg_processing_time_ms == (
            if count_success(store@) == 0 {
                0int
            } else {
                sum_success_ms(store@) / count_success(store@)
            }),
            QueryCommand::Search { query, limit } => r matches QueryResponse::Hits { hits }
                && hits@.map_values(|e: SearchResult| e@) == sort_desc(
                spec_matches(store@, query@),
            ).take(
                if limit < spec_matches(store@, query@).len() {
                    *limit as int
                } else {
                    spec_matches(store@, query@).len() as int
                },
            ),
            QueryCommand::List { .. } => r is Unsupported,
            QueryCommand::Export { .. } => r is Unsupported,
        },
{
    match command {
        QueryCommand::Stats => QueryResponse::Stats { stats: store.get_stats() },
        QueryCommand::Search { query, limit } => QueryResponse::Hits {
            hits: store.search_text(query.as_str(), *limit),
        },
        QueryCommand::List { .. } => QueryResponse::Unsupported,
        QueryCommand::Export { .. } => QueryResponse::Unsupported,
    }
}

} // verus!

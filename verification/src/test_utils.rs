//! The helpers of the tests against a running Restate server: the query that
//! reads an invocation's journal.

use vstd::prelude::*;

verus! {

/// A SQL query for the admin API.
#[derive(Clone, Debug, PartialEq, Eq)]
pub struct SqlQueryRequest {
    pub query: String,
}

/// A Restate server to run tests against.
#[derive(Clone, Copy, Debug)]
pub struct TestRestateServer {}

/// Drives the tests.
#[derive(Clone, Copy, Debug)]
pub struct TestDriver {}

/// The text before the invocation id in the journal query.
pub open spec fn journal_query_head() -> Seq<char> {
    "SELECT\n            sj.index,\n            sj.entry_type,\n            sj.raw\n        FROM sys_journal sj\n        WHERE\n            sj.id = '"@
}

/// The text after the invocation id in the journal query: the newest hundred
/// entries first.
pub open spec fn journal_query_tail() -> Seq<char> {
    "'\n        ORDER BY index DESC\n        LIMIT 100"@
}

impl TestRestateServer {
    /// The query that reads the journal of an invocation: index, entry type
    /// and raw entry of its newest hundred entries.
    pub fn journal_query(&self, invocation_id: &String) -> (r: SqlQueryRequest)
        ensures
            r.query@ == journal_query_head() + invocation_id@ + journal_query_tail(),
    {
        proof {
            reveal_strlit("SELECT\n            sj.index,\n            sj.entry_type,\n            sj.raw\n        FROM sys_journal sj\n        WHERE\n            sj.id = '");
            reveal_strlit("'\n        ORDER BY index DESC\n        LIMIT 100");
        }
        let mut query = "SELECT\n            sj.index,\n            sj.entry_type,\n            sj.raw\n        FROM sys_journal sj\n        WHERE\n            sj.id = '".to_string();
        query.append(invocation_id.as_str());
        query.append("'\n        ORDER BY index DESC\n        LIMIT 100");
        SqlQueryRequest { query }
    }
}

} // verus!

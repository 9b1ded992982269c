//! The search for an area in a table of estimates.

use sql::grammar::definition::Column;
use sql::grammar::operation::Likable;
use sql::grammar::statement::Select;
use sql::grammar::Statement;
use vstd::prelude::*;
use crate::result::Error;
use crate::text::decimal;

verus! {

/// The text of a statement that selects, from `table`, the columns `key`
/// and `value` of at most `limit` rows whose `key` is like `pattern`.
pub open spec fn selection(
    table: Seq<char>,
    key: Seq<char>,
    value: Seq<char>,
    pattern: Seq<char>,
    limit: nat,
) -> Seq<char> {
    "SELECT `"@ + key + "`, `"@ + value + "` FROM `"@ + table + "` WHERE `"@ + key + "` LIKE '"@
        + pattern + "' LIMIT "@ + decimal(limit)
}

/// Calls `compile` of `sql::grammar::Statement` on a `Select` built by
/// `new`, `columns`, `so_that` with a `like` on a `Column`, and `limit`.
/// The contract claims what the crate's source shows for a statement built
/// so: the table and the names are set, hence compiling succeeds, and the
/// text is the keywords with the names in backquotes, the pattern in single
/// quotes and the limit as a decimal numeral, joined by single spaces.
#[verifier::external_body]
fn compile_selection(table: &str, key: &str, value: &str, pattern: &str, limit: usize) -> (r:
    Option<String>)
    ensures
        r is Some,
        r.unwrap()@ == selection(table@, key@, value@, pattern@, limit as nat),
{
    Select::new(table).columns(&[key, value]).so_that(Column::new(key).like(pattern)).limit(
        limit,
    ).compile().ok()
}

/// The statement that finds, in `table`, the name and the area of the first
/// estimate whose name is like `like`.
pub fn find_statement(table: &str, like: &str) -> (statement: Result<String, Error>)
    ensures
        statement matches Ok(text) && text@ == selection(table@, "name"@, "area"@, like@, 1),
{
    match compile_selection(table, "name", "area", like, 1) {
        Some(text) => Ok(text),
        None => Err(Error::Lookup),
    }
}

/// The outcome of a search: the area of the estimate that the statement
/// found, or the error that none was found.
pub fn found(area: Option<u64>) -> (outcome: Result<u64, Error>)
    ensures
        outcome == match area {
            Some(value) => Ok::<u64, Error>(value),
            None => Err::<u64, Error>(Error::Lookup),
        },
{
    match area {
        Some(value) => Ok(value),
        None => Err(Error::Lookup),
    }
}

} // verus!

//! The WQL dialect of the Aurora storage: `$or`, `$not` and the comparison
//! operators, without `$and`.
use vstd::prelude::*;

use crate::errors::error_code::ErrorCode;
use crate::json::{json_parse, parse_json};
use crate::wql::{parse_query, parsed_as, spec_parse_query};

pub use crate::wql::{Operator, wql_to_sql, wql_to_sql_count};

verus! {

/// What a WQL text parses to in this dialect: the query of the JSON
/// document, or `None` where the text is not JSON or not a query.
pub open spec fn spec_parse_from_json(json: Seq<char>) -> Option<crate::wql::OpView> {
    match json_parse(json) {
        Some(doc) => spec_parse_query(doc, false),
        None => None,
    }
}

/// Parses a WQL query given as JSON text; `InvalidStructure` where the
/// text is not JSON or not a query of this dialect.
pub fn parse_from_json(json: &str) -> (r: Result<Operator, ErrorCode>)
    ensures
        parsed_as(r, spec_parse_from_json(json@)),
{
    match parse_json(json) {
        Some(doc) => parse_query(&doc, false),
        None => Err(ErrorCode::InvalidStructure),
    }
}

} // verus!

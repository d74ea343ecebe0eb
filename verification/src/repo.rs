//! Assembly of the full query statements the storage collaborator
//! executes: the fixed base selection of current, value-carrying rows,
//! extended with the compiled predicate, ordering and pagination.

use vstd::prelude::*;

use crate::strfmt::{dec_rep, u64_to_string};

verus! {

/// The fixed selection every query starts from: all value and fragment
/// columns of rows that carry a value, joined with their block for the
/// height.
pub open spec fn base_query_text() -> Seq<char> {
    "SELECT de.address, de.key, bm.height, de.value_binary, de.value_bool, de.value_integer, de.value_string, de.fragment_0_string, de.fragment_0_integer, de.fragment_1_string, de.fragment_1_integer, de.fragment_2_string, de.fragment_2_integer, de.fragment_3_string, de.fragment_3_integer, de.fragment_4_string, de.fragment_4_integer, de.fragment_5_string, de.fragment_5_integer, de.fragment_6_string, de.fragment_6_integer, de.fragment_7_string, de.fragment_7_integer, de.fragment_8_string, de.fragment_8_integer, de.fragment_9_string, de.fragment_9_integer, de.fragment_10_string, de.fragment_10_integer, de.value_fragment_0_string, de.value_fragment_0_integer, de.value_fragment_1_string, de.value_fragment_1_integer, de.value_fragment_2_string, de.value_fragment_2_integer, de.value_fragment_3_string, de.value_fragment_3_integer, de.value_fragment_4_string, de.value_fragment_4_integer, de.value_fragment_5_string, de.value_fragment_5_integer, de.value_fragment_6_string, de.value_fragment_6_integer, de.value_fragment_7_string, de.value_fragment_7_integer, de.value_fragment_8_string, de.value_fragment_8_integer, de.value_fragment_9_string, de.value_fragment_9_integer, de.value_fragment_10_string, de.value_fragment_10_integer FROM data_entries de LEFT JOIN blocks_microblocks bm ON bm.uid = de.block_uid WHERE (de.value_binary IS NOT NULL OR de.value_bool IS NOT NULL OR de.value_integer IS NOT NULL OR de.value_string IS NOT NULL) "@
}

/// Returns the fixed base selection.
pub fn base_query() -> (r: &'static str)
    ensures
        r@ == base_query_text(),
{
    "SELECT de.address, de.key, bm.height, de.value_binary, de.value_bool, de.value_integer, de.value_string, de.fragment_0_string, de.fragment_0_integer, de.fragment_1_string, de.fragment_1_integer, de.fragment_2_string, de.fragment_2_integer, de.fragment_3_string, de.fragment_3_integer, de.fragment_4_string, de.fragment_4_integer, de.fragment_5_string, de.fragment_5_integer, de.fragment_6_string, de.fragment_6_integer, de.fragment_7_string, de.fragment_7_integer, de.fragment_8_string, de.fragment_8_integer, de.fragment_9_string, de.fragment_9_integer, de.fragment_10_string, de.fragment_10_integer, de.value_fragment_0_string, de.value_fragment_0_integer, de.value_fragment_1_string, de.value_fragment_1_integer, de.value_fragment_2_string, de.value_fragment_2_integer, de.value_fragment_3_string, de.value_fragment_3_integer, de.value_fragment_4_string, de.value_fragment_4_integer, de.value_fragment_5_string, de.value_fragment_5_integer, de.value_fragment_6_string, de.value_fragment_6_integer, de.value_fragment_7_string, de.value_fragment_7_integer, de.value_fragment_8_string, de.value_fragment_8_integer, de.value_fragment_9_string, de.value_fragment_9_integer, de.value_fragment_10_string, de.value_fragment_10_integer FROM data_entries de LEFT JOIN blocks_microblocks bm ON bm.uid = de.block_uid WHERE (de.value_binary IS NOT NULL OR de.value_bool IS NOT NULL OR de.value_integer IS NOT NULL OR de.value_string IS NOT NULL) "
}

/// The full search statement: the base selection restricted to current
/// rows, the compiled predicate and ordering when present, and the page
/// bounds.
pub open spec fn search_query_sql(w: Seq<char>, s: Seq<char>, limit: u64, offset: u64) -> Seq<
    char,
> {
    base_query_text() + " AND de.superseded_by = $1 "@ + (if w.len() > 0 {
        "AND "@ + w
    } else {
        Seq::empty()
    }) + " "@ + (if s.len() > 0 {
        "ORDER BY "@ + s
    } else {
        Seq::empty()
    }) + " LIMIT "@ + dec_rep(limit as nat) + " OFFSET "@ + dec_rep(offset as nat)
}

/// Assembles the full search statement from a compiled WHERE predicate
/// and ORDER-BY item list (either may be empty).
pub fn build_search_query(query_where: &str, query_sort: &str, limit: u64, offset: u64) -> (r:
    String)
    ensures
        r@ == search_query_sql(query_where@, query_sort@, limit, offset),
{
    let mut r = String::from_str(base_query());
    r.append(" AND de.superseded_by = $1 ");
    if query_where.unicode_len() > 0 {
        r.append("AND ");
        r.append(query_where);
    }
    r.append(" ");
    if query_sort.unicode_len() > 0 {
        r.append("ORDER BY ");
        r.append(query_sort);
    }
    r.append(" LIMIT ");
    r.append(u64_to_string(limit).as_str());
    r.append(" OFFSET ");
    r.append(u64_to_string(offset).as_str());
    proof {
        assert(r@ =~= search_query_sql(query_where@, query_sort@, limit, offset));
    }
    r
}

/// The full batched-lookup statement: the base selection, the batched
/// pair predicate, and the historical restriction.
pub open spec fn mget_query_sql(f: Seq<char>, historical: Seq<char>) -> Seq<char> {
    base_query_text() + " AND ("@ + f + ") "@ + historical
}

/// Assembles the full batched-lookup statement from the pair predicate
/// and the historical restriction.
pub fn build_mget_query(query_filter: &str, historical: &str) -> (r: String)
    ensures
        r@ == mget_query_sql(query_filter@, historical@),
{
    let mut r = String::from_str(base_query());
    r.append(" AND (");
    r.append(query_filter);
    r.append(") ");
    r.append(historical);
    proof {
        assert(r@ =~= mget_query_sql(query_filter@, historical@));
    }
    r
}

} // verus!

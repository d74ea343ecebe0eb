//! Point-in-time resolution: given an optional height or timestamp bound
//! and a set of (address, key) pairs, resolves the row identifiers of the
//! versions that were current at that point.
//!
//! The height and timestamp parameters are mutually exclusive. With neither
//! present the resolver contributes nothing and callers query current rows
//! directly; with one present, each pair resolves to the version with the
//! greatest height (or timestamp) not above the bound, ties broken by the
//! greatest row identifier, and pairs with no such version contribute
//! nothing.

use vstd::prelude::*;

use crate::errors::{app_error, is_validation_error, AppError};
use crate::model::{Entry, MgetEntries};
use crate::escape::{escape_seq, pg_escape};
use crate::strfmt::{i64_to_string, int_rep, join_strings, join_with, str_eq, views_of};

verus! {

/// Point-in-time request parameters: a block timestamp (unix seconds) or a
/// height, at most one of them present.
#[derive(Clone, Debug)]
pub struct HistoricalRequestParams {
    pub block_timestamp: Option<i64>,
    pub height: Option<i64>,
}

impl HistoricalRequestParams {
    /// Whether no point-in-time bound was requested.
    pub fn is_empty(&self) -> (r: bool)
        ensures
            r == (self.block_timestamp is None && self.height is None),
    {
        self.block_timestamp.is_none() && self.height.is_none()
    }

    /// Rejects a request that sets both historical parameters.
    pub fn check_valid(&self) -> (r: Result<(), AppError>)
        ensures
            r is Ok <==> !(self.block_timestamp is Some && self.height is Some),
            r matches Err(e) ==> is_validation_error(
                e,
                "height, block_timestamp"@,
                "only one historical parameter must be used"@,
            ),
    {
        if self.block_timestamp.is_some() && self.height.is_some() {
            return Err(
                app_error(
                    String::from_str("height, block_timestamp"),
                    String::from_str("only one historical parameter must be used"),
                ),
            );
        }
        Ok(())
    }

    /// Builds the parameters from the raw query values: parses the RFC3339
    /// timestamp text into unix seconds, then rejects a request that sets
    /// both parameters.
    pub fn from_query(height: Option<i64>, block_timestamp: Option<&str>) -> (r: Result<
        HistoricalRequestParams,
        AppError,
    >)
        ensures
            r is Ok <==> (match block_timestamp {
                Option::Some(t) => rfc3339_seconds(t@) is Some,
                Option::None => true,
            }) && !(height is Some && block_timestamp is Some),
            r matches Ok(hp) ==> hp.height == height && (match block_timestamp {
                Option::None => hp.block_timestamp is None,
                Option::Some(t) => hp.block_timestamp matches Some(v) && rfc3339_seconds(t@)
                    == Option::Some(v as int),
            }),
            r matches Err(e) ==> (if block_timestamp matches Some(t) && rfc3339_seconds(t@)
                is None {
                is_validation_error(e, block_timestamp->0@, "invalid RFC3339 timestamp"@)
            } else {
                is_validation_error(
                    e,
                    "height, block_timestamp"@,
                    "only one historical parameter must be used"@,
                )
            }),
    {
        let ts: Option<i64> = match block_timestamp {
            Option::None => None,
            Option::Some(t) => match parse_rfc3339_seconds(t) {
                Option::Some(v) => Some(v),
                Option::None => {
                    return Err(
                        app_error(
                            String::from_str(t),
                            String::from_str("invalid RFC3339 timestamp"),
                        ),
                    );
                },
            },
        };
        let res = HistoricalRequestParams { block_timestamp: ts, height };
        match res.check_valid() {
            Result::Ok(_) => Ok(res),
            Result::Err(e) => Err(e),
        }
    }
}

/// The unix-seconds value that chrono reads from an RFC3339 timestamp,
/// if the text parses.
pub uninterp spec fn rfc3339_seconds(s: Seq<char>) -> Option<int>;

/// Relies on chrono's `DateTime::parse_from_rfc3339` and
/// `DateTime::timestamp`: whether the text parses, and the unix seconds it
/// denotes, depend on the text alone.
#[verifier::external_body]
fn parse_rfc3339_seconds(s: &str) -> (r: Option<i64>)
    ensures
        match r {
            Option::None => rfc3339_seconds(s@) is None,
            Option::Some(t) => rfc3339_seconds(s@) == Option::Some(t as int),
        },
{
    chrono::DateTime::parse_from_rfc3339(s).ok().map(|d| d.timestamp())
}

/// One row of the historical index: one stored version of one
/// (address, key) pair.
#[derive(Clone, Debug)]
pub struct HistoricalIndexEntry {
    pub address: String,
    pub key: String,
    pub height: i64,
    pub block_timestamp: i64,
    pub uid: i64,
}

/// The ordering key the resolver compares against the bound: the entry's
/// timestamp or its height.
pub open spec fn entry_key(e: HistoricalIndexEntry, by_timestamp: bool) -> int {
    if by_timestamp {
        e.block_timestamp as int
    } else {
        e.height as int
    }
}

/// Whether the entry is a version of the given pair.
pub open spec fn entry_matches(e: HistoricalIndexEntry, address: Seq<char>, key: Seq<char>) -> bool {
    e.address@ == address && e.key@ == key
}

/// The best (greatest ordering key, then greatest uid) version of the pair
/// within the bound, as a (key, uid) pair.
pub open spec fn resolve_best(
    index: Seq<HistoricalIndexEntry>,
    address: Seq<char>,
    key: Seq<char>,
    bound: int,
    by_timestamp: bool,
) -> Option<(int, i64)>
    decreases index.len(),
{
    if index.len() == 0 {
        Option::None
    } else {
        let rest = resolve_best(index.drop_last(), address, key, bound, by_timestamp);
        let e = index.last();
        if entry_matches(e, address, key) && entry_key(e, by_timestamp) <= bound {
            match rest {
                Option::None => Option::Some((entry_key(e, by_timestamp), e.uid)),
                Option::Some(b) => if entry_key(e, by_timestamp) > b.0 || (entry_key(
                    e,
                    by_timestamp,
                ) == b.0 && e.uid >= b.1) {
                    Option::Some((entry_key(e, by_timestamp), e.uid))
                } else {
                    Option::Some(b)
                },
            }
        } else {
            rest
        }
    }
}

/// The resolver picks exactly the version whose ordering key is the
/// greatest not above the bound, ties broken by the greatest row
/// identifier; it picks nothing if and only if no version of the pair lies
/// within the bound.
pub proof fn lemma_resolve_best_correct(
    index: Seq<HistoricalIndexEntry>,
    address: Seq<char>,
    key: Seq<char>,
    bound: int,
    by_timestamp: bool,
)
    ensures
        resolve_best(index, address, key, bound, by_timestamp) is None <==> forall|i: int|
            0 <= i < index.len() ==> !(entry_matches(#[trigger] index[i], address, key)
                && entry_key(index[i], by_timestamp) <= bound),
        resolve_best(index, address, key, bound, by_timestamp) matches Some(b) ==> (exists|i: int|
            0 <= i < index.len() && entry_matches(#[trigger] index[i], address, key) && entry_key(
                index[i],
                by_timestamp,
            ) == b.0 && index[i].uid == b.1 && b.0 <= bound) && (forall|i: int|
            0 <= i < index.len() && entry_matches(#[trigger] index[i], address, key) && entry_key(
                index[i],
                by_timestamp,
            ) <= bound ==> entry_key(index[i], by_timestamp) < b.0 || (entry_key(
                index[i],
                by_timestamp,
            ) == b.0 && index[i].uid <= b.1)),
    decreases index.len(),
{
    if index.len() > 0 {
        lemma_resolve_best_correct(index.drop_last(), address, key, bound, by_timestamp);
        assert(forall|i: int|
            0 <= i < index.len() - 1 ==> index.drop_last()[i] == #[trigger] index[i]);
        assert(index.last() == index[index.len() - 1]);
    }
}

/// Resolves one (address, key) pair against the historical index: the row
/// identifier of the version with the greatest ordering key not above the
/// bound, ties broken by the greatest identifier; `None` when no version
/// lies within the bound.
#[verifier::loop_isolation(false)]
pub fn resolve_uid(
    index: &Vec<HistoricalIndexEntry>,
    address: &str,
    key: &str,
    bound: i64,
    by_timestamp: bool,
) -> (r: Option<i64>)
    ensures
        r == match resolve_best(index@, address@, key@, bound as int, by_timestamp) {
            Option::None => Option::<i64>::None,
            Option::Some(b) => Option::Some(b.1),
        },
{
    let n = index.len();
    let mut best: Option<(i64, i64)> = None;
    let mut i: usize = 0;
    proof {
        assert(index@.take(0) =~= Seq::<HistoricalIndexEntry>::empty());
    }
    while i < n
        invariant
            i <= n,
            match best {
                Option::None => resolve_best(index@.take(i as int), address@, key@, bound as int, by_timestamp) is None,
                Option::Some(b) => resolve_best(
                    index@.take(i as int),
                    address@,
                    key@,
                    bound as int,
                    by_timestamp,
                ) == Option::Some((b.0 as int, b.1)),
            },
        decreases n - i,
    {
        let e = &index[i];
        proof {
            assert(index@.take(i + 1).drop_last() =~= index@.take(i as int));
            assert(index@.take(i + 1).last() == index@[i as int]);
        }
        let ekey: i64 = if by_timestamp {
            e.block_timestamp
        } else {
            e.height
        };
        let matches_pair = str_eq(e.address.as_str(), address) && str_eq(e.key.as_str(), key);
        if matches_pair && ekey <= bound {
            best = match best {
                Option::None => Some((ekey, e.uid)),
                Option::Some(b) => {
                    if ekey > b.0 || (ekey == b.0 && e.uid >= b.1) {
                        Some((ekey, e.uid))
                    } else {
                        Some(b)
                    }
                },
            };
        }
        i += 1;
    }
    proof {
        assert(index@.take(n as int) =~= index@);
    }
    match best {
        Option::None => None,
        Option::Some(b) => Some(b.1),
    }
}

/// The resolved row identifiers for a list of pairs, in pair order; pairs
/// with no version within the bound contribute nothing.
pub open spec fn resolved_uids(
    index: Seq<HistoricalIndexEntry>,
    pairs: Seq<Entry>,
    bound: int,
    by_timestamp: bool,
) -> Seq<i64>
    decreases pairs.len(),
{
    if pairs.len() == 0 {
        Seq::empty()
    } else {
        let rest = resolved_uids(index, pairs.drop_last(), bound, by_timestamp);
        match resolve_best(index, pairs.last().address@, pairs.last().key@, bound, by_timestamp) {
            Option::None => rest,
            Option::Some(b) => rest.push(b.1),
        }
    }
}

/// The row identifiers the whole request resolves to: empty when no bound
/// was requested, otherwise the per-pair resolutions against the requested
/// bound.
pub open spec fn resolve_result(
    hp: HistoricalRequestParams,
    pairs: Seq<Entry>,
    index: Seq<HistoricalIndexEntry>,
) -> Seq<i64> {
    match hp.height {
        Option::Some(h) => resolved_uids(index, pairs, h as int, false),
        Option::None => match hp.block_timestamp {
            Option::Some(t) => resolved_uids(index, pairs, t as int, true),
            Option::None => Seq::empty(),
        },
    }
}

/// Resolves every requested pair against the historical index. With no
/// bound requested the result is empty and the caller queries current rows
/// instead.
#[verifier::loop_isolation(false)]
pub fn resolve(
    hp: &HistoricalRequestParams,
    pairs: &MgetEntries,
    index: &Vec<HistoricalIndexEntry>,
) -> (r: Vec<i64>)
    requires
        !(hp.block_timestamp is Some && hp.height is Some),
    ensures
        r@ == resolve_result(*hp, pairs.address_key_pairs@, index@),
{
    let (bound, by_timestamp): (i64, bool) = match &hp.height {
        Option::Some(h) => (*h, false),
        Option::None => match &hp.block_timestamp {
            Option::Some(t) => (*t, true),
            Option::None => {
                let r: Vec<i64> = Vec::new();
                proof {
                    assert(r@ =~= resolve_result(*hp, pairs.address_key_pairs@, index@));
                }
                return r;
            },
        },
    };
    let mut out: Vec<i64> = Vec::new();
    let n = pairs.address_key_pairs.len();
    let mut i: usize = 0;
    proof {
        assert(pairs.address_key_pairs@.take(0) =~= Seq::<Entry>::empty());
        assert(out@ =~= resolved_uids(
            index@,
            pairs.address_key_pairs@.take(0),
            bound as int,
            by_timestamp,
        ));
    }
    while i < n
        invariant
            i <= n,
            out@ == resolved_uids(
                index@,
                pairs.address_key_pairs@.take(i as int),
                bound as int,
                by_timestamp,
            ),
        decreases n - i,
    {
        let p = &pairs.address_key_pairs[i];
        proof {
            assert(pairs.address_key_pairs@.take(i + 1).drop_last() =~= pairs.address_key_pairs@
                .take(i as int));
            assert(pairs.address_key_pairs@.take(i + 1).last() == pairs.address_key_pairs@[
                i as int
            ]);
        }
        match resolve_uid(index, p.address.as_str(), p.key.as_str(), bound, by_timestamp) {
            Option::Some(uid) => {
                out.push(uid);
            },
            Option::None => {},
        }
        i += 1;
    }
    proof {
        assert(pairs.address_key_pairs@.take(n as int) =~= pairs.address_key_pairs@);
    }
    out
}

/// Whether a historical lookup must be reported as not found: a bound was
/// requested but no pair resolved to any version.
pub fn reject_if_empty_uids(hp: &HistoricalRequestParams, uids: &Vec<i64>) -> (reject: bool)
    ensures
        reject == (!(hp.block_timestamp is None && hp.height is None) && uids@.len() == 0),
{
    if hp.is_empty() {
        return false;
    }
    uids.len() == 0
}

/// The additional predicate of a historical lookup: with no resolved
/// identifiers the current versions are selected, otherwise exactly the
/// resolved rows.
pub open spec fn historical_sql(uids: Seq<i64>) -> Seq<char> {
    if uids.len() == 0 {
        " AND de.superseded_by = $1"@
    } else {
        " AND de.uid in ("@ + join_with(uids.map_values(|u: i64| int_rep(u as int)), ","@)
            + ") AND $1 = $1"@
    }
}

/// Renders the additional predicate of a historical lookup.
pub fn build_historical_sql(uids: &Vec<i64>) -> (r: String)
    ensures
        r@ == historical_sql(uids@),
{
    if uids.len() == 0 {
        return String::from_str(" AND de.superseded_by = $1");
    }
    let mut parts: Vec<String> = Vec::new();
    let n = uids.len();
    let mut i: usize = 0;
    while i < n
        invariant
            i <= n,
            n == uids@.len(),
            parts@.len() == i,
            forall|j: int| 0 <= j < i ==> #[trigger] parts@[j]@ == int_rep(uids@[j] as int),
        decreases n - i,
    {
        parts.push(i64_to_string(uids[i]));
        i += 1;
    }
    let mut r = String::from_str(" AND de.uid in (");
    r.append(join_strings(&parts, ",").as_str());
    r.append(") AND $1 = $1");
    proof {
        assert(views_of(parts@) =~= uids@.map_values(|u: i64| int_rep(u as int)));
        assert(r@ =~= historical_sql(uids@));
    }
    r
}

/// The per-pair subquery against the historical index keyed by height.
pub open spec fn height_subquery_sql(p: Entry) -> Seq<char> {
    "(select data_entry_uid as uid from data_entries_history_keys where address = '"@ + escape_seq(
        p.address@,
    ) + "' and \"key\" = '"@ + escape_seq(p.key@)
        + "' and height <= $1 order by height desc, data_entry_uid desc limit 1)"@
}

/// The per-pair subquery against the historical index keyed by timestamp.
pub open spec fn timestamp_subquery_sql(p: Entry) -> Seq<char> {
    "(select data_entry_uid as uid from data_entries_history_keys where address = '"@ + escape_seq(
        p.address@,
    ) + "' and \"key\" = '"@ + escape_seq(p.key@)
        + "' and block_timestamp <= to_timestamp($1) order by block_timestamp desc, data_entry_uid desc limit 1)"@
}

/// The union of per-pair subqueries a historical lookup runs: one subquery
/// per requested pair, keyed by height or by timestamp; empty when no
/// bound was requested.
pub open spec fn uid_queries_sql(hp: HistoricalRequestParams, pairs: Seq<Entry>) -> Seq<Seq<char>> {
    if hp.height is Some {
        pairs.map_values(|p: Entry| height_subquery_sql(p))
    } else if hp.block_timestamp is Some {
        pairs.map_values(|p: Entry| timestamp_subquery_sql(p))
    } else {
        Seq::empty()
    }
}

/// Renders the per-pair historical subqueries, joined by `union`.
#[verifier::loop_isolation(false)]
pub fn historical_uid_union(hp: &HistoricalRequestParams, entries: &MgetEntries) -> (r: String)
    requires
        !(hp.block_timestamp is Some && hp.height is Some),
    ensures
        r@ == join_with(uid_queries_sql(*hp, entries.address_key_pairs@), " union "@),
{
    let by_height = hp.height.is_some();
    let by_timestamp = hp.block_timestamp.is_some();
    if !by_height && !by_timestamp {
        let r = String::new();
        proof {
            assert(uid_queries_sql(*hp, entries.address_key_pairs@) =~= Seq::<Seq<char>>::empty());
        }
        return r;
    }
    let mut parts: Vec<String> = Vec::new();
    let n = entries.address_key_pairs.len();
    let mut i: usize = 0;
    while i < n
        invariant
            i <= n,
            parts@.len() == i,
            forall|j: int|
                0 <= j < i ==> #[trigger] parts@[j]@ == uid_queries_sql(
                    *hp,
                    entries.address_key_pairs@,
                )[j],
        decreases n - i,
    {
        let p = &entries.address_key_pairs[i];
        let mut q = String::from_str(
            "(select data_entry_uid as uid from data_entries_history_keys where address = '",
        );
        q.append(pg_escape(p.address.as_str()).as_str());
        q.append("' and \"key\" = '");
        q.append(pg_escape(p.key.as_str()).as_str());
        if by_height {
            q.append("' and height <= $1 order by height desc, data_entry_uid desc limit 1)");
            proof {
                assert(q@ =~= height_subquery_sql(entries.address_key_pairs@[i as int]));
            }
        } else {
            q.append(
                "' and block_timestamp <= to_timestamp($1) order by block_timestamp desc, data_entry_uid desc limit 1)",
            );
            proof {
                assert(q@ =~= timestamp_subquery_sql(entries.address_key_pairs@[i as int]));
            }
        }
        parts.push(q);
        i += 1;
    }
    let r = join_strings(&parts, " union ");
    proof {
        assert(views_of(parts@) =~= uid_queries_sql(*hp, entries.address_key_pairs@));
    }
    r
}

} // verus!

use state_search::historical::{
    build_historical_sql, historical_uid_union, reject_if_empty_uids, resolve, resolve_uid,
    HistoricalIndexEntry, HistoricalRequestParams,
};
use state_search::errors::AppError;
use state_search::model::{Entry, MgetEntries};

fn entry(address: &str, key: &str, height: i64, ts: i64, uid: i64) -> HistoricalIndexEntry {
    HistoricalIndexEntry {
        address: address.to_string(),
        key: key.to_string(),
        height,
        block_timestamp: ts,
        uid,
    }
}

#[test]
fn resolves_greatest_height_within_bound() {
    let index = vec![
        entry("A", "k", 50, 500, 1),
        entry("A", "k", 120, 1200, 2),
    ];
    assert_eq!(resolve_uid(&index, "A", "k", 100, false), Some(1));
}

#[test]
fn resolves_nothing_when_no_version_is_within_bound() {
    let index = vec![entry("A", "k", 50, 500, 1)];
    assert_eq!(resolve_uid(&index, "A", "k", 10, false), None);
}

#[test]
fn ties_break_by_greatest_row_identifier() {
    let index = vec![
        entry("A", "k", 50, 500, 3),
        entry("A", "k", 50, 500, 7),
        entry("A", "k", 50, 500, 5),
    ];
    assert_eq!(resolve_uid(&index, "A", "k", 100, false), Some(7));
}

#[test]
fn other_pairs_do_not_interfere() {
    let index = vec![
        entry("A", "k", 50, 500, 1),
        entry("B", "k", 80, 800, 2),
        entry("A", "other", 90, 900, 3),
    ];
    assert_eq!(resolve_uid(&index, "A", "k", 100, false), Some(1));
}

#[test]
fn timestamp_bound_uses_the_timestamp_column() {
    let index = vec![
        entry("A", "k", 50, 500, 1),
        entry("A", "k", 120, 1200, 2),
    ];
    assert_eq!(resolve_uid(&index, "A", "k", 1300, true), Some(2));
    assert_eq!(resolve_uid(&index, "A", "k", 600, true), Some(1));
}

#[test]
fn both_historical_parameters_fail_validation() {
    let hp = HistoricalRequestParams { block_timestamp: Some(1), height: Some(2) };
    match hp.check_valid() {
        Err(AppError::ValidationError(_, code, Some(details))) => {
            assert_eq!(code, 950201);
            assert_eq!(details.parameter, "height, block_timestamp");
            assert_eq!(details.reason, "only one historical parameter must be used");
        }
        _ => panic!("expected a validation error"),
    }
    assert!(!hp.is_empty());
}

#[test]
fn single_parameter_passes_validation() {
    assert!(HistoricalRequestParams { block_timestamp: None, height: Some(2) }.check_valid().is_ok());
    assert!(HistoricalRequestParams { block_timestamp: Some(1), height: None }.check_valid().is_ok());
    let empty = HistoricalRequestParams { block_timestamp: None, height: None };
    assert!(empty.check_valid().is_ok());
    assert!(empty.is_empty());
}

#[test]
fn from_query_parses_rfc3339_into_unix_seconds() {
    let hp = HistoricalRequestParams::from_query(None, Some("2021-01-01T00:00:00Z"))
        .expect("parses");
    assert_eq!(hp.block_timestamp, Some(1609459200));
    assert_eq!(hp.height, None);
    let hp = HistoricalRequestParams::from_query(None, Some("1970-01-01T00:01:40+00:00"))
        .expect("parses");
    assert_eq!(hp.block_timestamp, Some(100));
}

#[test]
fn from_query_rejects_malformed_timestamps() {
    match HistoricalRequestParams::from_query(None, Some("yesterday")) {
        Err(AppError::ValidationError(_, code, Some(details))) => {
            assert_eq!(code, 950201);
            assert_eq!(details.parameter, "yesterday");
            assert_eq!(details.reason, "invalid RFC3339 timestamp");
        }
        _ => panic!("expected a validation error"),
    }
}

#[test]
fn from_query_rejects_both_parameters() {
    match HistoricalRequestParams::from_query(Some(7), Some("2021-01-01T00:00:00Z")) {
        Err(AppError::ValidationError(_, _, Some(details))) => {
            assert_eq!(details.parameter, "height, block_timestamp");
        }
        _ => panic!("expected a validation error"),
    }
    let hp = HistoricalRequestParams::from_query(Some(7), None).expect("height alone is fine");
    assert_eq!(hp.height, Some(7));
    assert_eq!(hp.block_timestamp, None);
}

#[test]
fn resolve_without_bound_is_empty() {
    let hp = HistoricalRequestParams { block_timestamp: None, height: None };
    let pairs = MgetEntries {
        address_key_pairs: vec![Entry { address: "A".to_string(), key: "k".to_string() }],
    };
    let index = vec![entry("A", "k", 50, 500, 1)];
    assert_eq!(resolve(&hp, &pairs, &index), Vec::<i64>::new());
}

#[test]
fn resolve_collects_per_pair_hits_in_order() {
    let hp = HistoricalRequestParams { block_timestamp: None, height: Some(100) };
    let pairs = MgetEntries {
        address_key_pairs: vec![
            Entry { address: "A".to_string(), key: "k".to_string() },
            Entry { address: "A".to_string(), key: "missing".to_string() },
            Entry { address: "B".to_string(), key: "k".to_string() },
        ],
    };
    let index = vec![
        entry("A", "k", 50, 500, 1),
        entry("B", "k", 80, 800, 2),
    ];
    assert_eq!(resolve(&hp, &pairs, &index), vec![1, 2]);
}

#[test]
fn empty_resolution_with_bound_is_not_found() {
    let with_bound = HistoricalRequestParams { block_timestamp: None, height: Some(10) };
    assert!(reject_if_empty_uids(&with_bound, &vec![]));
    assert!(!reject_if_empty_uids(&with_bound, &vec![5]));
    let no_bound = HistoricalRequestParams { block_timestamp: None, height: None };
    assert!(!reject_if_empty_uids(&no_bound, &vec![]));
}

#[test]
fn historical_sql_without_uids_selects_current_rows() {
    assert_eq!(build_historical_sql(&vec![]), " AND de.superseded_by = $1");
}

#[test]
fn historical_sql_with_uids_restricts_to_them() {
    assert_eq!(build_historical_sql(&vec![5, 7]), " AND de.uid in (5,7) AND $1 = $1");
}

#[test]
fn uid_union_renders_height_subqueries() {
    let hp = HistoricalRequestParams { block_timestamp: None, height: Some(100) };
    let entries = MgetEntries {
        address_key_pairs: vec![Entry { address: "A'".to_string(), key: "k".to_string() }],
    };
    assert_eq!(
        historical_uid_union(&hp, &entries),
        "(select data_entry_uid as uid from data_entries_history_keys where address = 'A''' \
         and \"key\" = 'k' and height <= $1 order by height desc, data_entry_uid desc limit 1)"
    );
}

#[test]
fn uid_union_renders_timestamp_subqueries_joined() {
    let hp = HistoricalRequestParams { block_timestamp: Some(9), height: None };
    let entries = MgetEntries {
        address_key_pairs: vec![
            Entry { address: "A".to_string(), key: "k1".to_string() },
            Entry { address: "A".to_string(), key: "k2".to_string() },
        ],
    };
    let expected_one = "(select data_entry_uid as uid from data_entries_history_keys where \
                        address = 'A' and \"key\" = 'k1' and block_timestamp <= to_timestamp($1) \
                        order by block_timestamp desc, data_entry_uid desc limit 1)";
    let expected_two = expected_one.replace("'k1'", "'k2'");
    assert_eq!(historical_uid_union(&hp, &entries), format!("{} union {}", expected_one, expected_two));
}

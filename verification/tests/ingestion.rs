use state_search::reconciler::{
    advance_watermark, collect_data_entries, compute_range, BlockUpdate, EventValue, UpdateEvent,
};

fn append(address: &[u8], key: &str, value: EventValue) -> UpdateEvent {
    UpdateEvent { address: address.to_vec(), key: key.to_string(), value: Some(value) }
}

fn removal(address: &[u8], key: &str) -> UpdateEvent {
    UpdateEvent { address: address.to_vec(), key: key.to_string(), value: None }
}

#[test]
fn zero_events_leave_watermark_and_back_off() {
    let (watermark, backoff) = advance_watermark(42, &vec![], &vec![]);
    assert_eq!(watermark, 42);
    assert!(backoff);
}

#[test]
fn events_advance_watermark_to_maximum_observed_height() {
    let block_a = BlockUpdate {
        height: 7,
        entries: vec![append(b"hello", "$k#1", EventValue::IntValue(10))],
    };
    let block_b = BlockUpdate { height: 9, entries: vec![removal(b"hello", "$k#1")] };
    let (mut inserts, mut deletes) = collect_data_entries(&block_a);
    let (more_inserts, more_deletes) = collect_data_entries(&block_b);
    inserts.extend(more_inserts);
    deletes.extend(more_deletes);
    // the fetched range went further, but 9 is the highest height observed
    let (watermark, backoff) = advance_watermark(3, &inserts, &deletes);
    assert_eq!(watermark, 9);
    assert!(!backoff);
}

#[test]
fn deletions_alone_advance_the_watermark() {
    let block = BlockUpdate { height: 12, entries: vec![removal(b"a", "$k")] };
    let (inserts, deletes) = collect_data_entries(&block);
    assert!(inserts.is_empty());
    assert_eq!(deletes.len(), 1);
    let (watermark, backoff) = advance_watermark(3, &inserts, &deletes);
    assert_eq!(watermark, 12);
    assert!(!backoff);
}

#[test]
fn append_event_becomes_insertable_row() {
    let block = BlockUpdate {
        height: 5,
        entries: vec![append(b"hello", "$a#1", EventValue::IntValue(10))],
    };
    let (inserts, deletes) = collect_data_entries(&block);
    assert!(deletes.is_empty());
    assert_eq!(inserts.len(), 1);
    let row = &inserts[0];
    assert_eq!(row.address, "Cn8eVZg");
    assert_eq!(row.key, "$a#1");
    assert_eq!(row.height, 5);
    assert_eq!(row.value_integer, Some(10));
    assert_eq!(row.value_bool, None);
    assert_eq!(row.value_binary, None);
    assert_eq!(row.value_string, None);
    assert_eq!(row.fragment_0_string.as_deref(), Some("a"));
    assert_eq!(row.fragment_0_integer, None);
    assert_eq!(row.fragment_1_string, None);
    assert_eq!(row.fragment_1_integer, Some(1));
    assert_eq!(row.fragment_2_string, None);
    assert_eq!(row.fragment_2_integer, None);
    assert_eq!(row.value_fragment_0_string, None);
    assert_eq!(row.value_fragment_0_integer, None);
}

#[test]
fn unsuitable_key_is_stored_with_null_fragments() {
    let block = BlockUpdate {
        height: 5,
        entries: vec![append(b"hello", "plain", EventValue::BoolValue(true))],
    };
    let (inserts, _) = collect_data_entries(&block);
    assert_eq!(inserts.len(), 1);
    let row = &inserts[0];
    assert_eq!(row.key, "plain");
    assert_eq!(row.value_bool, Some(true));
    assert_eq!(row.fragment_0_string, None);
    assert_eq!(row.fragment_0_integer, None);
    assert_eq!(row.fragment_10_string, None);
    assert_eq!(row.fragment_10_integer, None);
}

#[test]
fn string_payload_fills_value_fragment_columns() {
    let block = BlockUpdate {
        height: 5,
        entries: vec![append(b"hello", "$k", EventValue::StringValue("$x#2".to_string()))],
    };
    let (inserts, _) = collect_data_entries(&block);
    let row = &inserts[0];
    assert_eq!(row.value_string.as_deref(), Some("$x#2"));
    assert_eq!(row.value_fragment_0_string.as_deref(), Some("x"));
    assert_eq!(row.value_fragment_0_integer, None);
    assert_eq!(row.value_fragment_1_string, None);
    assert_eq!(row.value_fragment_1_integer, Some(2));
}

#[test]
fn unstructured_string_payload_leaves_value_fragments_null() {
    let block = BlockUpdate {
        height: 5,
        entries: vec![append(b"hello", "$k", EventValue::StringValue("plain".to_string()))],
    };
    let (inserts, _) = collect_data_entries(&block);
    let row = &inserts[0];
    assert_eq!(row.value_string.as_deref(), Some("plain"));
    assert_eq!(row.value_fragment_0_string, None);
    assert_eq!(row.value_fragment_0_integer, None);
}

#[test]
fn removal_event_becomes_tombstone() {
    let block = BlockUpdate { height: 8, entries: vec![removal(b"hello", "$gone")] };
    let (inserts, deletes) = collect_data_entries(&block);
    assert!(inserts.is_empty());
    assert_eq!(deletes.len(), 1);
    assert_eq!(deletes[0].address, "Cn8eVZg");
    assert_eq!(deletes[0].key, "$gone");
    assert_eq!(deletes[0].height, 8);
}

#[test]
fn binary_payload_is_kept_as_bytes() {
    let block = BlockUpdate {
        height: 5,
        entries: vec![append(b"hello", "$k", EventValue::BinaryValue(vec![1, 2, 3]))],
    };
    let (inserts, _) = collect_data_entries(&block);
    assert_eq!(inserts[0].value_binary.as_deref(), Some(&[1u8, 2, 3][..]));
    assert_eq!(inserts[0].value_string, None);
}

#[test]
fn range_starts_above_watermark_or_at_minimum() {
    assert_eq!(compute_range(0, 1, 100), (1, 100));
    assert_eq!(compute_range(10, 1, 5), (11, 15));
    assert_eq!(compute_range(3, 50, 10), (50, 59));
}

//! The ingestion reconciler's pure core: converting fetched update events
//! into insertable rows and tombstones via the codec, and the watermark
//! advancement decisions of the ingestion loop.
//!
//! The loop around these functions performs the outside work: it fetches a
//! range of updates, applies the returned batches to the store, persists
//! the advanced watermark, and sleeps when told to back off. A failed
//! fetch is treated as a range with zero events: the watermark then stays
//! where it was and the loop backs off before retrying.

use vstd::prelude::*;

use crate::codec::{frag_integer_at, frag_string_at, frags_view, key_frags, parse_key, Fragment, FragmentView};
use crate::codec::{extract_integer_fragment, extract_string_fragment};
use crate::entries::{clone_bytes, DeletableDataEntryWithHeight, InsertableDataEntry};

verus! {

/// The base58 text that `bs58::encode` produces for the given bytes.
pub uninterp spec fn base58_of(b: Seq<u8>) -> Seq<char>;

/// Relies on bs58::encode (Bitcoin alphabet): the result depends on the
/// bytes alone.
#[verifier::external_body]
fn bs58_encode(b: &Vec<u8>) -> (r: String)
    ensures
        r@ == base58_of(b@),
{
    bs58::encode(b).into_string()
}

/// The typed value payload of an append event.
#[derive(Clone, Debug)]
pub enum EventValue {
    IntValue(i64),
    BoolValue(bool),
    BinaryValue(Vec<u8>),
    StringValue(String),
}

/// One update event: an append (value present) or a removal (value
/// absent) for one (address, key) pair.
#[derive(Clone, Debug)]
pub struct UpdateEvent {
    pub address: Vec<u8>,
    pub key: String,
    pub value: Option<EventValue>,
}

/// One block of the update stream: its height and its events.
#[derive(Clone, Debug)]
pub struct BlockUpdate {
    pub height: i32,
    pub entries: Vec<UpdateEvent>,
}

/// The stored key-fragment column pair of an insertable row.
pub open spec fn ins_frag_pair(row: InsertableDataEntry, i: int) -> (Option<String>, Option<i64>) {
    if i == 0 {
        (row.fragment_0_string, row.fragment_0_integer)
    } else if i == 1 {
        (row.fragment_1_string, row.fragment_1_integer)
    } else if i == 2 {
        (row.fragment_2_string, row.fragment_2_integer)
    } else if i == 3 {
        (row.fragment_3_string, row.fragment_3_integer)
    } else if i == 4 {
        (row.fragment_4_string, row.fragment_4_integer)
    } else if i == 5 {
        (row.fragment_5_string, row.fragment_5_integer)
    } else if i == 6 {
        (row.fragment_6_string, row.fragment_6_integer)
    } else if i == 7 {
        (row.fragment_7_string, row.fragment_7_integer)
    } else if i == 8 {
        (row.fragment_8_string, row.fragment_8_integer)
    } else if i == 9 {
        (row.fragment_9_string, row.fragment_9_integer)
    } else if i == 10 {
        (row.fragment_10_string, row.fragment_10_integer)
    } else {
        (Option::None, Option::None)
    }
}

/// The stored value-fragment column pair of an insertable row.
pub open spec fn ins_value_frag_pair(row: InsertableDataEntry, i: int) -> (
    Option<String>,
    Option<i64>,
) {
    if i == 0 {
        (row.value_fragment_0_string, row.value_fragment_0_integer)
    } else if i == 1 {
        (row.value_fragment_1_string, row.value_fragment_1_integer)
    } else if i == 2 {
        (row.value_fragment_2_string, row.value_fragment_2_integer)
    } else if i == 3 {
        (row.value_fragment_3_string, row.value_fragment_3_integer)
    } else if i == 4 {
        (row.value_fragment_4_string, row.value_fragment_4_integer)
    } else if i == 5 {
        (row.value_fragment_5_string, row.value_fragment_5_integer)
    } else if i == 6 {
        (row.value_fragment_6_string, row.value_fragment_6_integer)
    } else if i == 7 {
        (row.value_fragment_7_string, row.value_fragment_7_integer)
    } else if i == 8 {
        (row.value_fragment_8_string, row.value_fragment_8_integer)
    } else if i == 9 {
        (row.value_fragment_9_string, row.value_fragment_9_integer)
    } else if i == 10 {
        (row.value_fragment_10_string, row.value_fragment_10_integer)
    } else {
        (Option::None, Option::None)
    }
}

/// The view of an optional string.
pub open spec fn opt_str_view(o: Option<String>) -> Option<Seq<char>> {
    match o {
        Option::Some(s) => Option::Some(s@),
        Option::None => Option::None,
    }
}

/// The view of an optional integer.
pub open spec fn opt_int_view(o: Option<i64>) -> Option<int> {
    match o {
        Option::Some(n) => Option::Some(n as int),
        Option::None => Option::None,
    }
}

/// Whether the row's 22 key-fragment columns hold exactly the decoded
/// fragments of its key (all null when the key is not suitable).
pub open spec fn frag_cols_ok(row: InsertableDataEntry, fr: Option<Seq<FragmentView>>) -> bool {
    forall|i: int|
        0 <= i < 11 ==> {
            let p = #[trigger] ins_frag_pair(row, i);
            match fr {
                Option::None => p.0 is None && p.1 is None,
                Option::Some(fs) => opt_str_view(p.0) == frag_string_at(fs, i) && opt_int_view(p.1)
                    == frag_integer_at(fs, i),
            }
        }
}

/// Whether the row's 22 value-fragment columns hold exactly the decoded
/// fragments of its value payload (all null unless the value is a
/// fragment-structured string).
pub open spec fn value_frag_cols_ok(row: InsertableDataEntry, v: EventValue) -> bool {
    forall|i: int|
        0 <= i < 11 ==> {
            let p = #[trigger] ins_value_frag_pair(row, i);
            match v {
                EventValue::StringValue(s) => match key_frags(s@) {
                    Option::None => p.0 is None && p.1 is None,
                    Option::Some(fs) => opt_str_view(p.0) == frag_string_at(fs, i) && opt_int_view(
                        p.1,
                    ) == frag_integer_at(fs, i),
                },
                _ => p.0 is None && p.1 is None,
            }
        }
}

/// Whether the row's four typed value columns hold exactly the event's
/// payload.
pub open spec fn value_cols_ok(row: InsertableDataEntry, v: EventValue) -> bool {
    match v {
        EventValue::IntValue(n) => row.value_integer == Option::Some(n) && row.value_bool is None
            && row.value_binary is None && row.value_string is None,
        EventValue::BoolValue(b) => row.value_bool == Option::Some(b) && row.value_integer is None
            && row.value_binary is None && row.value_string is None,
        EventValue::BinaryValue(b) => (row.value_binary matches Some(bb) && bb@ == b@)
            && row.value_bool is None && row.value_integer is None && row.value_string is None,
        EventValue::StringValue(s) => row.value_string == Option::Some(s) && row.value_bool is None
            && row.value_integer is None && row.value_binary is None,
    }
}

/// Whether the insertable row is exactly the conversion of an append
/// event at the given height.
pub open spec fn insert_row_ok(row: InsertableDataEntry, ev: UpdateEvent, height: i32) -> bool {
    ev.value matches Some(v) && row.address@ == base58_of(ev.address@) && row.key == ev.key
        && row.height == height && value_cols_ok(row, v) && frag_cols_ok(row, key_frags(ev.key@))
        && value_frag_cols_ok(row, v)
}

/// Whether the tombstone is exactly the conversion of a removal event at
/// the given height.
pub open spec fn delete_row_ok(
    row: DeletableDataEntryWithHeight,
    ev: UpdateEvent,
    height: i32,
) -> bool {
    ev.value is None && row.address@ == base58_of(ev.address@) && row.key == ev.key && row.height
        == height
}

/// The append events of a block, in order.
pub open spec fn with_value(entries: Seq<UpdateEvent>) -> Seq<UpdateEvent>
    decreases entries.len(),
{
    if entries.len() == 0 {
        Seq::empty()
    } else if entries.last().value is Some {
        with_value(entries.drop_last()).push(entries.last())
    } else {
        with_value(entries.drop_last())
    }
}

/// The removal events of a block, in order.
pub open spec fn without_value(entries: Seq<UpdateEvent>) -> Seq<UpdateEvent>
    decreases entries.len(),
{
    if entries.len() == 0 {
        Seq::empty()
    } else if entries.last().value is None {
        without_value(entries.drop_last()).push(entries.last())
    } else {
        without_value(entries.drop_last())
    }
}

fn extract_string_fragment_opt(frags: &Option<Vec<Fragment>>, position: usize) -> (r: Option<
    String,
>)
    ensures
        opt_str_view(r) == match frags {
            Option::None => Option::<Seq<char>>::None,
            Option::Some(v) => frag_string_at(frags_view(v@), position as int),
        },
{
    match frags {
        Option::None => None,
        Option::Some(v) => extract_string_fragment(v, position),
    }
}

fn extract_integer_fragment_opt(frags: &Option<Vec<Fragment>>, position: usize) -> (r: Option<
    i64,
>)
    ensures
        opt_int_view(r) == match frags {
            Option::None => Option::<int>::None,
            Option::Some(v) => frag_integer_at(frags_view(v@), position as int),
        },
{
    match frags {
        Option::None => None,
        Option::Some(v) => extract_integer_fragment(v, position),
    }
}

/// Converts one append event into an insertable row: the base58 address,
/// the key and its decoded fragment columns, the typed value columns, and
/// the value-fragment columns of a fragment-structured string payload.
fn insert_row(address: &Vec<u8>, key: &String, value: &EventValue, height: i32) -> (r:
    InsertableDataEntry)
    ensures
        r.address@ == base58_of(address@),
        r.key == key,
        r.height == height,
        value_cols_ok(r, *value),
        frag_cols_ok(r, key_frags(key@)),
        value_frag_cols_ok(r, *value),
{
    let frags = parse_key(key.as_str());
    let value_frags: Option<Vec<Fragment>> = match value {
        EventValue::StringValue(s) => parse_key(s.as_str()),
        _ => None,
    };
    let mut value_binary: Option<Vec<u8>> = None;
    let mut value_bool: Option<bool> = None;
    let mut value_integer: Option<i64> = None;
    let mut value_string: Option<String> = None;
    match value {
        EventValue::IntValue(n) => {
            value_integer = Some(*n);
        },
        EventValue::BoolValue(b) => {
            value_bool = Some(*b);
        },
        EventValue::BinaryValue(b) => {
            value_binary = Some(clone_bytes(b));
        },
        EventValue::StringValue(s) => {
            value_string = Some(s.clone());
        },
    }
    InsertableDataEntry {
        address: bs58_encode(address),
        key: key.clone(),
        height,
        value_binary,
        value_bool,
        value_integer,
        value_string,
        fragment_0_string: extract_string_fragment_opt(&frags, 0),
        fragment_0_integer: extract_integer_fragment_opt(&frags, 0),
        fragment_1_string: extract_string_fragment_opt(&frags, 1),
        fragment_1_integer: extract_integer_fragment_opt(&frags, 1),
        fragment_2_string: extract_string_fragment_opt(&frags, 2),
        fragment_2_integer: extract_integer_fragment_opt(&frags, 2),
        fragment_3_string: extract_string_fragment_opt(&frags, 3),
        fragment_3_integer: extract_integer_fragment_opt(&frags, 3),
        fragment_4_string: extract_string_fragment_opt(&frags, 4),
        fragment_4_integer: extract_integer_fragment_opt(&frags, 4),
        fragment_5_string: extract_string_fragment_opt(&frags, 5),
        fragment_5_integer: extract_integer_fragment_opt(&frags, 5),
        fragment_6_string: extract_string_fragment_opt(&frags, 6),
        fragment_6_integer: extract_integer_fragment_opt(&frags, 6),
        fragment_7_string: extract_string_fragment_opt(&frags, 7),
        fragment_7_integer: extract_integer_fragment_opt(&frags, 7),
        fragment_8_string: extract_string_fragment_opt(&frags, 8),
        fragment_8_integer: extract_integer_fragment_opt(&frags, 8),
        fragment_9_string: extract_string_fragment_opt(&frags, 9),
        fragment_9_integer: extract_integer_fragment_opt(&frags, 9),
        fragment_10_string: extract_string_fragment_opt(&frags, 10),
        fragment_10_integer: extract_integer_fragment_opt(&frags, 10),
        value_fragment_0_string: extract_string_fragment_opt(&value_frags, 0),
        value_fragment_0_integer: extract_integer_fragment_opt(&value_frags, 0),
        value_fragment_1_string: extract_string_fragment_opt(&value_frags, 1),
        value_fragment_1_integer: extract_integer_fragment_opt(&value_frags, 1),
        value_fragment_2_string: extract_string_fragment_opt(&value_frags, 2),
        value_fragment_2_integer: extract_integer_fragment_opt(&value_frags, 2),
        value_fragment_3_string: extract_string_fragment_opt(&value_frags, 3),
        value_fragment_3_integer: extract_integer_fragment_opt(&value_frags, 3),
        value_fragment_4_string: extract_string_fragment_opt(&value_frags, 4),
        value_fragment_4_integer: extract_integer_fragment_opt(&value_frags, 4),
        value_fragment_5_string: extract_string_fragment_opt(&value_frags, 5),
        value_fragment_5_integer: extract_integer_fragment_opt(&value_frags, 5),
        value_fragment_6_string: extract_string_fragment_opt(&value_frags, 6),
        value_fragment_6_integer: extract_integer_fragment_opt(&value_frags, 6),
        value_fragment_7_string: extract_string_fragment_opt(&value_frags, 7),
        value_fragment_7_integer: extract_integer_fragment_opt(&value_frags, 7),
        value_fragment_8_string: extract_string_fragment_opt(&value_frags, 8),
        value_fragment_8_integer: extract_integer_fragment_opt(&value_frags, 8),
        value_fragment_9_string: extract_string_fragment_opt(&value_frags, 9),
        value_fragment_9_integer: extract_integer_fragment_opt(&value_frags, 9),
        value_fragment_10_string: extract_string_fragment_opt(&value_frags, 10),
        value_fragment_10_integer: extract_integer_fragment_opt(&value_frags, 10),
    }
}

/// Converts one block's events: append events become insertable rows and
/// removal events become tombstones, each in event order, all at the
/// block's height.
#[verifier::loop_isolation(false)]
pub fn collect_data_entries(update: &BlockUpdate) -> (r: (
    Vec<InsertableDataEntry>,
    Vec<DeletableDataEntryWithHeight>,
))
    ensures
        r.0@.len() == with_value(update.entries@).len(),
        forall|i: int|
            0 <= i < r.0@.len() ==> insert_row_ok(
                #[trigger] r.0@[i],
                with_value(update.entries@)[i],
                update.height,
            ),
        r.1@.len() == without_value(update.entries@).len(),
        forall|i: int|
            0 <= i < r.1@.len() ==> delete_row_ok(
                #[trigger] r.1@[i],
                without_value(update.entries@)[i],
                update.height,
            ),
{
    let mut to_insert: Vec<InsertableDataEntry> = Vec::new();
    let mut to_delete: Vec<DeletableDataEntryWithHeight> = Vec::new();
    let n = update.entries.len();
    let mut i: usize = 0;
    proof {
        assert(update.entries@.take(0) =~= Seq::<UpdateEvent>::empty());
    }
    while i < n
        invariant
            i <= n,
            to_insert@.len() == with_value(update.entries@.take(i as int)).len(),
            forall|j: int|
                0 <= j < to_insert@.len() ==> insert_row_ok(
                    #[trigger] to_insert@[j],
                    with_value(update.entries@.take(i as int))[j],
                    update.height,
                ),
            to_delete@.len() == without_value(update.entries@.take(i as int)).len(),
            forall|j: int|
                0 <= j < to_delete@.len() ==> delete_row_ok(
                    #[trigger] to_delete@[j],
                    without_value(update.entries@.take(i as int))[j],
                    update.height,
                ),
        decreases n - i,
    {
        let ev = &update.entries[i];
        proof {
            assert(update.entries@.take(i + 1).drop_last() =~= update.entries@.take(i as int));
            assert(update.entries@.take(i + 1).last() == update.entries@[i as int]);
        }
        match &ev.value {
            Option::Some(v) => {
                let row = insert_row(&ev.address, &ev.key, v, update.height);
                to_insert.push(row);
            },
            Option::None => {
                to_delete.push(
                    DeletableDataEntryWithHeight {
                        address: bs58_encode(&ev.address),
                        key: ev.key.clone(),
                        height: update.height,
                    },
                );
            },
        }
        i += 1;
    }
    proof {
        assert(update.entries@.take(n as int) =~= update.entries@);
    }
    (to_insert, to_delete)
}

/// The greatest height among the batched rows and tombstones, if any
/// event was observed.
pub open spec fn max_observed_height(
    inserts: Seq<InsertableDataEntry>,
    deletes: Seq<DeletableDataEntryWithHeight>,
) -> Option<int> {
    if inserts.len() == 0 && deletes.len() == 0 {
        Option::None
    } else {
        Option::Some(max_height_of(inserts, deletes))
    }
}

/// The greatest height among the batched rows and tombstones.
pub open spec fn max_height_of(
    inserts: Seq<InsertableDataEntry>,
    deletes: Seq<DeletableDataEntryWithHeight>,
) -> int {
    let hi = max_insert_height(inserts);
    let hd = max_delete_height(deletes);
    if hi >= hd {
        hi
    } else {
        hd
    }
}

/// The greatest height among insertable rows (the smallest height value
/// when there are none).
pub open spec fn max_insert_height(inserts: Seq<InsertableDataEntry>) -> int
    decreases inserts.len(),
{
    if inserts.len() == 0 {
        i32::MIN as int
    } else {
        let rest = max_insert_height(inserts.drop_last());
        if inserts.last().height as int >= rest {
            inserts.last().height as int
        } else {
            rest
        }
    }
}

/// The greatest height among tombstones (the smallest height value when
/// there are none).
pub open spec fn max_delete_height(deletes: Seq<DeletableDataEntryWithHeight>) -> int
    decreases deletes.len(),
{
    if deletes.len() == 0 {
        i32::MIN as int
    } else {
        let rest = max_delete_height(deletes.drop_last());
        if deletes.last().height as int >= rest {
            deletes.last().height as int
        } else {
            rest
        }
    }
}

/// The range the next fetch requests: it starts just above the watermark
/// (but never below the configured minimum height) and spans the
/// configured number of blocks.
pub fn compute_range(last_handled_height: u32, min_height: u32, blocks_per_request: u32) -> (r: (
    u32,
    u32,
))
    requires
        blocks_per_request >= 1,
        last_handled_height < u32::MAX,
        (if min_height > last_handled_height + 1 {
            min_height as int
        } else {
            last_handled_height + 1
        }) + blocks_per_request - 1 <= u32::MAX,
    ensures
        r.0 == if min_height > last_handled_height + 1 {
            min_height as int
        } else {
            last_handled_height + 1
        },
        r.1 == r.0 + blocks_per_request - 1,
{
    let from = if last_handled_height < min_height {
        min_height
    } else {
        last_handled_height + 1
    };
    (from, from + (blocks_per_request - 1))
}

/// The watermark decision after one fetched range: a range with zero
/// events (a failed fetch counts as one) leaves the watermark unchanged
/// and asks for a backoff pause; otherwise the watermark advances to the
/// greatest height actually observed and the loop continues at once.
#[verifier::loop_isolation(false)]
pub fn advance_watermark(
    last_handled_height: u32,
    inserts: &Vec<InsertableDataEntry>,
    deletes: &Vec<DeletableDataEntryWithHeight>,
) -> (r: (u32, bool))
    requires
        forall|i: int| 0 <= i < inserts@.len() ==> #[trigger] inserts@[i].height >= 0,
        forall|i: int| 0 <= i < deletes@.len() ==> #[trigger] deletes@[i].height >= 0,
    ensures
        r.1 == (inserts@.len() + deletes@.len() == 0),
        match max_observed_height(inserts@, deletes@) {
            Option::None => r.0 == last_handled_height,
            Option::Some(h) => r.0 == h,
        },
{
    if inserts.len() == 0 && deletes.len() == 0 {
        return (last_handled_height, true);
    }
    let mut best: i32 = i32::MIN;
    let ni = inserts.len();
    let mut i: usize = 0;
    proof {
        assert(inserts@.take(0) =~= Seq::<InsertableDataEntry>::empty());
    }
    while i < ni
        invariant
            i <= ni,
            best as int == max_insert_height(inserts@.take(i as int)),
        decreases ni - i,
    {
        proof {
            assert(inserts@.take(i + 1).drop_last() =~= inserts@.take(i as int));
            assert(inserts@.take(i + 1).last() == inserts@[i as int]);
        }
        if inserts[i].height > best {
            best = inserts[i].height;
        }
        i += 1;
    }
    let mut best_d: i32 = i32::MIN;
    let nd = deletes.len();
    let mut k: usize = 0;
    proof {
        assert(inserts@.take(ni as int) =~= inserts@);
        assert(deletes@.take(0) =~= Seq::<DeletableDataEntryWithHeight>::empty());
    }
    while k < nd
        invariant
            k <= nd,
            best_d as int == max_delete_height(deletes@.take(k as int)),
        decreases nd - k,
    {
        proof {
            assert(deletes@.take(k + 1).drop_last() =~= deletes@.take(k as int));
            assert(deletes@.take(k + 1).last() == deletes@[k as int]);
        }
        if deletes[k].height > best_d {
            best_d = deletes[k].height;
        }
        k += 1;
    }
    proof {
        assert(deletes@.take(nd as int) =~= deletes@);
    }
    let h = if best >= best_d {
        best
    } else {
        best_d
    };
    (h as u32, false)
}

} // verus!

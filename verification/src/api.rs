//! The response model of the query path: stored rows converted into typed
//! entries with their decoded fragment lists, paginated search responses,
//! and slot-per-request batched lookup responses.

use vstd::prelude::*;

use crate::entries::{frag_pair, has_value, value_frag_pair, DataEntry as StoredEntry};
use crate::entries::{fragment_pair, value_fragment_pair};
use crate::strfmt::str_eq;
use crate::model::{Entry, MgetEntries};

verus! {

/// The typed value of an entry.
#[derive(Clone, Debug)]
pub enum DataEntryType {
    BinaryVal(Vec<u8>),
    BoolVal(bool),
    IntVal(i64),
    StringVal(String),
}

/// One decoded key fragment of a returned entry.
#[derive(Clone, Debug)]
pub enum DataEntryFragment {
    String { value: String },
    Integer { value: i64 },
}

/// One decoded value fragment of a returned entry.
#[derive(Clone, Debug)]
pub enum DataEntryValueFragment {
    String { value: String },
    Integer { value: i64 },
}

/// The decoded key and value fragments of a returned entry.
#[derive(Clone, Debug)]
pub struct Fragments {
    pub key: Vec<DataEntryFragment>,
    pub value: Vec<DataEntryValueFragment>,
}

/// One entry of a query response.
#[derive(Clone, Debug)]
pub struct DataEntry {
    pub address: String,
    pub key: String,
    pub height: i32,
    pub value: DataEntryType,
    pub fragments: Fragments,
}

/// A search response: one page of entries and whether a further page
/// exists.
#[derive(Clone, Debug)]
pub struct DataEntriesResponse {
    pub entries: Vec<DataEntry>,
    pub has_next_page: bool,
}

/// A batched lookup response: one slot per requested pair, in request
/// order.
#[derive(Clone, Debug)]
pub struct MgetResponse {
    pub entries: Vec<Option<DataEntry>>,
}

/// Whether the entry's typed value is the one the stored row carries,
/// picked from its four typed value columns in a fixed order (binary
/// payloads compare by their bytes).
pub open spec fn value_matches(v: DataEntryType, row: StoredEntry) -> bool {
    if row.value_binary is Some {
        v matches DataEntryType::BinaryVal(b) && b@ == row.value_binary->0@
    } else if row.value_bool is Some {
        v == DataEntryType::BoolVal(row.value_bool->0)
    } else if row.value_integer is Some {
        v == DataEntryType::IntVal(row.value_integer->0)
    } else {
        v == DataEntryType::StringVal(row.value_string->0)
    }
}

/// The decoded key-fragment list of a row, from position `i` on: one
/// fragment per position, a string fragment when the string column is set,
/// else an integer fragment, stopping at the first position with neither.
pub open spec fn key_frags_from(row: StoredEntry, i: int) -> Seq<DataEntryFragment>
    decreases 11 - i,
{
    if i < 0 || i >= 11 {
        Seq::empty()
    } else {
        let p = frag_pair(row, i);
        if p.0 is Some {
            seq![DataEntryFragment::String { value: p.0->0 }] + key_frags_from(row, i + 1)
        } else if p.1 is Some {
            seq![DataEntryFragment::Integer { value: p.1->0 }] + key_frags_from(row, i + 1)
        } else {
            Seq::empty()
        }
    }
}

/// The decoded value-fragment list of a row, from position `i` on.
pub open spec fn value_frags_from(row: StoredEntry, i: int) -> Seq<DataEntryValueFragment>
    decreases 11 - i,
{
    if i < 0 || i >= 11 {
        Seq::empty()
    } else {
        let p = value_frag_pair(row, i);
        if p.0 is Some {
            seq![DataEntryValueFragment::String { value: p.0->0 }] + value_frags_from(row, i + 1)
        } else if p.1 is Some {
            seq![DataEntryValueFragment::Integer { value: p.1->0 }] + value_frags_from(row, i + 1)
        } else {
            Seq::empty()
        }
    }
}

/// Whether a response entry is exactly the conversion of a stored row.
pub open spec fn same_response(de: DataEntry, row: StoredEntry) -> bool {
    de.address == row.address && de.key == row.key && de.height == row.height && value_matches(
        de.value,
        row,
    ) && de.fragments.key@ == key_frags_from(row, 0) && de.fragments.value@ == value_frags_from(
        row,
        0,
    )
}

impl DataEntry {
    /// Converts a stored row into a response entry, decoding its fragment
    /// columns into fragment lists.
    pub fn from_stored(row: &StoredEntry) -> (r: DataEntry)
        requires
            has_value(*row),
        ensures
            same_response(r, *row),
    {
        let value: DataEntryType = if row.value_binary.is_some() {
            DataEntryType::BinaryVal(clone_bytes_opt(&row.value_binary))
        } else if row.value_bool.is_some() {
            let b = match &row.value_bool {
                Option::Some(b) => *b,
                Option::None => false,
            };
            DataEntryType::BoolVal(b)
        } else if row.value_integer.is_some() {
            let n = match &row.value_integer {
                Option::Some(n) => *n,
                Option::None => 0,
            };
            DataEntryType::IntVal(n)
        } else {
            let s = match &row.value_string {
                Option::Some(s) => s.clone(),
                Option::None => String::new(),
            };
            DataEntryType::StringVal(s)
        };
        let mut key_frags: Vec<DataEntryFragment> = Vec::new();
        let mut i: usize = 0;
        let mut stop = false;
        proof {
            assert(key_frags@ + key_frags_from(*row, 0) =~= key_frags_from(*row, 0));
        }
        while i < 11 && !stop
            invariant
                i <= 11,
                key_frags@ + key_frags_from(*row, i as int) == key_frags_from(*row, 0),
                stop ==> key_frags_from(*row, i as int) == Seq::<DataEntryFragment>::empty(),
            decreases 11 - i, 1 - (stop as int),
        {
            let ghost prev = key_frags@;
            let (s, n) = fragment_pair(row, i);
            let mut pushed = true;
            match s {
                Option::Some(value) => {
                    key_frags.push(DataEntryFragment::String { value });
                },
                Option::None => {
                    match n {
                        Option::Some(value) => {
                            key_frags.push(DataEntryFragment::Integer { value });
                        },
                        Option::None => {
                            stop = true;
                            pushed = false;
                        },
                    }
                },
            }
            if !pushed {
                continue ;
            }
            proof {
                let frag = key_frags@.last();
                assert(key_frags@ =~= prev + seq![frag]);
                assert(key_frags_from(*row, i as int) == seq![frag] + key_frags_from(
                    *row,
                    i + 1,
                ));
                assert(prev + (seq![frag] + key_frags_from(*row, i + 1)) =~= key_frags@
                    + key_frags_from(*row, i + 1));
            }
            i += 1;
        }
        proof {
            assert(key_frags@ + key_frags_from(*row, i as int) =~= key_frags@);
        }
        let mut value_frags: Vec<DataEntryValueFragment> = Vec::new();
        let mut i: usize = 0;
        let mut stop = false;
        proof {
            assert(value_frags@ + value_frags_from(*row, 0) =~= value_frags_from(*row, 0));
        }
        while i < 11 && !stop
            invariant
                i <= 11,
                value_frags@ + value_frags_from(*row, i as int) == value_frags_from(*row, 0),
                stop ==> value_frags_from(*row, i as int) == Seq::<DataEntryValueFragment>::empty(),
            decreases 11 - i, 1 - (stop as int),
        {
            let ghost prev = value_frags@;
            let (s, n) = value_fragment_pair(row, i);
            let mut pushed = true;
            match s {
                Option::Some(value) => {
                    value_frags.push(DataEntryValueFragment::String { value });
                },
                Option::None => {
                    match n {
                        Option::Some(value) => {
                            value_frags.push(DataEntryValueFragment::Integer { value });
                        },
                        Option::None => {
                            stop = true;
                            pushed = false;
                        },
                    }
                },
            }
            if !pushed {
                continue ;
            }
            proof {
                let frag = value_frags@.last();
                assert(value_frags@ =~= prev + seq![frag]);
                assert(value_frags_from(*row, i as int) == seq![frag] + value_frags_from(
                    *row,
                    i + 1,
                ));
                assert(prev + (seq![frag] + value_frags_from(*row, i + 1)) =~= value_frags@
                    + value_frags_from(*row, i + 1));
            }
            i += 1;
        }
        proof {
            assert(value_frags@ + value_frags_from(*row, i as int) =~= value_frags@);
        }
        DataEntry {
            address: row.address.clone(),
            key: row.key.clone(),
            height: row.height,
            value,
            fragments: Fragments { key: key_frags, value: value_frags },
        }
    }
}

fn clone_bytes_opt(v: &Option<Vec<u8>>) -> (r: Vec<u8>)
    requires
        v is Some,
    ensures
        r@ == v->0@,
{
    match v {
        Option::Some(b) => crate::entries::clone_bytes(b),
        Option::None => Vec::new(),
    }
}

/// Builds one page of a search response from the rows fetched with one
/// extra row beyond the requested limit: the page holds at most `limit`
/// converted rows, in order, and a further page exists exactly when more
/// than `limit` rows came back.
#[verifier::loop_isolation(false)]
pub fn build_search_response(rows: &Vec<StoredEntry>, limit: u64) -> (r: DataEntriesResponse)
    requires
        forall|i: int| 0 <= i < rows@.len() ==> has_value(#[trigger] rows@[i]),
    ensures
        r.has_next_page == (rows@.len() > limit),
        r.entries@.len() == if rows@.len() > limit {
            limit as int
        } else {
            rows@.len() as int
        },
        forall|i: int|
            0 <= i < r.entries@.len() ==> same_response(#[trigger] r.entries@[i], rows@[i]),
{
    let n = rows.len();
    let has_next_page = (n as u64) > limit;
    let count: usize = if has_next_page {
        limit as usize
    } else {
        n
    };
    let mut entries: Vec<DataEntry> = Vec::new();
    let mut i: usize = 0;
    while i < count
        invariant
            i <= count,
            entries@.len() == i,
            forall|j: int| 0 <= j < i ==> same_response(#[trigger] entries@[j], rows@[j]),
        decreases count - i,
    {
        entries.push(DataEntry::from_stored(&rows[i]));
        i += 1;
    }
    DataEntriesResponse { entries, has_next_page }
}

/// The last row index before `upto`, not yet taken, whose key (and, when
/// given, address) matches; `None` when no such row remains.
pub open spec fn find_last_match(
    rows: Seq<StoredEntry>,
    address: Option<Seq<char>>,
    key: Seq<char>,
    taken: Set<int>,
    upto: int,
) -> Option<int>
    decreases upto,
{
    if upto <= 0 {
        Option::None
    } else if !taken.contains(upto - 1) && rows[upto - 1].key@ == key && (match address {
        Option::Some(a) => rows[upto - 1].address@ == a,
        Option::None => true,
    }) {
        Option::Some(upto - 1)
    } else {
        find_last_match(rows, address, key, taken, upto - 1)
    }
}

/// The row index each request slot takes: the slots are filled in request
/// order, each taking the last remaining matching row, each row used at
/// most once.
pub open spec fn pick_rows(
    rows: Seq<StoredEntry>,
    slots: Seq<(Option<Seq<char>>, Seq<char>)>,
    taken: Set<int>,
) -> Seq<Option<int>>
    decreases slots.len(),
{
    if slots.len() == 0 {
        Seq::empty()
    } else {
        match find_last_match(rows, slots[0].0, slots[0].1, taken, rows.len() as int) {
            Option::None => seq![Option::<int>::None] + pick_rows(rows, slots.skip(1), taken),
            Option::Some(j) => seq![Option::Some(j)] + pick_rows(
                rows,
                slots.skip(1),
                taken.insert(j),
            ),
        }
    }
}

/// Each request slot receives exactly one pick.
pub proof fn lemma_pick_rows_len(
    rows: Seq<StoredEntry>,
    slots: Seq<(Option<Seq<char>>, Seq<char>)>,
    taken: Set<int>,
)
    ensures
        pick_rows(rows, slots, taken).len() == slots.len(),
    decreases slots.len(),
{
    if slots.len() > 0 {
        let c = find_last_match(rows, slots[0].0, slots[0].1, taken, rows.len() as int);
        if c is Some {
            lemma_pick_rows_len(rows, slots.skip(1), taken.insert(c->0));
        } else {
            lemma_pick_rows_len(rows, slots.skip(1), taken);
        }
    }
}

/// The request slots of a batched lookup by (address, key) pairs.
pub open spec fn pair_slots(pairs: Seq<Entry>) -> Seq<(Option<Seq<char>>, Seq<char>)> {
    pairs.map_values(|p: Entry| (Option::Some(p.address@), p.key@))
}

/// The request slots of a batched lookup by keys under one address.
pub open spec fn key_slots(keys: Seq<String>) -> Seq<(Option<Seq<char>>, Seq<char>)> {
    keys.map_values(|k: String| (Option::<Seq<char>>::None, k@))
}

/// Whether each response slot is exactly the conversion of the row the
/// pick assigns it, or absent when the pick assigns none.
pub open spec fn slots_match(
    entries: Seq<Option<DataEntry>>,
    rows: Seq<StoredEntry>,
    picks: Seq<Option<int>>,
) -> bool {
    entries.len() == picks.len() && forall|i: int|
        0 <= i < picks.len() ==> match #[trigger] picks[i] {
            Option::None => entries[i] is None,
            Option::Some(j) => 0 <= j < rows.len() && (entries[i] matches Some(de)
                && same_response(de, rows[j])),
        }
}

fn find_last_row(
    rows: &Vec<StoredEntry>,
    used: &Vec<bool>,
    address: Option<&str>,
    key: &str,
) -> (r: Option<usize>)
    requires
        used@.len() == rows@.len(),
    ensures
        ({
            let addr_view = match address {
                Option::Some(a) => Option::Some(a@),
                Option::None => Option::<Seq<char>>::None,
            };
            let taken = Set::new(|j: int| 0 <= j < used@.len() && used@[j]);
            match r {
                Option::None => find_last_match(rows@, addr_view, key@, taken, rows@.len() as int)
                    is None,
                Option::Some(j) => j < rows@.len() && find_last_match(
                    rows@,
                    addr_view,
                    key@,
                    taken,
                    rows@.len() as int,
                ) == Option::Some(j as int),
            }
        }),
{
    let ghost addr_view = match address {
        Option::Some(a) => Option::Some(a@),
        Option::None => Option::<Seq<char>>::None,
    };
    let ghost taken = Set::new(|j: int| 0 <= j < used@.len() && used@[j]);
    let mut upto: usize = rows.len();
    while upto > 0
        invariant
            upto <= rows@.len(),
            used@.len() == rows@.len(),
            addr_view == match address {
                Option::Some(a) => Option::Some(a@),
                Option::None => Option::<Seq<char>>::None,
            },
            taken == Set::new(|j: int| 0 <= j < used@.len() && used@[j]),
            find_last_match(rows@, addr_view, key@, taken, rows@.len() as int) == find_last_match(
                rows@,
                addr_view,
                key@,
                taken,
                upto as int,
            ),
        decreases upto,
    {
        let j = upto - 1;
        let addr_ok = match address {
            Option::Some(a) => str_eq(rows[j].address.as_str(), a),
            Option::None => true,
        };
        if !used[j] && str_eq(rows[j].key.as_str(), key) && addr_ok {
            return Some(j);
        }
        upto -= 1;
    }
    None
}

/// Builds a batched lookup response: one slot per requested (address, key)
/// pair, in request order, each filled with the last remaining matching
/// row; a row fills at most one slot.
#[verifier::loop_isolation(false)]
pub fn build_mget_response(rows: &Vec<StoredEntry>, pairs: &MgetEntries) -> (r: MgetResponse)
    requires
        forall|i: int| 0 <= i < rows@.len() ==> has_value(#[trigger] rows@[i]),
    ensures
        slots_match(
            r.entries@,
            rows@,
            pick_rows(rows@, pair_slots(pairs.address_key_pairs@), Set::empty()),
        ),
{
    let n = pairs.address_key_pairs.len();
    let mut used: Vec<bool> = Vec::new();
    let mut k: usize = 0;
    let nr = rows.len();
    while k < nr
        invariant
            k <= nr,
            used@.len() == k,
            forall|j: int| 0 <= j < k ==> !(#[trigger] used@[j]),
        decreases nr - k,
    {
        used.push(false);
        k += 1;
    }
    let mut entries: Vec<Option<DataEntry>> = Vec::new();
    let mut i: usize = 0;
    let ghost slots = pair_slots(pairs.address_key_pairs@);
    let ghost picks = pick_rows(rows@, slots, Set::empty());
    proof {
        assert(Set::new(|j: int| 0 <= j < used@.len() && used@[j]) =~= Set::<int>::empty());
        assert(slots.skip(0) =~= slots);
        lemma_pick_rows_len(rows@, slots, Set::empty());
        assert(picks.skip(0) =~= picks);
    }
    while i < n
        invariant
            i <= n,
            n == slots.len(),
            used@.len() == rows@.len(),
            entries@.len() == i,
            pick_rows(
                rows@,
                slots.skip(i as int),
                Set::new(|j: int| 0 <= j < used@.len() && used@[j]),
            ) == picks.skip(i as int),
            picks.len() == slots.len(),
            forall|t: int|
                0 <= t < i ==> match #[trigger] picks[t] {
                    Option::None => entries@[t] is None,
                    Option::Some(j) => 0 <= j < rows@.len() && (entries@[t] matches Some(de)
                        && same_response(de, rows@[j])),
                },
        decreases n - i,
    {
        let p = &pairs.address_key_pairs[i];
        let ghost taken = Set::new(|j: int| 0 <= j < used@.len() && used@[j]);
        proof {
            assert(slots.skip(i as int)[0] == slots[i as int]);
            assert(slots.skip(i as int).skip(1) =~= slots.skip(i + 1));
            lemma_pick_rows_len(rows@, slots.skip(i as int), taken);
            assert(picks.skip(i as int)[0] == picks[i as int]);
            assert(picks.skip(i as int).skip(1) =~= picks.skip(i + 1));
        }
        match find_last_row(rows, &used, Some(p.address.as_str()), p.key.as_str()) {
            Option::Some(j) => {
                entries.push(Some(DataEntry::from_stored(&rows[j])));
                used.set(j, true);
                proof {
                    assert(Set::new(|t: int| 0 <= t < used@.len() && used@[t]) =~= taken.insert(
                        j as int,
                    ));
                }
            },
            Option::None => {
                entries.push(None);
            },
        }
        i += 1;
    }
    proof {
        assert(slots.skip(n as int) =~= Seq::<(Option<Seq<char>>, Seq<char>)>::empty());
        assert(picks.skip(n as int) =~= Seq::<Option<int>>::empty());
    }
    MgetResponse { entries }
}

/// Builds a batched lookup response keyed by key alone: one slot per
/// requested key, in request order, each filled with the last remaining
/// row with that key; a row fills at most one slot.
#[verifier::loop_isolation(false)]
pub fn build_mget_by_address_response(rows: &Vec<StoredEntry>, keys: &Vec<String>) -> (r:
    MgetResponse)
    requires
        forall|i: int| 0 <= i < rows@.len() ==> has_value(#[trigger] rows@[i]),
    ensures
        slots_match(r.entries@, rows@, pick_rows(rows@, key_slots(keys@), Set::empty())),
{
    let n = keys.len();
    let mut used: Vec<bool> = Vec::new();
    let mut k: usize = 0;
    let nr = rows.len();
    while k < nr
        invariant
            k <= nr,
            used@.len() == k,
            forall|j: int| 0 <= j < k ==> !(#[trigger] used@[j]),
        decreases nr - k,
    {
        used.push(false);
        k += 1;
    }
    let mut entries: Vec<Option<DataEntry>> = Vec::new();
    let mut i: usize = 0;
    let ghost slots = key_slots(keys@);
    let ghost picks = pick_rows(rows@, slots, Set::empty());
    proof {
        assert(Set::new(|j: int| 0 <= j < used@.len() && used@[j]) =~= Set::<int>::empty());
        assert(slots.skip(0) =~= slots);
        lemma_pick_rows_len(rows@, slots, Set::empty());
        assert(picks.skip(0) =~= picks);
    }
    while i < n
        invariant
            i <= n,
            n == slots.len(),
            used@.len() == rows@.len(),
            entries@.len() == i,
            pick_rows(
                rows@,
                slots.skip(i as int),
                Set::new(|j: int| 0 <= j < used@.len() && used@[j]),
            ) == picks.skip(i as int),
            picks.len() == slots.len(),
            forall|t: int|
                0 <= t < i ==> match #[trigger] picks[t] {
                    Option::None => entries@[t] is None,
                    Option::Some(j) => 0 <= j < rows@.len() && (entries@[t] matches Some(de)
                        && same_response(de, rows@[j])),
                },
        decreases n - i,
    {
        let key = &keys[i];
        let ghost taken = Set::new(|j: int| 0 <= j < used@.len() && used@[j]);
        proof {
            assert(slots.skip(i as int)[0] == slots[i as int]);
            assert(slots.skip(i as int).skip(1) =~= slots.skip(i + 1));
            lemma_pick_rows_len(rows@, slots.skip(i as int), taken);
            assert(picks.skip(i as int)[0] == picks[i as int]);
            assert(picks.skip(i as int).skip(1) =~= picks.skip(i + 1));
        }
        match find_last_row(rows, &used, None, key.as_str()) {
            Option::Some(j) => {
                entries.push(Some(DataEntry::from_stored(&rows[j])));
                used.set(j, true);
                proof {
                    assert(Set::new(|t: int| 0 <= t < used@.len() && used@[t]) =~= taken.insert(
                        j as int,
                    ));
                }
            },
            Option::None => {
                entries.push(None);
            },
        }
        i += 1;
    }
    proof {
        assert(slots.skip(n as int) =~= Seq::<(Option<Seq<char>>, Seq<char>)>::empty());
        assert(picks.skip(n as int) =~= Seq::<Option<int>>::empty());
    }
    MgetResponse { entries }
}

} // verus!

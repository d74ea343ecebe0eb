//! The physical row model: one stored version of one (address, key) pair,
//! with its typed value columns and the 11 nullable key- and
//! value-fragment column pairs the codec derives.

use vstd::prelude::*;

verus! {

/// One stored row as the query path reads it.
#[derive(Clone, Debug)]
pub struct DataEntry {
    pub address: String,
    pub key: String,
    pub height: i32,
    pub value_binary: Option<Vec<u8>>,
    pub value_bool: Option<bool>,
    pub value_integer: Option<i64>,
    pub value_string: Option<String>,
    pub fragment_0_string: Option<String>,
    pub fragment_0_integer: Option<i64>,
    pub fragment_1_string: Option<String>,
    pub fragment_1_integer: Option<i64>,
    pub fragment_2_string: Option<String>,
    pub fragment_2_integer: Option<i64>,
    pub fragment_3_string: Option<String>,
    pub fragment_3_integer: Option<i64>,
    pub fragment_4_string: Option<String>,
    pub fragment_4_integer: Option<i64>,
    pub fragment_5_string: Option<String>,
    pub fragment_5_integer: Option<i64>,
    pub fragment_6_string: Option<String>,
    pub fragment_6_integer: Option<i64>,
    pub fragment_7_string: Option<String>,
    pub fragment_7_integer: Option<i64>,
    pub fragment_8_string: Option<String>,
    pub fragment_8_integer: Option<i64>,
    pub fragment_9_string: Option<String>,
    pub fragment_9_integer: Option<i64>,
    pub fragment_10_string: Option<String>,
    pub fragment_10_integer: Option<i64>,
    pub value_fragment_0_string: Option<String>,
    pub value_fragment_0_integer: Option<i64>,
    pub value_fragment_1_string: Option<String>,
    pub value_fragment_1_integer: Option<i64>,
    pub value_fragment_2_string: Option<String>,
    pub value_fragment_2_integer: Option<i64>,
    pub value_fragment_3_string: Option<String>,
    pub value_fragment_3_integer: Option<i64>,
    pub value_fragment_4_string: Option<String>,
    pub value_fragment_4_integer: Option<i64>,
    pub value_fragment_5_string: Option<String>,
    pub value_fragment_5_integer: Option<i64>,
    pub value_fragment_6_string: Option<String>,
    pub value_fragment_6_integer: Option<i64>,
    pub value_fragment_7_string: Option<String>,
    pub value_fragment_7_integer: Option<i64>,
    pub value_fragment_8_string: Option<String>,
    pub value_fragment_8_integer: Option<i64>,
    pub value_fragment_9_string: Option<String>,
    pub value_fragment_9_integer: Option<i64>,
    pub value_fragment_10_string: Option<String>,
    pub value_fragment_10_integer: Option<i64>,
}

/// A row carries exactly one value when at least one of its four typed
/// value columns is non-null (the query path never returns tombstones).
pub open spec fn has_value(row: DataEntry) -> bool {
    row.value_binary is Some || row.value_bool is Some || row.value_integer is Some
        || row.value_string is Some
}

/// The stored key-fragment column pair at a position.
pub open spec fn frag_pair(row: DataEntry, i: int) -> (Option<String>, Option<i64>) {
    if i == 0 {
        (row.fragment_0_string, row.fragment_0_integer)
    } else if i == 1 {
        (row.fragment_1_string, row.fragment_1_integer)
    } else if i == 2 {
        (row.fragment_2_string, row.fragment_2_integer)
    } else if i == 3 {
        (row.fragment_3_string, row.fragment_3_integer)
    } else if i == 4 {
        (row.fragment_4_string, row.fragment_4_integer)
    } else if i == 5 {
        (row.fragment_5_string, row.fragment_5_integer)
    } else if i == 6 {
        (row.fragment_6_string, row.fragment_6_integer)
    } else if i == 7 {
        (row.fragment_7_string, row.fragment_7_integer)
    } else if i == 8 {
        (row.fragment_8_string, row.fragment_8_integer)
    } else if i == 9 {
        (row.fragment_9_string, row.fragment_9_integer)
    } else if i == 10 {
        (row.fragment_10_string, row.fragment_10_integer)
    } else {
        (Option::None, Option::None)
    }
}

/// The stored value-fragment column pair at a position.
pub open spec fn value_frag_pair(row: DataEntry, i: int) -> (Option<String>, Option<i64>) {
    if i == 0 {
        (row.value_fragment_0_string, row.value_fragment_0_integer)
    } else if i == 1 {
        (row.value_fragment_1_string, row.value_fragment_1_integer)
    } else if i == 2 {
        (row.value_fragment_2_string, row.value_fragment_2_integer)
    } else if i == 3 {
        (row.value_fragment_3_string, row.value_fragment_3_integer)
    } else if i == 4 {
        (row.value_fragment_4_string, row.value_fragment_4_integer)
    } else if i == 5 {
        (row.value_fragment_5_string, row.value_fragment_5_integer)
    } else if i == 6 {
        (row.value_fragment_6_string, row.value_fragment_6_integer)
    } else if i == 7 {
        (row.value_fragment_7_string, row.value_fragment_7_integer)
    } else if i == 8 {
        (row.value_fragment_8_string, row.value_fragment_8_integer)
    } else if i == 9 {
        (row.value_fragment_9_string, row.value_fragment_9_integer)
    } else if i == 10 {
        (row.value_fragment_10_string, row.value_fragment_10_integer)
    } else {
        (Option::None, Option::None)
    }
}

/// Reads the key-fragment column pair at a position.
pub fn fragment_pair(row: &DataEntry, i: usize) -> (r: (Option<String>, Option<i64>))
    requires
        i < 11,
    ensures
        r == frag_pair(*row, i as int),
{
    match i {
        0 => (
            match &row.fragment_0_string {
                Option::Some(s) => Option::Some(s.clone()),
                Option::None => Option::None,
            },
            match &row.fragment_0_integer {
                Option::Some(n) => Option::Some(*n),
                Option::None => Option::None,
            },
        ),
        1 => (
            match &row.fragment_1_string {
                Option::Some(s) => Option::Some(s.clone()),
                Option::None => Option::None,
            },
            match &row.fragment_1_integer {
                Option::Some(n) => Option::Some(*n),
                Option::None => Option::None,
            },
        ),
        2 => (
            match &row.fragment_2_string {
                Option::Some(s) => Option::Some(s.clone()),
                Option::None => Option::None,
            },
            match &row.fragment_2_integer {
                Option::Some(n) => Option::Some(*n),
                Option::None => Option::None,
            },
        ),
        3 => (
            match &row.fragment_3_string {
                Option::Some(s) => Option::Some(s.clone()),
                Option::None => Option::None,
            },
            match &row.fragment_3_integer {
                Option::Some(n) => Option::Some(*n),
                Option::None => Option::None,
            },
        ),
        4 => (
            match &row.fragment_4_string {
                Option::Some(s) => Option::Some(s.clone()),
                Option::None => Option::None,
            },
            match &row.fragment_4_integer {
                Option::Some(n) => Option::Some(*n),
                Option::None => Option::None,
            },
        ),
        5 => (
            match &row.fragment_5_string {
                Option::Some(s) => Option::Some(s.clone()),
                Option::None => Option::None,
            },
            match &row.fragment_5_integer {
                Option::Some(n) => Option::Some(*n),
                Option::None => Option::None,
            },
        ),
        6 => (
            match &row.fragment_6_string {
                Option::Some(s) => Option::Some(s.clone()),
                Option::None => Option::None,
            },
            match &row.fragment_6_integer {
                Option::Some(n) => Option::Some(*n),
                Option::None => Option::None,
            },
        ),
        7 => (
            match &row.fragment_7_string {
                Option::Some(s) => Option::Some(s.clone()),
                Option::None => Option::None,
            },
            match &row.fragment_7_integer {
                Option::Some(n) => Option::Some(*n),
                Option::None => Option::None,
            },
        ),
        8 => (
            match &row.fragment_8_string {
                Option::Some(s) => Option::Some(s.clone()),
                Option::None => Option::None,
            },
            match &row.fragment_8_integer {
                Option::Some(n) => Option::Some(*n),
                Option::None => Option::None,
            },
        ),
        9 => (
            match &row.fragment_9_string {
                Option::Some(s) => Option::Some(s.clone()),
                Option::None => Option::None,
            },
            match &row.fragment_9_integer {
                Option::Some(n) => Option::Some(*n),
                Option::None => Option::None,
            },
        ),
        10 => (
            match &row.fragment_10_string {
                Option::Some(s) => Option::Some(s.clone()),
                Option::None => Option::None,
            },
            match &row.fragment_10_integer {
                Option::Some(n) => Option::Some(*n),
                Option::None => Option::None,
            },
        ),
        _ => (Option::None, Option::None),
    }
}

/// Reads the value-fragment column pair at a position.
pub fn value_fragment_pair(row: &DataEntry, i: usize) -> (r: (Option<String>, Option<i64>))
    requires
        i < 11,
    ensures
        r == value_frag_pair(*row, i as int),
{
    match i {
        0 => (
            match &row.value_fragment_0_string {
                Option::Some(s) => Option::Some(s.clone()),
                Option::None => Option::None,
            },
            match &row.value_fragment_0_integer {
                Option::Some(n) => Option::Some(*n),
                Option::None => Option::None,
            },
        ),
        1 => (
            match &row.value_fragment_1_string {
                Option::Some(s) => Option::Some(s.clone()),
                Option::None => Option::None,
            },
            match &row.value_fragment_1_integer {
                Option::Some(n) => Option::Some(*n),
                Option::None => Option::None,
            },
        ),
        2 => (
            match &row.value_fragment_2_string {
                Option::Some(s) => Option::Some(s.clone()),
                Option::None => Option::None,
            },
            match &row.value_fragment_2_integer {
                Option::Some(n) => Option::Some(*n),
                Option::None => Option::None,
            },
        ),
        3 => (
            match &row.value_fragment_3_string {
                Option::Some(s) => Option::Some(s.clone()),
                Option::None => Option::None,
            },
            match &row.value_fragment_3_integer {
                Option::Some(n) => Option::Some(*n),
                Option::None => Option::None,
            },
        ),
        4 => (
            match &row.value_fragment_4_string {
                Option::Some(s) => Option::Some(s.clone()),
                Option::None => Option::None,
            },
            match &row.value_fragment_4_integer {
                Option::Some(n) => Option::Some(*n),
                Option::None => Option::None,
            },
        ),
        5 => (
            match &row.value_fragment_5_string {
                Option::Some(s) => Option::Some(s.clone()),
                Option::None => Option::None,
            },
            match &row.value_fragment_5_integer {
                Option::Some(n) => Option::Some(*n),
                Option::None => Option::None,
            },
        ),
        6 => (
            match &row.value_fragment_6_string {
                Option::Some(s) => Option::Some(s.clone()),
                Option::None => Option::None,
            },
            match &row.value_fragment_6_integer {
                Option::Some(n) => Option::Some(*n),
                Option::None => Option::None,
            },
        ),
        7 => (
            match &row.value_fragment_7_string {
                Option::Some(s) => Option::Some(s.clone()),
                Option::None => Option::None,
            },
            match &row.value_fragment_7_integer {
                Option::Some(n) => Option::Some(*n),
                Option::None => Option::None,
            },
        ),
        8 => (
            match &row.value_fragment_8_string {
                Option::Some(s) => Option::Some(s.clone()),
                Option::None => Option::None,
            },
            match &row.value_fragment_8_integer {
                Option::Some(n) => Option::Some(*n),
                Option::None => Option::None,
            },
        ),
        9 => (
            match &row.value_fragment_9_string {
                Option::Some(s) => Option::Some(s.clone()),
                Option::None => Option::None,
            },
            match &row.value_fragment_9_integer {
                Option::Some(n) => Option::Some(*n),
                Option::None => Option::None,
            },
        ),
        10 => (
            match &row.value_fragment_10_string {
                Option::Some(s) => Option::Some(s.clone()),
                Option::None => Option::None,
            },
            match &row.value_fragment_10_integer {
                Option::Some(n) => Option::Some(*n),
                Option::None => Option::None,
            },
        ),
        _ => (Option::None, Option::None),
    }
}

/// One row as the ingestion path inserts it.
#[derive(Clone, Debug)]
pub struct InsertableDataEntry {
    pub address: String,
    pub key: String,
    pub height: i32,
    pub value_binary: Option<Vec<u8>>,
    pub value_bool: Option<bool>,
    pub value_integer: Option<i64>,
    pub value_string: Option<String>,
    pub fragment_0_string: Option<String>,
    pub fragment_0_integer: Option<i64>,
    pub fragment_1_string: Option<String>,
    pub fragment_1_integer: Option<i64>,
    pub fragment_2_string: Option<String>,
    pub fragment_2_integer: Option<i64>,
    pub fragment_3_string: Option<String>,
    pub fragment_3_integer: Option<i64>,
    pub fragment_4_string: Option<String>,
    pub fragment_4_integer: Option<i64>,
    pub fragment_5_string: Option<String>,
    pub fragment_5_integer: Option<i64>,
    pub fragment_6_string: Option<String>,
    pub fragment_6_integer: Option<i64>,
    pub fragment_7_string: Option<String>,
    pub fragment_7_integer: Option<i64>,
    pub fragment_8_string: Option<String>,
    pub fragment_8_integer: Option<i64>,
    pub fragment_9_string: Option<String>,
    pub fragment_9_integer: Option<i64>,
    pub fragment_10_string: Option<String>,
    pub fragment_10_integer: Option<i64>,
    pub value_fragment_0_string: Option<String>,
    pub value_fragment_0_integer: Option<i64>,
    pub value_fragment_1_string: Option<String>,
    pub value_fragment_1_integer: Option<i64>,
    pub value_fragment_2_string: Option<String>,
    pub value_fragment_2_integer: Option<i64>,
    pub value_fragment_3_string: Option<String>,
    pub value_fragment_3_integer: Option<i64>,
    pub value_fragment_4_string: Option<String>,
    pub value_fragment_4_integer: Option<i64>,
    pub value_fragment_5_string: Option<String>,
    pub value_fragment_5_integer: Option<i64>,
    pub value_fragment_6_string: Option<String>,
    pub value_fragment_6_integer: Option<i64>,
    pub value_fragment_7_string: Option<String>,
    pub value_fragment_7_integer: Option<i64>,
    pub value_fragment_8_string: Option<String>,
    pub value_fragment_8_integer: Option<i64>,
    pub value_fragment_9_string: Option<String>,
    pub value_fragment_9_integer: Option<i64>,
    pub value_fragment_10_string: Option<String>,
    pub value_fragment_10_integer: Option<i64>,
}

/// Clones a byte vector; vstd's `Vec::clone` specification gives the
/// bytes back element by element.
pub(crate) fn clone_bytes(v: &Vec<u8>) -> (r: Vec<u8>)
    ensures
        r@ == v@,
{
    let r = v.clone();
    proof {
        assert forall|i: int| 0 <= i < v@.len() implies r@[i] == v@[i] by {
            assert(vstd::pervasive::cloned::<u8>(v@[i], r@[i]));
        }
        assert(r@ =~= v@);
    }
    r
}

/// A tombstone the ingestion path records, with the height it occurred at.
#[derive(Clone, Debug)]
pub struct DeletableDataEntryWithHeight {
    pub address: String,
    pub key: String,
    pub height: i32,
}

/// A tombstone as the store applies it.
#[derive(Clone, Debug)]
pub struct DeletableDataEntry {
    pub address: String,
    pub key: String,
}

} // verus!

//! Compilation of a validated filter/sort model into SQL text against the
//! fixed physical schema.
//!
//! Every data literal and every column identifier constructed from
//! user-controlled input is rendered through the escaping of
//! [`crate::escape`]. Binary literals are base64-encoded before quoting and
//! never embedded raw. The exact text of each rendering is pinned down by
//! the spec functions of this module.

use vstd::prelude::*;

use crate::escape::{
    escape_seq, lemma_escape_quote_free, lemma_neutral_concat, lemma_quote_free_neutral,
    lemma_quoted_literal_neutral, pg_escape, quote_free, scan_neutral, sql_text_ok,
};
use crate::model::{
    AddressFilter, AndFilter, Entry, FragmentType, FragmentValueType, InFilter, InFilterValue,
    InItemFilter, KeyFilter, KeyFragmentFilter, MgetEntries, OrFilter, RequestFilter, RequestSort,
    SortItem, SortItemDirection, ToType, ValueData, ValueFilter, ValueFragmentFilter, ValueType,
};
use crate::strfmt::{
    bool_rep, bool_to_string, dec_rep, i64_to_string, int_rep, join_strings, join_with,
    lemma_bool_rep_quote_free, lemma_dec_rep_quote_free, lemma_int_rep_quote_free,
    lemma_quote_free_concat, u64_to_string, views_of,
};

verus! {

/// A rendered WHERE-clause predicate.
pub type SqlWhere = String;

/// A rendered ORDER-BY item list.
pub type SqlSort = String;

/// The base64 text that `base64::encode` produces for the given bytes.
pub uninterp spec fn base64_of(b: Seq<u8>) -> Seq<char>;

/// The 32 lowercase hex digits of the MD5 digest of the given text's bytes.
pub uninterp spec fn md5_hex_of(s: Seq<char>) -> Seq<char>;

/// A character of the standard base64 alphabet, or its padding.
pub open spec fn is_base64_char(c: char) -> bool {
    ('A' <= c && c <= 'Z') || ('a' <= c && c <= 'z') || ('0' <= c && c <= '9') || c == '+' || c
        == '/' || c == '='
}

/// A lowercase hexadecimal digit.
pub open spec fn is_lower_hex_digit(c: char) -> bool {
    ('0' <= c && c <= '9') || ('a' <= c && c <= 'f')
}

/// Relies on base64::encode (standard alphabet, padded): the result depends
/// on the bytes alone and holds only base64 alphabet characters.
#[verifier::external_body]
fn base64_encode(b: &Vec<u8>) -> (r: String)
    ensures
        r@ == base64_of(b@),
        forall|i: int| 0 <= i < r@.len() ==> is_base64_char(#[trigger] r@[i]),
{
    base64::encode(b)
}

/// Relies on md5::compute and the `LowerHex` rendering of its digest: 32
/// lowercase hex digits that depend on the input text alone.
#[verifier::external_body]
fn md5_hex(s: &str) -> (r: String)
    ensures
        r@ == md5_hex_of(s@),
        r@.len() == 32,
        forall|i: int| 0 <= i < r@.len() ==> is_lower_hex_digit(#[trigger] r@[i]),
{
    format!("{:x}", md5::compute(s.as_bytes()))
}

/// Base64 text and hex digits contain nothing the escaping rewrites, so
/// escaping them is the identity.
pub proof fn lemma_escape_identity_on_encodings(t: Seq<char>)
    requires
        forall|i: int|
            0 <= i < t.len() ==> is_base64_char(#[trigger] t[i]) || is_lower_hex_digit(t[i]),
    ensures
        escape_seq(t) == t,
{
    assert forall|i: int| 0 <= i < t.len() implies !(#[trigger] t[i] == '\''
        || crate::escape::is_backslash_escaped(t[i])) by {
        assert(is_base64_char(t[i]) || is_lower_hex_digit(t[i]));
    }
    crate::escape::lemma_escape_seq_identity(t);
}

/// A quoted SQL string literal with the given (already escaped) body.
pub open spec fn quoted(body: Seq<char>) -> Seq<char> {
    "'"@ + body + "'"@
}

/// The SQL comparison operator.
pub open spec fn op_sql(op: Operation) -> Seq<char> {
    match op {
        Operation::Eq => "="@,
        Operation::Gt => ">"@,
        Operation::Gte => ">="@,
        Operation::Lt => "<"@,
        Operation::Lte => "<="@,
    }
}

use crate::model::Operation;

/// The column identifier of a fragment column, passed through the escaping
/// because its position and type come from user input.
pub open spec fn frag_col(prefix: Seq<char>, position: u64, t: FragmentType) -> Seq<char> {
    escape_seq(prefix + dec_rep(position as nat) + "_"@ + t.type_label())
}

/// The SQL literal of a fragment filter value.
pub open spec fn fragment_value_sql(v: FragmentValueType) -> Seq<char> {
    match v {
        FragmentValueType::IntVal(n) => int_rep(n as int),
        FragmentValueType::StringVal(s) => quoted(escape_seq(s@)),
    }
}

/// The SQL literal of an `In` filter value: every row value, whatever its
/// type, is escaped and wrapped in single quotes.
pub open spec fn in_value_sql(v: InFilterValue) -> Seq<char> {
    match v {
        InFilterValue::BinaryVal(b) => quoted(escape_seq(base64_of(b@))),
        InFilterValue::BoolVal(b) => quoted(escape_seq(bool_rep(b))),
        InFilterValue::IntVal(n) => quoted(escape_seq(int_rep(n as int))),
        InFilterValue::StringVal(s) => quoted(escape_seq(s@)),
    }
}

/// The column an `In` property selects.
pub open spec fn in_item_sql(p: InItemFilter) -> Seq<char> {
    match p {
        InItemFilter::Fragment { fragment_type, position } => frag_col(
            "fragment_"@,
            position,
            fragment_type,
        ),
        InItemFilter::Key {  } => "key"@,
        InItemFilter::Value { value_type } => match value_type {
            ValueType::Binary => "value_binary"@,
            ValueType::Bool => "value_bool"@,
            ValueType::Integer => "value_integer"@,
            ValueType::String => "value_string"@,
        },
        InItemFilter::Address {  } => "address"@,
    }
}

/// One row of an `In` filter: its values, parenthesized and comma-joined.
pub open spec fn in_row_sql(row: Seq<InFilterValue>) -> Seq<char> {
    "("@ + join_with(row.map_values(|v: InFilterValue| in_value_sql(v)), ","@) + ")"@
}

/// The whole `In` filter: a multi-column tuple membership predicate, or the
/// always-true predicate when it has no properties or no rows.
pub open spec fn in_sql(f: InFilter) -> Seq<char> {
    if f.properties@.len() > 0 && f.values@.len() > 0 {
        "(("@ + join_with(f.properties@.map_values(|p: InItemFilter| in_item_sql(p)), ","@)
            + ") IN ("@ + join_with(
            f.values@.map_values(|row: Vec<InFilterValue>| in_row_sql(row@)),
            ","@,
        ) + "))"@
    } else {
        "1=1"@
    }
}

/// A key fragment comparison.
pub open spec fn key_fragment_sql(f: KeyFragmentFilter) -> Seq<char> {
    frag_col("fragment_"@, f.position, f.fragment_type) + " "@ + op_sql(f.operation) + " "@
        + fragment_value_sql(f.value)
}

/// A value fragment comparison.
pub open spec fn value_fragment_sql(f: ValueFragmentFilter) -> Seq<char> {
    frag_col("value_fragment_"@, f.position, f.fragment_type) + " "@ + op_sql(f.operation) + " "@
        + fragment_value_sql(f.value)
}

/// A typed value comparison. String and binary comparisons AND a
/// content-hash equality check; boolean comparisons require the column to be
/// non-null; only integer comparisons use the requested operator. The
/// base64 text and the hex digest pass through the escaping like every
/// other literal; on them it is the identity, so the rendering embeds them
/// raw (the rendering function's contract states both forms).
pub open spec fn value_filter_sql(f: ValueFilter) -> Seq<char> {
    match f.value {
        ValueData::Binary(b) => "value_binary = '"@ + escape_seq(base64_of(b@))
            + "' AND md5(value_binary) = md5('"@ + escape_seq(base64_of(b@)) + "')"@,
        ValueData::String(s) => "value_string = '"@ + escape_seq(s@)
            + "' AND md5(value_string) = '"@ + escape_seq(md5_hex_of(s@)) + "'"@,
        ValueData::Bool(b) => "value_bool = "@ + bool_rep(b) + " AND value_bool IS NOT NULL"@,
        ValueData::Integer(n) => "value_integer "@ + op_sql(f.operation) + " "@ + int_rep(n as int),
    }
}

/// The rendered predicate of one filter node.
pub open spec fn filter_sql(f: RequestFilter) -> Seq<char>
    decreases f,
{
    match f {
        RequestFilter::And(a) => if a.0@.len() == 0 {
            "1=1"@
        } else {
            "("@ + join_with(filter_list_sql(a.0@), " AND "@) + ")"@
        },
        RequestFilter::Or(o) => if o.0@.len() == 0 {
            "1=1"@
        } else {
            "("@ + join_with(filter_list_sql(o.0@), " OR "@) + ")"@
        },
        RequestFilter::In(i) => in_sql(i),
        RequestFilter::Fragment(kf) => key_fragment_sql(kf),
        RequestFilter::ValueFragment(vf) => value_fragment_sql(vf),
        RequestFilter::Key(k) => "key = '"@ + escape_seq(k.value@) + "'"@,
        RequestFilter::Value(v) => value_filter_sql(v),
        RequestFilter::Address(a) => "address = '"@ + escape_seq(a.value@) + "'"@,
    }
}

/// The rendered predicates of a list of child filters.
pub open spec fn filter_list_sql(s: Seq<RequestFilter>) -> Seq<Seq<char>>
    decreases s,
{
    if s.len() == 0 {
        Seq::empty()
    } else {
        seq![filter_sql(s[0])] + filter_list_sql(s.skip(1))
    }
}

/// `filter_list_sql` renders each child in place.
pub proof fn lemma_filter_list_sql_index(s: Seq<RequestFilter>)
    ensures
        filter_list_sql(s).len() == s.len(),
        forall|i: int| 0 <= i < s.len() ==> #[trigger] filter_list_sql(s)[i] == filter_sql(s[i]),
    decreases s,
{
    if s.len() > 0 {
        lemma_filter_list_sql_index(s.skip(1));
        assert forall|i: int| 0 <= i < s.len() implies #[trigger] filter_list_sql(s)[i]
            == filter_sql(s[i]) by {
            if i > 0 {
                assert(filter_list_sql(s)[i] == filter_list_sql(s.skip(1))[i - 1]);
                assert(s.skip(1)[i - 1] == s[i]);
            }
        }
    }
}

/// The compiled WHERE clause: the filter's predicate, or the always-true
/// predicate when no filter was requested.
pub open spec fn where_sql(f: Option<RequestFilter>) -> Seq<char> {
    match f {
        Option::None => "1=1"@,
        Option::Some(f) => filter_sql(f),
    }
}

/// The rendered text of one sort item.
pub open spec fn sort_item_sql(it: SortItem) -> Seq<char> {
    match it {
        SortItem::Fragment { position, fragment_type, direction } => frag_col(
            "fragment_"@,
            position,
            fragment_type,
        ) + " "@ + direction_sql(direction),
        SortItem::Key { direction } => "key "@ + direction_sql(direction),
        SortItem::Value { direction } => "value "@ + direction_sql(direction),
        SortItem::Address { direction } => "address "@ + direction_sql(direction),
        SortItem::Base { direction } => "uid "@ + direction_sql(direction),
        SortItem::ValueFragment { position, fragment_type, direction } => frag_col(
            "value_fragment_"@,
            position,
            fragment_type,
        ) + " "@ + direction_sql(direction),
    }
}

/// The rendered sort direction.
pub open spec fn direction_sql(d: SortItemDirection) -> Seq<char> {
    match d {
        SortItemDirection::Asc => "ASC"@,
        SortItemDirection::Desc => "DESC"@,
    }
}

/// The compiled ORDER-BY item list: comma-joined items, the empty string
/// when no sort was requested.
pub open spec fn sort_sql(s: Option<RequestSort>) -> Seq<char> {
    match s {
        Option::None => Seq::empty(),
        Option::Some(s) => join_with(s.0@.map_values(|it: SortItem| sort_item_sql(it)), ","@),
    }
}

/// The batched-lookup predicate over (address, key) pairs.
pub open spec fn mget_where_sql(e: MgetEntries) -> Seq<char> {
    "(address, key) IN ("@ + join_with(
        e.address_key_pairs@.map_values(|p: Entry| pair_sql(p)),
        ","@,
    ) + ")"@
}

/// One quoted (address, key) pair of the batched lookup.
pub open spec fn pair_sql(p: Entry) -> Seq<char> {
    "('"@ + escape_seq(p.address@) + "', '"@ + escape_seq(p.key@) + "')"@
}

/// Compilation is a pure function of the filter: compiling the same filter
/// twice yields byte-identical output.
pub proof fn lemma_compile_where_deterministic(f1: Option<RequestFilter>, f2: Option<RequestFilter>)
    requires
        f1 == f2,
    ensures
        where_sql(f1) == where_sql(f2),
{
}

fn op_to_sql(op: Operation) -> (r: String)
    ensures
        r@ == op_sql(op),
{
    match op {
        Operation::Eq => String::from_str("="),
        Operation::Gt => String::from_str(">"),
        Operation::Gte => String::from_str(">="),
        Operation::Lt => String::from_str("<"),
        Operation::Lte => String::from_str("<="),
    }
}

fn fragment_column(prefix: &str, position: u64, t: &FragmentType) -> (r: String)
    ensures
        r@ == frag_col(prefix@, position, *t),
{
    let mut name = String::from_str(prefix);
    name.append(u64_to_string(position).as_str());
    name.append("_");
    name.append(t.to_type().as_str());
    let r = pg_escape(name.as_str());
    proof {
        assert(name@ =~= prefix@ + dec_rep(position as nat) + "_"@ + t.type_label());
    }
    r
}

fn fragment_value_to_sql(v: &FragmentValueType) -> (r: String)
    ensures
        r@ == fragment_value_sql(*v),
{
    match v {
        FragmentValueType::IntVal(n) => i64_to_string(*n),
        FragmentValueType::StringVal(s) => {
            let mut r = String::from_str("'");
            r.append(pg_escape(s.as_str()).as_str());
            r.append("'");
            proof {
                assert(r@ =~= quoted(escape_seq(s@)));
            }
            r
        },
    }
}

fn in_value_to_sql(v: &InFilterValue) -> (r: String)
    ensures
        r@ == in_value_sql(*v),
{
    match v {
        InFilterValue::BinaryVal(b) => {
            let enc = base64_encode(b);
            let mut r = String::from_str("'");
            r.append(pg_escape(enc.as_str()).as_str());
            r.append("'");
            proof {
                assert(r@ =~= quoted(escape_seq(base64_of(b@))));
            }
            r
        },
        InFilterValue::BoolVal(b) => {
            let mut r = String::from_str("'");
            r.append(pg_escape(bool_to_string(*b).as_str()).as_str());
            r.append("'");
            proof {
                assert(r@ =~= quoted(escape_seq(bool_rep(*b))));
            }
            r
        },
        InFilterValue::IntVal(n) => {
            let mut r = String::from_str("'");
            r.append(pg_escape(i64_to_string(*n).as_str()).as_str());
            r.append("'");
            proof {
                assert(r@ =~= quoted(escape_seq(int_rep(*n as int))));
            }
            r
        },
        InFilterValue::StringVal(s) => {
            let mut r = String::from_str("'");
            r.append(pg_escape(s.as_str()).as_str());
            r.append("'");
            proof {
                assert(r@ =~= quoted(escape_seq(s@)));
            }
            r
        },
    }
}

fn in_item_to_sql(p: &InItemFilter) -> (r: String)
    ensures
        r@ == in_item_sql(*p),
{
    match p {
        InItemFilter::Fragment { fragment_type, position } => fragment_column(
            "fragment_",
            *position,
            fragment_type,
        ),
        InItemFilter::Key {  } => String::from_str("key"),
        InItemFilter::Value { value_type } => match value_type {
            ValueType::Binary => String::from_str("value_binary"),
            ValueType::Bool => String::from_str("value_bool"),
            ValueType::Integer => String::from_str("value_integer"),
            ValueType::String => String::from_str("value_string"),
        },
        InItemFilter::Address {  } => String::from_str("address"),
    }
}

fn in_to_sql(f: &InFilter) -> (r: String)
    ensures
        r@ == in_sql(*f),
{
    if f.properties.len() > 0 && f.values.len() > 0 {
        let mut prop_parts: Vec<String> = Vec::new();
        let np = f.properties.len();
        let mut i: usize = 0;
        while i < np
            invariant
                np == f.properties@.len(),
                i <= np,
                prop_parts@.len() == i,
                forall|j: int|
                    0 <= j < i ==> #[trigger] prop_parts@[j]@ == in_item_sql(f.properties@[j]),
            decreases np - i,
        {
            prop_parts.push(in_item_to_sql(&f.properties[i]));
            i += 1;
        }
        let props = join_strings(&prop_parts, ",");
        proof {
            assert(views_of(prop_parts@) =~= f.properties@.map_values(
                |p: InItemFilter| in_item_sql(p),
            ));
        }
        let mut row_parts: Vec<String> = Vec::new();
        let nr = f.values.len();
        let mut i: usize = 0;
        while i < nr
            invariant
                nr == f.values@.len(),
                i <= nr,
                row_parts@.len() == i,
                forall|j: int|
                    0 <= j < i ==> #[trigger] row_parts@[j]@ == in_row_sql(f.values@[j]@),
            decreases nr - i,
        {
            let row = &f.values[i];
            let mut val_parts: Vec<String> = Vec::new();
            let nv = row.len();
            let mut k: usize = 0;
            while k < nv
                invariant
                    nv == row@.len(),
                    k <= nv,
                    val_parts@.len() == k,
                    forall|j: int|
                        0 <= j < k ==> #[trigger] val_parts@[j]@ == in_value_sql(row@[j]),
                decreases nv - k,
            {
                val_parts.push(in_value_to_sql(&row[k]));
                k += 1;
            }
            let mut row_sql = String::from_str("(");
            row_sql.append(join_strings(&val_parts, ",").as_str());
            row_sql.append(")");
            proof {
                assert(views_of(val_parts@) =~= row@.map_values(
                    |v: InFilterValue| in_value_sql(v),
                ));
                assert(row_sql@ =~= in_row_sql(f.values@[i as int]@));
            }
            row_parts.push(row_sql);
            i += 1;
        }
        let rows = join_strings(&row_parts, ",");
        proof {
            assert(views_of(row_parts@) =~= f.values@.map_values(
                |row: Vec<InFilterValue>| in_row_sql(row@),
            ));
        }
        let mut r = String::from_str("((");
        r.append(props.as_str());
        r.append(") IN (");
        r.append(rows.as_str());
        r.append("))");
        proof {
            assert(r@ =~= in_sql(*f));
        }
        r
    } else {
        String::from_str("1=1")
    }
}

fn value_filter_to_sql(f: &ValueFilter) -> (r: String)
    ensures
        r@ == value_filter_sql(*f),
        f.value matches ValueData::Binary(b) ==> r@ == "value_binary = '"@ + base64_of(b@)
            + "' AND md5(value_binary) = md5('"@ + base64_of(b@) + "')"@,
        f.value matches ValueData::String(s) ==> r@ == "value_string = '"@ + escape_seq(s@)
            + "' AND md5(value_string) = '"@ + md5_hex_of(s@) + "'"@,
{
    match &f.value {
        ValueData::Binary(b) => {
            let enc = base64_encode(b);
            let esc = pg_escape(enc.as_str());
            proof {
                // the escaping is the identity on base64 text, so the
                // compiled bytes embed the encoding raw
                lemma_escape_identity_on_encodings(base64_of(b@));
                assert(esc@ == base64_of(b@));
            }
            let mut r = String::from_str("value_binary = '");
            r.append(esc.as_str());
            r.append("' AND md5(value_binary) = md5('");
            r.append(esc.as_str());
            r.append("')");
            proof {
                assert(r@ =~= value_filter_sql(*f));
            }
            r
        },
        ValueData::String(s) => {
            let digest = md5_hex(s.as_str());
            let digest_esc = pg_escape(digest.as_str());
            proof {
                // the escaping is the identity on hex digits, so the
                // compiled bytes embed the digest raw
                lemma_escape_identity_on_encodings(md5_hex_of(s@));
                assert(digest_esc@ == md5_hex_of(s@));
            }
            let mut r = String::from_str("value_string = '");
            r.append(pg_escape(s.as_str()).as_str());
            r.append("' AND md5(value_string) = '");
            r.append(digest_esc.as_str());
            r.append("'");
            proof {
                assert(r@ =~= value_filter_sql(*f));
            }
            r
        },
        ValueData::Bool(b) => {
            let mut r = String::from_str("value_bool = ");
            r.append(bool_to_string(*b).as_str());
            r.append(" AND value_bool IS NOT NULL");
            proof {
                assert(r@ =~= value_filter_sql(*f));
            }
            r
        },
        ValueData::Integer(n) => {
            let mut r = String::from_str("value_integer ");
            r.append(op_to_sql(f.operation).as_str());
            r.append(" ");
            r.append(i64_to_string(*n).as_str());
            proof {
                assert(r@ =~= value_filter_sql(*f));
            }
            r
        },
    }
}

/// Renders one filter node into its SQL predicate.
#[verifier::loop_isolation(false)]
fn filter_to_sql(f: &RequestFilter) -> (r: String)
    ensures
        r@ == filter_sql(*f),
    decreases *f,
{
    match f {
        RequestFilter::And(a) => {
            if a.0.len() == 0 {
                String::from_str("1=1")
            } else {
                let mut parts: Vec<String> = Vec::new();
                let n = a.0.len();
                let mut i: usize = 0;
                while i < n
                    invariant
                        n == a.0@.len(),
                        i <= n,
                        parts@.len() == i,
                        forall|j: int|
                            0 <= j < i ==> #[trigger] parts@[j]@ == filter_sql(a.0@[j]),
                    decreases n - i,
                {
                    proof {
                        assert(decreases_to!(*f => (*f)->And_0));
                        assert(decreases_to!(*a => a.0));
                        assert(decreases_to!(a.0 => a.0@));
                        assert(decreases_to!(a.0@ => a.0@[i as int]));
                    }
                    parts.push(filter_to_sql(&a.0[i]));
                    i += 1;
                }
                let mut r = String::from_str("(");
                r.append(join_strings(&parts, " AND ").as_str());
                r.append(")");
                proof {
                    lemma_filter_list_sql_index(a.0@);
                    assert(views_of(parts@) =~= filter_list_sql(a.0@));
                    assert(r@ =~= filter_sql(*f));
                }
                r
            }
        },
        RequestFilter::Or(o) => {
            if o.0.len() == 0 {
                String::from_str("1=1")
            } else {
                let mut parts: Vec<String> = Vec::new();
                let n = o.0.len();
                let mut i: usize = 0;
                while i < n
                    invariant
                        n == o.0@.len(),
                        i <= n,
                        parts@.len() == i,
                        forall|j: int|
                            0 <= j < i ==> #[trigger] parts@[j]@ == filter_sql(o.0@[j]),
                    decreases n - i,
                {
                    proof {
                        assert(decreases_to!(*f => (*f)->Or_0));
                        assert(decreases_to!(*o => o.0));
                        assert(decreases_to!(o.0 => o.0@));
                        assert(decreases_to!(o.0@ => o.0@[i as int]));
                    }
                    parts.push(filter_to_sql(&o.0[i]));
                    i += 1;
                }
                let mut r = String::from_str("(");
                r.append(join_strings(&parts, " OR ").as_str());
                r.append(")");
                proof {
                    lemma_filter_list_sql_index(o.0@);
                    assert(views_of(parts@) =~= filter_list_sql(o.0@));
                    assert(r@ =~= filter_sql(*f));
                }
                r
            }
        },
        RequestFilter::In(i) => in_to_sql(i),
        RequestFilter::Fragment(kf) => {
            let mut r = fragment_column("fragment_", kf.position, &kf.fragment_type);
            r.append(" ");
            r.append(op_to_sql(kf.operation).as_str());
            r.append(" ");
            r.append(fragment_value_to_sql(&kf.value).as_str());
            proof {
                assert(r@ =~= filter_sql(*f));
            }
            r
        },
        RequestFilter::ValueFragment(vf) => {
            let mut r = fragment_column("value_fragment_", vf.position, &vf.fragment_type);
            r.append(" ");
            r.append(op_to_sql(vf.operation).as_str());
            r.append(" ");
            r.append(fragment_value_to_sql(&vf.value).as_str());
            proof {
                assert(r@ =~= filter_sql(*f));
            }
            r
        },
        RequestFilter::Key(k) => {
            let mut r = String::from_str("key = '");
            r.append(pg_escape(k.value.as_str()).as_str());
            r.append("'");
            proof {
                assert(r@ =~= filter_sql(*f));
            }
            r
        },
        RequestFilter::Value(v) => value_filter_to_sql(v),
        RequestFilter::Address(a) => {
            let mut r = String::from_str("address = '");
            r.append(pg_escape(a.value.as_str()).as_str());
            r.append("'");
            proof {
                assert(r@ =~= filter_sql(*f));
            }
            r
        },
    }
}

/// Compiles an optional filter tree into a WHERE-clause predicate. An absent
/// filter compiles to the always-true predicate. The compiled text scans
/// cleanly: no literal in it terminates early or runs off the end.
pub fn compile_where(filter: &Option<RequestFilter>) -> (r: SqlWhere)
    ensures
        r@ == where_sql(*filter),
        sql_text_ok(r@),
{
    proof {
        lemma_compile_where_quotes_safe(*filter);
    }
    match filter {
        Option::None => String::from_str("1=1"),
        Option::Some(f) => filter_to_sql(f),
    }
}

fn sort_item_to_sql(it: &SortItem) -> (r: String)
    ensures
        r@ == sort_item_sql(*it),
{
    match it {
        SortItem::Fragment { position, fragment_type, direction } => {
            let mut r = fragment_column("fragment_", *position, fragment_type);
            r.append(" ");
            r.append(direction_to_sql(direction).as_str());
            proof {
                assert(r@ =~= sort_item_sql(*it));
            }
            r
        },
        SortItem::Key { direction } => {
            let mut r = String::from_str("key ");
            r.append(direction_to_sql(direction).as_str());
            proof {
                assert(r@ =~= sort_item_sql(*it));
            }
            r
        },
        SortItem::Value { direction } => {
            let mut r = String::from_str("value ");
            r.append(direction_to_sql(direction).as_str());
            proof {
                assert(r@ =~= sort_item_sql(*it));
            }
            r
        },
        SortItem::Address { direction } => {
            let mut r = String::from_str("address ");
            r.append(direction_to_sql(direction).as_str());
            proof {
                assert(r@ =~= sort_item_sql(*it));
            }
            r
        },
        SortItem::Base { direction } => {
            let mut r = String::from_str("uid ");
            r.append(direction_to_sql(direction).as_str());
            proof {
                assert(r@ =~= sort_item_sql(*it));
            }
            r
        },
        SortItem::ValueFragment { position, fragment_type, direction } => {
            let mut r = fragment_column("value_fragment_", *position, fragment_type);
            r.append(" ");
            r.append(direction_to_sql(direction).as_str());
            proof {
                assert(r@ =~= sort_item_sql(*it));
            }
            r
        },
    }
}

fn direction_to_sql(d: &SortItemDirection) -> (r: String)
    ensures
        r@ == direction_sql(*d),
{
    match d {
        SortItemDirection::Asc => String::from_str("ASC"),
        SortItemDirection::Desc => String::from_str("DESC"),
    }
}

/// Compiles an optional sort list into an ORDER-BY item list. An absent or
/// empty sort compiles to the empty string.
pub fn compile_sort(sort: &Option<RequestSort>) -> (r: SqlSort)
    ensures
        r@ == sort_sql(*sort),
{
    match sort {
        Option::None => String::new(),
        Option::Some(s) => {
            let mut parts: Vec<String> = Vec::new();
            let n = s.0.len();
            let mut i: usize = 0;
            while i < n
                invariant
                    n == s.0@.len(),
                    i <= n,
                    parts@.len() == i,
                    forall|j: int|
                        0 <= j < i ==> #[trigger] parts@[j]@ == sort_item_sql(s.0@[j]),
                decreases n - i,
            {
                parts.push(sort_item_to_sql(&s.0[i]));
                i += 1;
            }
            let r = join_strings(&parts, ",");
            proof {
                assert(views_of(parts@) =~= s.0@.map_values(|it: SortItem| sort_item_sql(it)));
            }
            r
        },
    }
}

/// Renders the batched-lookup predicate over (address, key) pairs.
pub fn mget_where(e: &MgetEntries) -> (r: SqlWhere)
    ensures
        r@ == mget_where_sql(*e),
{
    let mut parts: Vec<String> = Vec::new();
    let n = e.address_key_pairs.len();
    let mut i: usize = 0;
    while i < n
        invariant
            n == e.address_key_pairs@.len(),
            i <= n,
            parts@.len() == i,
            forall|j: int|
                0 <= j < i ==> #[trigger] parts@[j]@ == pair_sql(e.address_key_pairs@[j]),
        decreases n - i,
    {
        let p = &e.address_key_pairs[i];
        let mut part = String::from_str("('");
        part.append(pg_escape(p.address.as_str()).as_str());
        part.append("', '");
        part.append(pg_escape(p.key.as_str()).as_str());
        part.append("')");
        proof {
            assert(part@ =~= pair_sql(e.address_key_pairs@[i as int]));
        }
        parts.push(part);
        i += 1;
    }
    let mut r = String::from_str("(address, key) IN (");
    r.append(join_strings(&parts, ",").as_str());
    r.append(")");
    proof {
        assert(views_of(parts@) =~= e.address_key_pairs@.map_values(|p: Entry| pair_sql(p)));
        assert(r@ =~= mget_where_sql(*e));
    }
    r
}


// ---------------------------------------------------------------------
// Quote safety of the compiled text.
//
// The lemmas below prove that for every filter tree the compiled WHERE
// predicate scans cleanly: every single quote in it opens a literal that a
// SQL string tokenizer finds properly escaped and properly terminated, so
// no literal ever terminates early or runs off the end of the text.
// ---------------------------------------------------------------------

/// Scan-neutral text scans cleanly on its own.
proof fn lemma_neutral_ok(x: Seq<char>)
    requires
        scan_neutral(x),
    ensures
        sql_text_ok(x),
{
    assert(sql_text_ok(x + Seq::<char>::empty()) == sql_text_ok(Seq::<char>::empty()));
    assert(x + Seq::<char>::empty() =~= x);
}

/// A join of scan-neutral parts with a scan-neutral separator is
/// scan-neutral.
proof fn lemma_join_all_neutral(parts: Seq<Seq<char>>, sep: Seq<char>)
    requires
        scan_neutral(sep),
        forall|i: int| 0 <= i < parts.len() ==> scan_neutral(#[trigger] parts[i]),
    ensures
        scan_neutral(join_with(parts, sep)),
    decreases parts.len(),
{
    if parts.len() == 0 {
        assert(quote_free(Seq::<char>::empty()));
        lemma_quote_free_neutral(Seq::<char>::empty());
    } else if parts.len() == 1 {
        assert(join_with(parts, sep) == parts[0]);
    } else {
        assert forall|i: int| 0 <= i < parts.skip(1).len() implies scan_neutral(
            #[trigger] parts.skip(1)[i],
        ) by {
            assert(parts.skip(1)[i] == parts[i + 1]);
        }
        lemma_join_all_neutral(parts.skip(1), sep);
        lemma_neutral_concat(parts[0], sep);
        lemma_neutral_concat(parts[0] + sep, join_with(parts.skip(1), sep));
    }
}

/// A quoted, escaped literal rendering is scan-neutral.
proof fn lemma_quoted_escaped_neutral(x: Seq<char>)
    ensures
        scan_neutral(quoted(escape_seq(x))),
{
    reveal_strlit("'");
    assert(("'")@ =~= seq!['\'']);
    lemma_quoted_literal_neutral(x);
    assert(quoted(escape_seq(x)) =~= seq!['\''] + (escape_seq(x) + seq!['\'']));
}

/// A comparison operator rendering holds no quote.
proof fn lemma_op_quote_free(op: Operation)
    ensures
        quote_free(op_sql(op)),
{
    match op {
        Operation::Eq => {
        reveal_strlit("=");
        assert(("=")@ =~= seq!['=']);
        assert(quote_free(("=")@));
        },
        Operation::Gt => {
        reveal_strlit(">");
        assert((">")@ =~= seq!['>']);
        assert(quote_free((">")@));
        },
        Operation::Gte => {
        reveal_strlit(">=");
        assert((">=")@ =~= seq!['>', '=']);
        assert(quote_free((">=")@));
        },
        Operation::Lt => {
        reveal_strlit("<");
        assert(("<")@ =~= seq!['<']);
        assert(quote_free(("<")@));
        },
        Operation::Lte => {
        reveal_strlit("<=");
        assert(("<=")@ =~= seq!['<', '=']);
        assert(quote_free(("<=")@));
        },
    }
}

/// A fragment column identifier built from a quote-free prefix holds no
/// quote.
proof fn lemma_frag_col_quote_free(prefix: Seq<char>, position: u64, t: FragmentType)
    requires
        quote_free(prefix),
    ensures
        quote_free(frag_col(prefix, position, t)),
{
    lemma_dec_rep_quote_free(position as nat);
    reveal_strlit("_");
    assert(("_")@ =~= seq!['_']);
    assert(quote_free(("_")@));
    match t {
        FragmentType::String => {
        reveal_strlit("string");
        assert(("string")@ =~= seq!['s', 't', 'r', 'i', 'n', 'g']);
        assert(quote_free(("string")@));
        },
        FragmentType::Integer => {
        reveal_strlit("integer");
        assert(("integer")@ =~= seq!['i', 'n', 't', 'e', 'g', 'e', 'r']);
        assert(quote_free(("integer")@));
        },
    }
    lemma_quote_free_concat(prefix, dec_rep(position as nat));
    lemma_quote_free_concat(prefix + dec_rep(position as nat), ("_")@);
    lemma_quote_free_concat(prefix + dec_rep(position as nat) + ("_")@, t.type_label());
    lemma_escape_quote_free(prefix + dec_rep(position as nat) + ("_")@ + t.type_label());
}

/// A fragment filter value rendering is scan-neutral.
proof fn lemma_fragment_value_neutral(v: FragmentValueType)
    ensures
        scan_neutral(fragment_value_sql(v)),
{
    match v {
        FragmentValueType::IntVal(n) => {
            lemma_int_rep_quote_free(n as int);
            lemma_quote_free_neutral(int_rep(n as int));
        },
        FragmentValueType::StringVal(s) => {
            lemma_quoted_escaped_neutral(s@);
        },
    }
}

/// An `In` filter value rendering is scan-neutral.
proof fn lemma_in_value_neutral(v: InFilterValue)
    ensures
        scan_neutral(in_value_sql(v)),
{
    match v {
        InFilterValue::BinaryVal(b) => {
            lemma_quoted_escaped_neutral(base64_of(b@));
        },
        InFilterValue::BoolVal(b) => {
            lemma_quoted_escaped_neutral(bool_rep(b));
        },
        InFilterValue::IntVal(n) => {
            lemma_quoted_escaped_neutral(int_rep(n as int));
        },
        InFilterValue::StringVal(s) => {
            lemma_quoted_escaped_neutral(s@);
        },
    }
}

/// An `In` property rendering is scan-neutral.
proof fn lemma_in_item_neutral(p: InItemFilter)
    ensures
        scan_neutral(in_item_sql(p)),
{
    match p {
        InItemFilter::Fragment { fragment_type, position } => {
            reveal_strlit("fragment_");
            assert(("fragment_")@ =~= seq!['f', 'r', 'a', 'g', 'm', 'e', 'n', 't', '_']);
            assert(quote_free(("fragment_")@));
            lemma_frag_col_quote_free(("fragment_")@, position, fragment_type);
            lemma_quote_free_neutral(frag_col(("fragment_")@, position, fragment_type));
        },
        InItemFilter::Key {  } => {
            reveal_strlit("key");
            assert(("key")@ =~= seq!['k', 'e', 'y']);
            assert(quote_free(("key")@));
            lemma_quote_free_neutral(("key")@);
        },
        InItemFilter::Value { value_type } => {
            match value_type {
                ValueType::Binary => {
                    reveal_strlit("value_binary");
                    assert(("value_binary")@ =~= seq!['v', 'a', 'l', 'u', 'e', '_', 'b', 'i', 'n', 'a', 'r', 'y']);
                    assert(quote_free(("value_binary")@));
                    lemma_quote_free_neutral(("value_binary")@);
                },
                ValueType::Bool => {
                    reveal_strlit("value_bool");
                    assert(("value_bool")@ =~= seq!['v', 'a', 'l', 'u', 'e', '_', 'b', 'o', 'o', 'l']);
                    assert(quote_free(("value_bool")@));
                    lemma_quote_free_neutral(("value_bool")@);
                },
                ValueType::Integer => {
                    reveal_strlit("value_integer");
                    assert(("value_integer")@ =~= seq!['v', 'a', 'l', 'u', 'e', '_', 'i', 'n', 't', 'e', 'g', 'e', 'r']);
                    assert(quote_free(("value_integer")@));
                    lemma_quote_free_neutral(("value_integer")@);
                },
                ValueType::String => {
                    reveal_strlit("value_string");
                    assert(("value_string")@ =~= seq!['v', 'a', 'l', 'u', 'e', '_', 's', 't', 'r', 'i', 'n', 'g']);
                    assert(quote_free(("value_string")@));
                    lemma_quote_free_neutral(("value_string")@);
                },
            }
        },
        InItemFilter::Address {  } => {
            reveal_strlit("address");
            assert(("address")@ =~= seq!['a', 'd', 'd', 'r', 'e', 's', 's']);
            assert(quote_free(("address")@));
            lemma_quote_free_neutral(("address")@);
        },
    }
}

/// An `In` filter rendering is scan-neutral.
proof fn lemma_in_sql_neutral(f: InFilter)
    ensures
        scan_neutral(in_sql(f)),
{
    if f.properties@.len() > 0 && f.values@.len() > 0 {
        let props = f.properties@.map_values(|p: InItemFilter| in_item_sql(p));
        let rows = f.values@.map_values(|row: Vec<InFilterValue>| in_row_sql(row@));
        reveal_strlit(",");
        assert((",")@ =~= seq![',']);
        assert(quote_free((",")@));
        lemma_quote_free_neutral((",")@);
        assert forall|i: int| 0 <= i < props.len() implies scan_neutral(#[trigger] props[i]) by {
            lemma_in_item_neutral(f.properties@[i]);
        }
        lemma_join_all_neutral(props, (",")@);
        assert forall|i: int| 0 <= i < rows.len() implies scan_neutral(#[trigger] rows[i]) by {
            let row = f.values@[i]@;
            let vals = row.map_values(|v: InFilterValue| in_value_sql(v));
            assert forall|k: int| 0 <= k < vals.len() implies scan_neutral(
                #[trigger] vals[k],
            ) by {
                lemma_in_value_neutral(row[k]);
            }
            lemma_join_all_neutral(vals, (",")@);
            reveal_strlit("(");
            assert(("(")@ =~= seq!['(']);
            assert(quote_free(("(")@));
            lemma_quote_free_neutral(("(")@);
            reveal_strlit(")");
            assert((")")@ =~= seq![')']);
            assert(quote_free((")")@));
            lemma_quote_free_neutral((")")@);
            lemma_neutral_concat(("(")@, join_with(vals, (",")@));
            lemma_neutral_concat(("(")@ + join_with(vals, (",")@), (")")@);
        }
        lemma_join_all_neutral(rows, (",")@);
        reveal_strlit("((");
        assert(("((")@ =~= seq!['(', '(']);
        assert(quote_free(("((")@));
        lemma_quote_free_neutral(("((")@);
        reveal_strlit(") IN (");
        assert((") IN (")@ =~= seq![')', ' ', 'I', 'N', ' ', '(']);
        assert(quote_free((") IN (")@));
        lemma_quote_free_neutral((") IN (")@);
        reveal_strlit("))");
        assert(("))")@ =~= seq![')', ')']);
        assert(quote_free(("))")@));
        lemma_quote_free_neutral(("))")@);
        lemma_neutral_concat(("((")@, join_with(props, (",")@));
        lemma_neutral_concat(("((")@ + join_with(props, (",")@), (") IN (")@);
        lemma_neutral_concat(
            ("((")@ + join_with(props, (",")@) + (") IN (")@,
            join_with(rows, (",")@),
        );
        lemma_neutral_concat(
            ("((")@ + join_with(props, (",")@) + (") IN (")@ + join_with(rows, (",")@),
            ("))")@,
        );
    } else {
        reveal_strlit("1=1");
        assert(("1=1")@ =~= seq!['1', '=', '1']);
        assert(quote_free(("1=1")@));
        lemma_quote_free_neutral(("1=1")@);
    }
}

/// A value filter rendering is scan-neutral.
proof fn lemma_value_filter_neutral(f: ValueFilter)
    ensures
        scan_neutral(value_filter_sql(f)),
{
    reveal_strlit("'");
    assert(("'")@ =~= seq!['\'']);
    match f.value {
        ValueData::Binary(b) => {
            let e = escape_seq(base64_of(b@));
            let ql = seq!['\''] + (e + seq!['\'']);
            reveal_strlit("value_binary = '");
            assert(("value_binary = '")@ =~= seq!['v', 'a', 'l', 'u', 'e', '_', 'b', 'i', 'n', 'a', 'r', 'y', ' ', '=', ' ', '\'']);
            reveal_strlit("' AND md5(value_binary) = md5('");
            assert(("' AND md5(value_binary) = md5('")@ =~= seq!['\'', ' ', 'A', 'N', 'D', ' ', 'm', 'd', '5', '(', 'v', 'a', 'l', 'u', 'e', '_', 'b', 'i', 'n', 'a', 'r', 'y', ')', ' ', '=', ' ', 'm', 'd', '5', '(', '\'']);
            reveal_strlit("')");
            assert(("')")@ =~= seq!['\'', ')']);
            reveal_strlit("value_binary = ");
            assert(("value_binary = ")@ =~= seq!['v', 'a', 'l', 'u', 'e', '_', 'b', 'i', 'n', 'a', 'r', 'y', ' ', '=', ' ']);
            assert(quote_free(("value_binary = ")@));

            reveal_strlit(" AND md5(value_binary) = md5(");
            assert((" AND md5(value_binary) = md5(")@ =~= seq![' ', 'A', 'N', 'D', ' ', 'm', 'd', '5', '(', 'v', 'a', 'l', 'u', 'e', '_', 'b', 'i', 'n', 'a', 'r', 'y', ')', ' ', '=', ' ', 'm', 'd', '5', '(']);
            assert(quote_free((" AND md5(value_binary) = md5(")@));

            reveal_strlit(")");
            assert((")")@ =~= seq![')']);
            assert(quote_free((")")@));
            lemma_quoted_literal_neutral(base64_of(b@));
            lemma_quote_free_neutral((")")@);
            lemma_quote_free_neutral((" AND md5(value_binary) = md5(")@);
            lemma_quote_free_neutral(("value_binary = ")@);
            lemma_neutral_concat(ql, (")")@);
            lemma_neutral_concat((" AND md5(value_binary) = md5(")@, ql + (")")@);
            lemma_neutral_concat(ql, (" AND md5(value_binary) = md5(")@ + (ql + (")")@));
            lemma_neutral_concat(
                ("value_binary = ")@,
                ql + ((" AND md5(value_binary) = md5(")@ + (ql + (")")@)),
            );
            assert(value_filter_sql(f) =~= ("value_binary = ")@ + (ql + ((
            " AND md5(value_binary) = md5(")@ + (ql + (")")@))));
        },
        ValueData::String(s) => {
            let e = escape_seq(s@);
            let ql = seq!['\''] + (e + seq!['\'']);
            let eh = escape_seq(md5_hex_of(s@));
            let qh = seq!['\''] + (eh + seq!['\'']);
            reveal_strlit("value_string = '");
            assert(("value_string = '")@ =~= seq!['v', 'a', 'l', 'u', 'e', '_', 's', 't', 'r', 'i', 'n', 'g', ' ', '=', ' ', '\'']);
            reveal_strlit("' AND md5(value_string) = '");
            assert(("' AND md5(value_string) = '")@ =~= seq!['\'', ' ', 'A', 'N', 'D', ' ', 'm', 'd', '5', '(', 'v', 'a', 'l', 'u', 'e', '_', 's', 't', 'r', 'i', 'n', 'g', ')', ' ', '=', ' ', '\'']);
            reveal_strlit("value_string = ");
            assert(("value_string = ")@ =~= seq!['v', 'a', 'l', 'u', 'e', '_', 's', 't', 'r', 'i', 'n', 'g', ' ', '=', ' ']);
            assert(quote_free(("value_string = ")@));

            reveal_strlit(" AND md5(value_string) = ");
            assert((" AND md5(value_string) = ")@ =~= seq![' ', 'A', 'N', 'D', ' ', 'm', 'd', '5', '(', 'v', 'a', 'l', 'u', 'e', '_', 's', 't', 'r', 'i', 'n', 'g', ')', ' ', '=', ' ']);
            assert(quote_free((" AND md5(value_string) = ")@));
            lemma_quoted_literal_neutral(s@);
            lemma_quoted_literal_neutral(md5_hex_of(s@));
            lemma_quote_free_neutral((" AND md5(value_string) = ")@);
            lemma_quote_free_neutral(("value_string = ")@);
            lemma_neutral_concat((" AND md5(value_string) = ")@, qh);
            lemma_neutral_concat(ql, (" AND md5(value_string) = ")@ + qh);
            lemma_neutral_concat(("value_string = ")@, ql + ((" AND md5(value_string) = ")@ + qh));
            assert(value_filter_sql(f) =~= ("value_string = ")@ + (ql + ((
            " AND md5(value_string) = ")@ + qh)));
        },
        ValueData::Bool(b) => {
            reveal_strlit("value_bool = ");
            assert(("value_bool = ")@ =~= seq!['v', 'a', 'l', 'u', 'e', '_', 'b', 'o', 'o', 'l', ' ', '=', ' ']);
            assert(quote_free(("value_bool = ")@));

            reveal_strlit(" AND value_bool IS NOT NULL");
            assert((" AND value_bool IS NOT NULL")@ =~= seq![' ', 'A', 'N', 'D', ' ', 'v', 'a', 'l', 'u', 'e', '_', 'b', 'o', 'o', 'l', ' ', 'I', 'S', ' ', 'N', 'O', 'T', ' ', 'N', 'U', 'L', 'L']);
            assert(quote_free((" AND value_bool IS NOT NULL")@));
            lemma_bool_rep_quote_free(b);
            lemma_quote_free_concat(("value_bool = ")@, bool_rep(b));
            lemma_quote_free_concat(("value_bool = ")@ + bool_rep(b), (" AND value_bool IS NOT NULL")@);
            lemma_quote_free_neutral(value_filter_sql(f));
        },
        ValueData::Integer(n) => {
            reveal_strlit("value_integer ");
            assert(("value_integer ")@ =~= seq!['v', 'a', 'l', 'u', 'e', '_', 'i', 'n', 't', 'e', 'g', 'e', 'r', ' ']);
            assert(quote_free(("value_integer ")@));

            reveal_strlit(" ");
            assert((" ")@ =~= seq![' ']);
            assert(quote_free((" ")@));
            lemma_op_quote_free(f.operation);
            lemma_int_rep_quote_free(n as int);
            lemma_quote_free_concat(("value_integer ")@, op_sql(f.operation));
            lemma_quote_free_concat(("value_integer ")@ + op_sql(f.operation), (" ")@);
            lemma_quote_free_concat(
                ("value_integer ")@ + op_sql(f.operation) + (" ")@,
                int_rep(n as int),
            );
            lemma_quote_free_neutral(value_filter_sql(f));
        },
    }
}

/// Every filter node's rendering is scan-neutral.
proof fn lemma_filter_sql_neutral(f: RequestFilter)
    ensures
        scan_neutral(filter_sql(f)),
    decreases f,
{
    match f {
        RequestFilter::And(a) => {
            if a.0@.len() == 0 {
                reveal_strlit("1=1");
                assert(("1=1")@ =~= seq!['1', '=', '1']);
                assert(quote_free(("1=1")@));
                lemma_quote_free_neutral(("1=1")@);
            } else {
                reveal_strlit(" AND ");
                assert((" AND ")@ =~= seq![' ', 'A', 'N', 'D', ' ']);
                assert(quote_free((" AND ")@));
                lemma_quote_free_neutral((" AND ")@);
                proof_decreases_and(f, a);
                lemma_filter_list_neutral(a.0@, (" AND ")@);
                reveal_strlit("(");
                assert(("(")@ =~= seq!['(']);
                assert(quote_free(("(")@));
                lemma_quote_free_neutral(("(")@);
                reveal_strlit(")");
                assert((")")@ =~= seq![')']);
                assert(quote_free((")")@));
                lemma_quote_free_neutral((")")@);
                lemma_neutral_concat(("(")@, join_with(filter_list_sql(a.0@), (" AND ")@));
                lemma_neutral_concat(
                    ("(")@ + join_with(filter_list_sql(a.0@), (" AND ")@),
                    (")")@,
                );
            }
        },
        RequestFilter::Or(o) => {
            if o.0@.len() == 0 {
                reveal_strlit("1=1");
                assert(("1=1")@ =~= seq!['1', '=', '1']);
                assert(quote_free(("1=1")@));
                lemma_quote_free_neutral(("1=1")@);
            } else {
                reveal_strlit(" OR ");
                assert((" OR ")@ =~= seq![' ', 'O', 'R', ' ']);
                assert(quote_free((" OR ")@));
                lemma_quote_free_neutral((" OR ")@);
                proof_decreases_or(f, o);
                lemma_filter_list_neutral(o.0@, (" OR ")@);
                reveal_strlit("(");
                assert(("(")@ =~= seq!['(']);
                assert(quote_free(("(")@));
                lemma_quote_free_neutral(("(")@);
                reveal_strlit(")");
                assert((")")@ =~= seq![')']);
                assert(quote_free((")")@));
                lemma_quote_free_neutral((")")@);
                lemma_neutral_concat(("(")@, join_with(filter_list_sql(o.0@), (" OR ")@));
                lemma_neutral_concat(
                    ("(")@ + join_with(filter_list_sql(o.0@), (" OR ")@),
                    (")")@,
                );
            }
        },
        RequestFilter::In(i) => {
            lemma_in_sql_neutral(i);
        },
        RequestFilter::Fragment(kf) => {
            reveal_strlit("fragment_");
            assert(("fragment_")@ =~= seq!['f', 'r', 'a', 'g', 'm', 'e', 'n', 't', '_']);
            assert(quote_free(("fragment_")@));

            reveal_strlit(" ");
            assert((" ")@ =~= seq![' ']);
            assert(quote_free((" ")@));
            lemma_frag_col_quote_free(("fragment_")@, kf.position, kf.fragment_type);
            lemma_quote_free_neutral(frag_col(("fragment_")@, kf.position, kf.fragment_type));
            lemma_op_quote_free(kf.operation);
            lemma_quote_free_neutral(op_sql(kf.operation));
            lemma_quote_free_neutral((" ")@);
            lemma_fragment_value_neutral(kf.value);
            let fc = frag_col(("fragment_")@, kf.position, kf.fragment_type);
            lemma_neutral_concat(fc, (" ")@);
            lemma_neutral_concat(fc + (" ")@, op_sql(kf.operation));
            lemma_neutral_concat(fc + (" ")@ + op_sql(kf.operation), (" ")@);
            lemma_neutral_concat(
                fc + (" ")@ + op_sql(kf.operation) + (" ")@,
                fragment_value_sql(kf.value),
            );
        },
        RequestFilter::ValueFragment(vf) => {
            reveal_strlit("value_fragment_");
            assert(("value_fragment_")@ =~= seq!['v', 'a', 'l', 'u', 'e', '_', 'f', 'r', 'a', 'g', 'm', 'e', 'n', 't', '_']);
            assert(quote_free(("value_fragment_")@));

            reveal_strlit(" ");
            assert((" ")@ =~= seq![' ']);
            assert(quote_free((" ")@));
            lemma_frag_col_quote_free(("value_fragment_")@, vf.position, vf.fragment_type);
            lemma_quote_free_neutral(
                frag_col(("value_fragment_")@, vf.position, vf.fragment_type),
            );
            lemma_op_quote_free(vf.operation);
            lemma_quote_free_neutral(op_sql(vf.operation));
            lemma_quote_free_neutral((" ")@);
            lemma_fragment_value_neutral(vf.value);
            let fc = frag_col(("value_fragment_")@, vf.position, vf.fragment_type);
            lemma_neutral_concat(fc, (" ")@);
            lemma_neutral_concat(fc + (" ")@, op_sql(vf.operation));
            lemma_neutral_concat(fc + (" ")@ + op_sql(vf.operation), (" ")@);
            lemma_neutral_concat(
                fc + (" ")@ + op_sql(vf.operation) + (" ")@,
                fragment_value_sql(vf.value),
            );
        },
        RequestFilter::Key(k) => {
            reveal_strlit("key = '");
            assert(("key = '")@ =~= seq!['k', 'e', 'y', ' ', '=', ' ', '\'']);
            reveal_strlit("'");
            assert(("'")@ =~= seq!['\'']);
            reveal_strlit("key = ");
            assert(("key = ")@ =~= seq!['k', 'e', 'y', ' ', '=', ' ']);
            assert(quote_free(("key = ")@));
            lemma_quoted_literal_neutral(k.value@);
            lemma_quote_free_neutral(("key = ")@);
            let ql = seq!['\''] + (escape_seq(k.value@) + seq!['\'']);
            lemma_neutral_concat(("key = ")@, ql);
            assert(filter_sql(f) =~= ("key = ")@ + ql);
        },
        RequestFilter::Value(v) => {
            lemma_value_filter_neutral(v);
        },
        RequestFilter::Address(a) => {
            reveal_strlit("address = '");
            assert(("address = '")@ =~= seq!['a', 'd', 'd', 'r', 'e', 's', 's', ' ', '=', ' ', '\'']);
            reveal_strlit("'");
            assert(("'")@ =~= seq!['\'']);
            reveal_strlit("address = ");
            assert(("address = ")@ =~= seq!['a', 'd', 'd', 'r', 'e', 's', 's', ' ', '=', ' ']);
            assert(quote_free(("address = ")@));
            lemma_quoted_literal_neutral(a.value@);
            lemma_quote_free_neutral(("address = ")@);
            let ql = seq!['\''] + (escape_seq(a.value@) + seq!['\'']);
            lemma_neutral_concat(("address = ")@, ql);
            assert(filter_sql(f) =~= ("address = ")@ + ql);
        },
    }
}

proof fn proof_decreases_and(f: RequestFilter, a: AndFilter)
    requires
        f == RequestFilter::And(a),
    ensures
        decreases_to!(f => a.0@),
{
    assert(decreases_to!(f => f->And_0));
    assert(decreases_to!(a => a.0));
    assert(decreases_to!(a.0 => a.0@));
}

proof fn proof_decreases_or(f: RequestFilter, o: OrFilter)
    requires
        f == RequestFilter::Or(o),
    ensures
        decreases_to!(f => o.0@),
{
    assert(decreases_to!(f => f->Or_0));
    assert(decreases_to!(o => o.0));
    assert(decreases_to!(o.0 => o.0@));
}

/// The renderings of a list of child filters, joined with a scan-neutral
/// separator, are scan-neutral.
proof fn lemma_filter_list_neutral(s: Seq<RequestFilter>, sep: Seq<char>)
    requires
        scan_neutral(sep),
    ensures
        scan_neutral(join_with(filter_list_sql(s), sep)),
    decreases s,
{
    lemma_filter_list_sql_index(s);
    let parts = filter_list_sql(s);
    assert forall|i: int| 0 <= i < parts.len() implies scan_neutral(#[trigger] parts[i]) by {
        lemma_filter_sql_neutral(s[i]);
    }
    lemma_join_all_neutral(parts, sep);
}

/// For every filter tree, the compiled WHERE predicate contains no
/// unescaped single quote that terminates a literal early: a SQL string
/// tokenizer scans the whole text with every literal properly escaped and
/// properly terminated.
pub proof fn lemma_compile_where_quotes_safe(f: Option<RequestFilter>)
    ensures
        sql_text_ok(where_sql(f)),
{
    match f {
        Option::None => {
            reveal_strlit("1=1");
            assert(("1=1")@ =~= seq!['1', '=', '1']);
            assert(quote_free(("1=1")@));
            lemma_quote_free_neutral(("1=1")@);
            lemma_neutral_ok(("1=1")@);
        },
        Option::Some(f) => {
            lemma_filter_sql_neutral(f);
            lemma_neutral_ok(filter_sql(f));
        },
    }
}

} // verus!

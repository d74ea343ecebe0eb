use state_search::escape::pg_escape;
use state_search::model::{
    AddressFilter, AndFilter, FragmentType, FragmentValueType, InFilter, InFilterValue,
    InItemFilter, KeyFilter, KeyFragmentFilter, MgetEntries, Operation, OrFilter, RequestFilter,
    RequestSort, SortItem, SortItemDirection, ValueData, ValueFilter, ValueType,
};
use state_search::model::Entry;
use state_search::sql::{compile_sort, compile_where, mget_where};

#[test]
fn escape_doubles_single_quotes() {
    assert_eq!(pg_escape("it's"), "it''s");
    assert_eq!(pg_escape("''"), "''''");
}

#[test]
fn escape_backslash_escapes_specials() {
    assert_eq!(pg_escape("a\\b"), "a\\\\b");
    assert_eq!(pg_escape("a b"), "a\\ b");
    assert_eq!(pg_escape("\t"), "\\t");
    assert_eq!(pg_escape("\n"), "\\n");
    assert_eq!(pg_escape("\r"), "\\r");
    assert_eq!(pg_escape("\u{7}"), "\\a");
    assert_eq!(pg_escape("\u{8}"), "\\b");
    assert_eq!(pg_escape("\u{b}"), "\\v");
    assert_eq!(pg_escape("\u{c}"), "\\f");
}

#[test]
fn escape_leaves_other_text_alone() {
    assert_eq!(pg_escape(""), "");
    assert_eq!(pg_escape("plain"), "plain");
    assert_eq!(pg_escape("h\u{e9}llo\u{4e16}\u{754c}"), "h\u{e9}llo\u{4e16}\u{754c}");
}

#[test]
fn escape_mixed_hostile_literal() {
    assert_eq!(pg_escape("'; DROP--"), "'';\\ DROP--");
}

#[test]
fn compile_where_absent_filter_is_always_true() {
    assert_eq!(compile_where(&None), "1=1");
}

#[test]
fn compile_where_address_is_escaped() {
    let f = RequestFilter::Address(AddressFilter { value: "X'".to_string() });
    assert_eq!(compile_where(&Some(f)), "address = 'X'''");
}

#[test]
fn compile_where_key_filter() {
    let f = RequestFilter::Key(KeyFilter { value: "k$1 a".to_string() });
    assert_eq!(compile_where(&Some(f)), "key = 'k$1\\ a'");
}

#[test]
fn compile_where_key_fragment_integer() {
    let f = RequestFilter::Fragment(KeyFragmentFilter {
        fragment_type: FragmentType::Integer,
        position: 0,
        operation: Operation::Eq,
        value: FragmentValueType::IntVal(42),
    });
    assert_eq!(compile_where(&Some(f)), "fragment_0_integer = 42");
}

#[test]
fn compile_where_key_fragment_negative_value() {
    let f = RequestFilter::Fragment(KeyFragmentFilter {
        fragment_type: FragmentType::Integer,
        position: 10,
        operation: Operation::Gte,
        value: FragmentValueType::IntVal(-7),
    });
    assert_eq!(compile_where(&Some(f)), "fragment_10_integer >= -7");
}

#[test]
fn compile_where_value_fragment_string_is_escaped() {
    let f = RequestFilter::ValueFragment(state_search::model::ValueFragmentFilter {
        fragment_type: FragmentType::String,
        position: 1,
        operation: Operation::Eq,
        value: FragmentValueType::StringVal("a'b".to_string()),
    });
    assert_eq!(compile_where(&Some(f)), "value_fragment_1_string = 'a''b'");
}

#[test]
fn compile_where_value_string_adds_md5_check() {
    let f = RequestFilter::Value(ValueFilter {
        value_type: ValueType::String,
        operation: Operation::Eq,
        value: ValueData::String("foo".to_string()),
    });
    assert_eq!(
        compile_where(&Some(f)),
        "value_string = 'foo' AND md5(value_string) = 'acbd18db4cc2f85cedef654fccc4a4d8'"
    );
}

#[test]
fn compile_where_value_binary_is_base64_encoded() {
    let f = RequestFilter::Value(ValueFilter {
        value_type: ValueType::Binary,
        operation: Operation::Eq,
        value: ValueData::Binary(vec![0xDE, 0xAD, 0xBE, 0xEF]),
    });
    assert_eq!(
        compile_where(&Some(f)),
        "value_binary = '3q2+7w==' AND md5(value_binary) = md5('3q2+7w==')"
    );
}

#[test]
fn compile_where_value_bool_requires_non_null() {
    let f = RequestFilter::Value(ValueFilter {
        value_type: ValueType::Bool,
        operation: Operation::Eq,
        value: ValueData::Bool(true),
    });
    assert_eq!(compile_where(&Some(f)), "value_bool = true AND value_bool IS NOT NULL");
}

#[test]
fn compile_where_value_integer_uses_operator() {
    let f = RequestFilter::Value(ValueFilter {
        value_type: ValueType::Integer,
        operation: Operation::Lt,
        value: ValueData::Integer(10),
    });
    assert_eq!(compile_where(&Some(f)), "value_integer < 10");
}

#[test]
fn compile_where_empty_and_or_are_always_true() {
    assert_eq!(compile_where(&Some(RequestFilter::And(AndFilter(vec![])))), "1=1");
    assert_eq!(compile_where(&Some(RequestFilter::Or(OrFilter(vec![])))), "1=1");
}

#[test]
fn compile_where_and_joins_children() {
    let f = RequestFilter::And(AndFilter(vec![
        RequestFilter::Address(AddressFilter { value: "X".to_string() }),
        RequestFilter::Fragment(KeyFragmentFilter {
            fragment_type: FragmentType::Integer,
            position: 0,
            operation: Operation::Eq,
            value: FragmentValueType::IntVal(42),
        }),
    ]));
    assert_eq!(compile_where(&Some(f)), "(address = 'X' AND fragment_0_integer = 42)");
}

#[test]
fn compile_where_or_joins_children() {
    let f = RequestFilter::Or(OrFilter(vec![
        RequestFilter::Key(KeyFilter { value: "a".to_string() }),
        RequestFilter::Key(KeyFilter { value: "b".to_string() }),
    ]));
    assert_eq!(compile_where(&Some(f)), "(key = 'a' OR key = 'b')");
}

#[test]
fn compile_where_in_renders_tuple_membership() {
    let f = RequestFilter::In(InFilter {
        properties: vec![
            InItemFilter::Fragment { fragment_type: FragmentType::Integer, position: 0 },
            InItemFilter::Key {},
        ],
        values: vec![
            vec![InFilterValue::IntVal(5), InFilterValue::StringVal("k1".to_string())],
            vec![InFilterValue::IntVal(6), InFilterValue::StringVal("k2".to_string())],
        ],
    });
    assert_eq!(
        compile_where(&Some(f)),
        "((fragment_0_integer,key) IN (('5','k1'),('6','k2')))"
    );
}

#[test]
fn compile_where_in_quotes_every_row_value() {
    let f = RequestFilter::In(InFilter {
        properties: vec![
            InItemFilter::Value { value_type: ValueType::Bool },
            InItemFilter::Value { value_type: ValueType::Binary },
        ],
        values: vec![vec![
            InFilterValue::BoolVal(true),
            InFilterValue::BinaryVal(vec![0xDE, 0xAD, 0xBE, 0xEF]),
        ]],
    });
    assert_eq!(
        compile_where(&Some(f)),
        "((value_bool,value_binary) IN (('true','3q2+7w==')))"
    );
}

#[test]
fn compile_where_in_without_rows_is_always_true() {
    let f = RequestFilter::In(InFilter {
        properties: vec![InItemFilter::Key {}],
        values: vec![],
    });
    assert_eq!(compile_where(&Some(f)), "1=1");
    let f = RequestFilter::In(InFilter { properties: vec![], values: vec![vec![]] });
    assert_eq!(compile_where(&Some(f)), "1=1");
}

#[test]
fn compile_where_is_idempotent() {
    let f = Some(RequestFilter::And(AndFilter(vec![
        RequestFilter::Address(AddressFilter { value: "X' ".to_string() }),
        RequestFilter::Value(ValueFilter {
            value_type: ValueType::String,
            operation: Operation::Eq,
            value: ValueData::String("v\\'".to_string()),
        }),
    ])));
    let first = compile_where(&f);
    let second = compile_where(&f);
    assert_eq!(first, second);
}

#[test]
fn compile_sort_renders_items() {
    let s = RequestSort(vec![
        SortItem::Fragment {
            position: 0,
            fragment_type: FragmentType::Integer,
            direction: SortItemDirection::Asc,
        },
        SortItem::Base { direction: SortItemDirection::Desc },
    ]);
    assert_eq!(compile_sort(&Some(s)), "fragment_0_integer ASC,uid DESC");
}

#[test]
fn compile_sort_single_items() {
    let key = RequestSort(vec![SortItem::Key { direction: SortItemDirection::Desc }]);
    assert_eq!(compile_sort(&Some(key)), "key DESC");
    let value = RequestSort(vec![SortItem::Value { direction: SortItemDirection::Asc }]);
    assert_eq!(compile_sort(&Some(value)), "value ASC");
    let address = RequestSort(vec![SortItem::Address { direction: SortItemDirection::Asc }]);
    assert_eq!(compile_sort(&Some(address)), "address ASC");
    let vf = RequestSort(vec![SortItem::ValueFragment {
        position: 3,
        fragment_type: FragmentType::String,
        direction: SortItemDirection::Desc,
    }]);
    assert_eq!(compile_sort(&Some(vf)), "value_fragment_3_string DESC");
}

#[test]
fn compile_sort_absent_or_empty_is_empty() {
    assert_eq!(compile_sort(&None), "");
    assert_eq!(compile_sort(&Some(RequestSort(vec![]))), "");
}

#[test]
fn mget_where_renders_escaped_pairs() {
    let e = MgetEntries {
        address_key_pairs: vec![
            Entry { address: "A".to_string(), key: "k'1".to_string() },
            Entry { address: "B b".to_string(), key: "k2".to_string() },
        ],
    };
    assert_eq!(
        mget_where(&e),
        "(address, key) IN (('A', 'k''1'),('B\\ b', 'k2'))"
    );
}

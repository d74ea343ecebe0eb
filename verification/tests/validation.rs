use state_search::errors::AppError;
use state_search::model::{
    FragmentType, FragmentValueType, InFilter, InFilterValue, InItemFilter, KeyFragmentFilter,
    Operation, RequestFilter, SearchRequest, ValueData, ValueFilter, ValueType,
};

fn request_with(filter: Option<RequestFilter>, limit: u64) -> SearchRequest {
    SearchRequest { filter, sort: None, limit, offset: 0 }
}

fn expect_validation_error(r: Result<(), AppError>, parameter: &str, reason: &str) {
    match r {
        Err(AppError::ValidationError(title, code, Some(details))) => {
            assert_eq!(title, "Validation Error");
            assert_eq!(code, 950201);
            assert_eq!(details.parameter, parameter);
            assert_eq!(details.reason, reason);
        }
        other => panic!("expected a validation error, got {:?}", other.is_ok()),
    }
}

#[test]
fn rejects_limit_over_ceiling() {
    let r = request_with(None, 5001).is_valid();
    expect_validation_error(r, "limit", "maximum value 5000 exceeded");
}

#[test]
fn accepts_limit_at_ceiling() {
    assert!(request_with(None, 5000).is_valid().is_ok());
}

#[test]
fn rejects_integer_fragment_with_string_value() {
    let f = RequestFilter::Fragment(KeyFragmentFilter {
        fragment_type: FragmentType::Integer,
        position: 0,
        operation: Operation::Eq,
        value: FragmentValueType::StringVal("abc".to_string()),
    });
    let r = request_with(Some(f), 100).is_valid();
    expect_validation_error(
        r,
        "filter.fragment",
        "`integer` fragment type requires `value` of integer type, found string.",
    );
}

#[test]
fn rejects_string_fragment_with_integer_value() {
    let f = RequestFilter::Fragment(KeyFragmentFilter {
        fragment_type: FragmentType::String,
        position: 0,
        operation: Operation::Eq,
        value: FragmentValueType::IntVal(3),
    });
    let r = request_with(Some(f), 100).is_valid();
    expect_validation_error(
        r,
        "filter.fragment",
        "`string` fragment type requires `value` of string type, found integer.",
    );
}

#[test]
fn rejects_ordering_operator_on_string_fragment() {
    let f = RequestFilter::Fragment(KeyFragmentFilter {
        fragment_type: FragmentType::String,
        position: 0,
        operation: Operation::Gt,
        value: FragmentValueType::StringVal("abc".to_string()),
    });
    let r = request_with(Some(f), 100).is_valid();
    expect_validation_error(
        r,
        "filter.fragment",
        "String value type supports only `eq` operation.",
    );
}

#[test]
fn rejects_fragment_position_out_of_range() {
    let f = RequestFilter::Fragment(KeyFragmentFilter {
        fragment_type: FragmentType::Integer,
        position: 11,
        operation: Operation::Eq,
        value: FragmentValueType::IntVal(1),
    });
    let r = request_with(Some(f), 100).is_valid();
    expect_validation_error(
        r,
        "filter.fragment",
        "`position` out of range, should be less or equal than 10.",
    );
}

#[test]
fn accepts_integer_fragment_with_ordering_operator() {
    let f = RequestFilter::Fragment(KeyFragmentFilter {
        fragment_type: FragmentType::Integer,
        position: 0,
        operation: Operation::Gte,
        value: FragmentValueType::IntVal(5),
    });
    assert!(request_with(Some(f), 100).is_valid().is_ok());
}

#[test]
fn rejects_in_row_of_wrong_length() {
    let f = RequestFilter::In(InFilter {
        properties: vec![
            InItemFilter::Key {},
            InItemFilter::Address {},
        ],
        values: vec![vec![
            InFilterValue::StringVal("a".to_string()),
            InFilterValue::StringVal("b".to_string()),
            InFilterValue::StringVal("c".to_string()),
        ]],
    });
    let r = request_with(Some(f), 100).is_valid();
    expect_validation_error(
        r,
        "filter.in",
        "`values` row length at index 0 is 3, while it should be equal to `properties` count (2).",
    );
}

#[test]
fn rejects_in_value_of_wrong_type() {
    let f = RequestFilter::In(InFilter {
        properties: vec![
            InItemFilter::Key {},
            InItemFilter::Value { value_type: ValueType::Integer },
        ],
        values: vec![vec![
            InFilterValue::StringVal("a".to_string()),
            InFilterValue::BoolVal(true),
        ]],
    });
    let r = request_with(Some(f), 100).is_valid();
    expect_validation_error(
        r,
        "filter.in.values[0][1]",
        "`integer` value type requires `value` of integer type, found bool.",
    );
}

#[test]
fn rejects_in_key_property_with_integer_value() {
    let f = RequestFilter::In(InFilter {
        properties: vec![InItemFilter::Key {}],
        values: vec![vec![InFilterValue::IntVal(9)]],
    });
    let r = request_with(Some(f), 100).is_valid();
    expect_validation_error(
        r,
        "filter.in.values[0][0]",
        "value of key should be string, found integer.",
    );
}

#[test]
fn rejects_in_fragment_position_out_of_range() {
    let f = RequestFilter::In(InFilter {
        properties: vec![InItemFilter::Fragment {
            fragment_type: FragmentType::Integer,
            position: 11,
        }],
        values: vec![vec![InFilterValue::IntVal(1)]],
    });
    let r = request_with(Some(f), 100).is_valid();
    expect_validation_error(
        r,
        "filter.in[0][0]",
        "`position` out of range, should be less or equal than 10.",
    );
}

#[test]
fn rejects_value_of_wrong_type() {
    let f = RequestFilter::Value(ValueFilter {
        value_type: ValueType::String,
        operation: Operation::Eq,
        value: ValueData::Integer(4),
    });
    let r = request_with(Some(f), 100).is_valid();
    expect_validation_error(
        r,
        "filter.value",
        "`string` value type requires `value` of string type, found integer",
    );
}

#[test]
fn rejects_ordering_operator_on_bool_value() {
    let f = RequestFilter::Value(ValueFilter {
        value_type: ValueType::Bool,
        operation: Operation::Gt,
        value: ValueData::Bool(true),
    });
    let r = request_with(Some(f), 100).is_valid();
    expect_validation_error(
        r,
        "filter.value",
        "`bool` value type support only `eq` operation, found gt",
    );
}

#[test]
fn accepts_integer_value_with_ordering_operator() {
    let f = RequestFilter::Value(ValueFilter {
        value_type: ValueType::Integer,
        operation: Operation::Lt,
        value: ValueData::Integer(10),
    });
    assert!(request_with(Some(f), 100).is_valid().is_ok());
}

#[test]
fn first_error_wins_in_sibling_order() {
    let bad_first = RequestFilter::Fragment(KeyFragmentFilter {
        fragment_type: FragmentType::String,
        position: 0,
        operation: Operation::Gt,
        value: FragmentValueType::StringVal("a".to_string()),
    });
    let bad_second = RequestFilter::Value(ValueFilter {
        value_type: ValueType::Bool,
        operation: Operation::Gt,
        value: ValueData::Bool(false),
    });
    let f = RequestFilter::And(state_search::model::AndFilter(vec![bad_first, bad_second]));
    let r = request_with(Some(f), 100).is_valid();
    expect_validation_error(
        r,
        "filter.and[0].fragment",
        "String value type supports only `eq` operation.",
    );
}

#[test]
fn nested_context_paths_accumulate() {
    let inner = RequestFilter::Value(ValueFilter {
        value_type: ValueType::Bool,
        operation: Operation::Gt,
        value: ValueData::Bool(false),
    });
    let f = RequestFilter::And(state_search::model::AndFilter(vec![
        RequestFilter::Key(state_search::model::KeyFilter { value: "k".to_string() }),
        RequestFilter::Or(state_search::model::OrFilter(vec![inner])),
    ]));
    let r = request_with(Some(f), 100).is_valid();
    expect_validation_error(
        r,
        "filter.and[1].or[0].value",
        "`bool` value type support only `eq` operation, found gt",
    );
}

//! The algebraic data types of the filter/sort query language: filter
//! predicates, sort items and typed literals, together with the small
//! naming helpers the validator's diagnostics use.

use vstd::prelude::*;

verus! {

/// The hard ceiling on a search request's `limit`.
pub const LIMIT_MAX: u64 = 5000;

/// A typed literal carried by a key- or value-fragment filter.
#[derive(Clone, Debug)]
pub enum FragmentValueType {
    IntVal(i64),
    StringVal(String),
}

/// A typed literal carried by a row of an `In` filter.
#[derive(Clone, Debug)]
pub enum InFilterValue {
    BinaryVal(Vec<u8>),
    BoolVal(bool),
    IntVal(i64),
    StringVal(String),
}

/// The declared type of a key or value fragment.
#[derive(Clone, Copy, Debug, PartialEq, Eq, Structural)]
pub enum FragmentType {
    String,
    Integer,
}

/// A comparison operator of the query language.
#[derive(Clone, Copy, Debug, PartialEq, Eq, Structural)]
pub enum Operation {
    Eq,
    Gt,
    Gte,
    Lt,
    Lte,
}

/// The declared type of a stored value.
#[derive(Clone, Copy, Debug, PartialEq, Eq, Structural)]
pub enum ValueType {
    String,
    Integer,
    Binary,
    Bool,
}

/// A typed literal carried by a `Value` filter.
#[derive(Clone, Debug)]
pub enum ValueData {
    String(String),
    Binary(Vec<u8>),
    Bool(bool),
    Integer(i64),
}

/// A filter tree over the indexed entries.
pub enum RequestFilter {
    And(AndFilter),
    Or(OrFilter),
    In(InFilter),
    Fragment(KeyFragmentFilter),
    ValueFragment(ValueFragmentFilter),
    Key(KeyFilter),
    Value(ValueFilter),
    Address(AddressFilter),
}

/// Conjunction of child filters.
pub struct AndFilter(pub Vec<RequestFilter>);

/// Disjunction of child filters.
pub struct OrFilter(pub Vec<RequestFilter>);

/// A comparison against one key fragment column.
#[derive(Clone, Debug)]
pub struct KeyFragmentFilter {
    pub fragment_type: FragmentType,
    pub position: u64,
    pub operation: Operation,
    pub value: FragmentValueType,
}

/// A comparison against one value fragment column.
#[derive(Clone, Debug)]
pub struct ValueFragmentFilter {
    pub fragment_type: FragmentType,
    pub position: u64,
    pub operation: Operation,
    pub value: FragmentValueType,
}

/// A column selector inside an `In` filter.
#[derive(Clone, Debug)]
pub enum InItemFilter {
    Fragment { fragment_type: FragmentType, position: u64 },
    Key {},
    Value { value_type: ValueType },
    Address {},
}

/// Multi-column tuple membership.
#[derive(Clone, Debug)]
pub struct InFilter {
    pub properties: Vec<InItemFilter>,
    pub values: Vec<Vec<InFilterValue>>,
}

/// Exact match on the full key string.
#[derive(Clone, Debug)]
pub struct KeyFilter {
    pub value: String,
}

/// A typed comparison against the stored value columns.
#[derive(Clone, Debug)]
pub struct ValueFilter {
    pub value_type: ValueType,
    pub operation: Operation,
    pub value: ValueData,
}

/// Exact match on the address.
#[derive(Clone, Debug)]
pub struct AddressFilter {
    pub value: String,
}

/// The filter keys the query grammar understands.
#[derive(Clone, Copy, Debug, Hash, PartialEq, Eq, Structural)]
pub enum QueryKey {
    AND,
    OR,
    IN,
    FRAGMENT,
    KEY,
    VALUE,
    ADDRESS,
}

/// The sort keys the query grammar understands.
#[derive(Clone, Copy, Debug, Hash, PartialEq, Eq, Structural)]
pub enum QuerySortKey {
    FRAGMENT,
    KEY,
    VALUE,
    ADDRESS,
}

/// A sort direction.
#[derive(Clone, Copy, Debug, PartialEq, Eq, Structural)]
pub enum SortItemDirection {
    Asc,
    Desc,
}

/// One requested ordering over the result set.
#[derive(Clone, Debug)]
pub enum SortItem {
    Fragment { position: u64, fragment_type: FragmentType, direction: SortItemDirection },
    Key { direction: SortItemDirection },
    Value { direction: SortItemDirection },
    Address { direction: SortItemDirection },
    Base { direction: SortItemDirection },
    ValueFragment { position: u64, fragment_type: FragmentType, direction: SortItemDirection },
}

/// The full requested ordering.
#[derive(Clone, Debug)]
pub struct RequestSort(pub Vec<SortItem>);

/// A parsed search request: optional filter and sort, plus pagination.
pub struct SearchRequest {
    pub filter: Option<RequestFilter>,
    pub sort: Option<RequestSort>,
    pub limit: u64,
    pub offset: u64,
}

/// One requested (address, key) pair.
#[derive(Clone, Debug)]
pub struct Entry {
    pub address: String,
    pub key: String,
}

/// A batch lookup request for several (address, key) pairs.
#[derive(Clone, Debug)]
pub struct MgetEntries {
    pub address_key_pairs: Vec<Entry>,
}

/// A batch lookup request for several keys under one address.
#[derive(Clone, Debug)]
pub struct MgetByAddress {
    pub keys: Vec<String>,
}

/// The default `limit` of a search request.
pub fn default_limit() -> (r: u64)
    ensures
        r == 100,
{
    100u64
}

/// The default `offset` of a search request.
pub fn default_offset() -> (r: u64)
    ensures
        r == 0,
{
    0u64
}

impl MgetEntries {
    /// Pairs every key with the one shared address.
    pub fn from_query_by_address(address: String, keys: Vec<String>) -> (r: Self)
        ensures
            r.address_key_pairs@.len() == keys@.len(),
            forall|i: int|
                0 <= i < keys@.len() ==> #[trigger] r.address_key_pairs@[i].address@ == address@
                    && r.address_key_pairs@[i].key@ == keys@[i]@,
    {
        let mut address_key_pairs: Vec<Entry> = Vec::new();
        let n = keys.len();
        let mut i: usize = 0;
        let mut keys = keys;
        // consume the keys front to back, preserving their order
        let ghost orig_keys = keys@;
        while i < n
            invariant
                n == orig_keys.len(),
                i <= n,
                keys@ =~= orig_keys.skip(i as int),
                address_key_pairs@.len() == i,
                forall|j: int|
                    0 <= j < i ==> #[trigger] address_key_pairs@[j].address@ == address@
                        && address_key_pairs@[j].key@ == orig_keys[j]@,
            decreases n - i,
        {
            let key = keys.remove(0);
            assert(key@ == orig_keys[i as int]@);
            address_key_pairs.push(Entry { address: address.clone(), key });
            proof {
                assert(keys@ =~= orig_keys.skip(i + 1));
            }
            i += 1;
        }
        Self { address_key_pairs }
    }
}

/// The textual name of a fragment or value type, as diagnostics print it.
pub trait ToType {
    /// The name as a character sequence.
    spec fn type_label(&self) -> Seq<char>;

    /// Renders the name.
    fn to_type(&self) -> (r: String)
        ensures
            r@ == self.type_label(),
    ;
}

impl ToType for FragmentType {
    open spec fn type_label(&self) -> Seq<char> {
        match self {
            FragmentType::String => "string"@,
            FragmentType::Integer => "integer"@,
        }
    }

    fn to_type(&self) -> (r: String) {
        match self {
            FragmentType::String => String::from_str("string"),
            FragmentType::Integer => String::from_str("integer"),
        }
    }
}

impl ToType for ValueType {
    open spec fn type_label(&self) -> Seq<char> {
        match self {
            ValueType::String => "string"@,
            ValueType::Integer => "integer"@,
            ValueType::Binary => "binary"@,
            ValueType::Bool => "bool"@,
        }
    }

    fn to_type(&self) -> (r: String) {
        match self {
            ValueType::String => String::from_str("string"),
            ValueType::Integer => String::from_str("integer"),
            ValueType::Binary => String::from_str("binary"),
            ValueType::Bool => String::from_str("bool"),
        }
    }
}

impl ToType for InFilterValue {
    open spec fn type_label(&self) -> Seq<char> {
        match self {
            InFilterValue::BinaryVal(_) => "binary"@,
            InFilterValue::BoolVal(_) => "bool"@,
            InFilterValue::IntVal(_) => "integer"@,
            InFilterValue::StringVal(_) => "string"@,
        }
    }

    fn to_type(&self) -> (r: String) {
        match self {
            InFilterValue::BinaryVal(_) => String::from_str("binary"),
            InFilterValue::BoolVal(_) => String::from_str("bool"),
            InFilterValue::IntVal(_) => String::from_str("integer"),
            InFilterValue::StringVal(_) => String::from_str("string"),
        }
    }
}

impl ToType for ValueData {
    open spec fn type_label(&self) -> Seq<char> {
        match self {
            ValueData::String(_) => "string"@,
            ValueData::Binary(_) => "binary"@,
            ValueData::Bool(_) => "bool"@,
            ValueData::Integer(_) => "integer"@,
        }
    }

    fn to_type(&self) -> (r: String) {
        match self {
            ValueData::String(_) => String::from_str("string"),
            ValueData::Binary(_) => String::from_str("binary"),
            ValueData::Bool(_) => String::from_str("bool"),
            ValueData::Integer(_) => String::from_str("integer"),
        }
    }
}

impl ToType for Operation {
    open spec fn type_label(&self) -> Seq<char> {
        match self {
            Operation::Eq => "eq"@,
            Operation::Gt => "gt"@,
            Operation::Gte => "gte"@,
            Operation::Lt => "lt"@,
            Operation::Lte => "lte"@,
        }
    }

    fn to_type(&self) -> (r: String) {
        match self {
            Operation::Eq => String::from_str("eq"),
            Operation::Gt => String::from_str("gt"),
            Operation::Gte => String::from_str("gte"),
            Operation::Lt => String::from_str("lt"),
            Operation::Lte => String::from_str("lte"),
        }
    }
}

impl ToType for InItemFilter {
    open spec fn type_label(&self) -> Seq<char> {
        match self {
            InItemFilter::Fragment { fragment_type, .. } => fragment_type.type_label(),
            InItemFilter::Key {  } => "string"@,
            InItemFilter::Value { value_type } => value_type.type_label(),
            InItemFilter::Address {  } => "string"@,
        }
    }

    fn to_type(&self) -> (r: String) {
        match self {
            InItemFilter::Fragment { fragment_type, .. } => fragment_type.to_type(),
            InItemFilter::Key {  } => String::from_str("string"),
            InItemFilter::Value { value_type } => value_type.to_type(),
            InItemFilter::Address {  } => String::from_str("string"),
        }
    }
}

impl InItemFilter {
    /// The property's name as a character sequence, as diagnostics print it.
    pub open spec fn item_name(&self) -> Seq<char> {
        match self {
            InItemFilter::Fragment { .. } => "fragment"@,
            InItemFilter::Key {  } => "key"@,
            InItemFilter::Value { .. } => "value"@,
            InItemFilter::Address {  } => "address"@,
        }
    }

    /// Renders the property's name.
    pub fn to_name(&self) -> (r: String)
        ensures
            r@ == self.item_name(),
    {
        match self {
            InItemFilter::Fragment { .. } => String::from_str("fragment"),
            InItemFilter::Key {  } => String::from_str("key"),
            InItemFilter::Value { .. } => String::from_str("value"),
            InItemFilter::Address {  } => String::from_str("address"),
        }
    }
}

} // verus!

//! Semantic validation of a parsed search request: type/operation
//! compatibility, arity matches and position bounds, checked in a
//! depth-first, left-to-right traversal that reports the first error found.
//!
//! The spec functions of this module pin down both when validation fails
//! and the exact parameter path and reason text of the reported error.

use vstd::prelude::*;

use crate::errors::{app_error, is_validation_error, AppError};
use crate::model::{
    AddressFilter, AndFilter, FragmentType, FragmentValueType, InFilter, InFilterValue,
    InItemFilter, KeyFilter, KeyFragmentFilter, OrFilter, Operation, RequestFilter, SearchRequest,
    ToType, ValueData, ValueFilter, ValueFragmentFilter, ValueType, LIMIT_MAX,
};
use crate::strfmt::{dec_rep, u64_to_string};

verus! {

/// The reason reported for an out-of-range fragment position.
pub open spec fn position_reason() -> Seq<char> {
    "`position` out of range, should be less or equal than 10."@
}

/// The first error of a key- or value-fragment node: a value whose runtime
/// type differs from the declared fragment type, an ordering operator on a
/// string fragment, or an out-of-range position.
pub open spec fn fragment_err(
    t: FragmentType,
    op: Operation,
    v: FragmentValueType,
    position: u64,
    param: Seq<char>,
) -> Option<(Seq<char>, Seq<char>)> {
    if t is String && v is IntVal {
        Option::Some(
            (param, "`string` fragment type requires `value` of string type, found integer."@),
        )
    } else if t is Integer && v is StringVal {
        Option::Some(
            (param, "`integer` fragment type requires `value` of integer type, found string."@),
        )
    } else if t is String && op != Operation::Eq {
        Option::Some((param, "String value type supports only `eq` operation."@))
    } else if position > 10 {
        Option::Some((param, position_reason()))
    } else {
        Option::None
    }
}

/// Whether a value filter's literal matches its declared type.
pub open spec fn value_type_matches(v: ValueFilter) -> bool {
    match v.value_type {
        ValueType::String => v.value is String,
        ValueType::Integer => v.value is Integer,
        ValueType::Binary => v.value is Binary,
        ValueType::Bool => v.value is Bool,
    }
}

/// The first error of a value filter's type check.
pub open spec fn value_type_err(v: ValueFilter, param: Seq<char>) -> Option<(Seq<char>, Seq<char>)> {
    if value_type_matches(v) {
        Option::None
    } else {
        Option::Some(
            (
                param,
                "`"@ + v.value_type.type_label() + "` value type requires `value` of "@
                    + v.value_type.type_label() + " type, found "@ + v.value.type_label(),
            ),
        )
    }
}

/// The first error of a value filter's operation check: ordering operators
/// are permitted only on integer values.
pub open spec fn value_op_err(v: ValueFilter, param: Seq<char>) -> Option<(Seq<char>, Seq<char>)> {
    if v.operation == Operation::Eq || v.value_type == ValueType::Integer {
        Option::None
    } else {
        Option::Some(
            (
                param,
                "`"@ + v.value_type.type_label() + "` value type support only `eq` operation, found "@
                    + v.operation.type_label(),
            ),
        )
    }
}

/// The first error of a value filter: its type check, then its operation
/// check.
pub open spec fn value_err(v: ValueFilter, param: Seq<char>) -> Option<(Seq<char>, Seq<char>)> {
    match value_type_err(v, param) {
        Option::Some(e) => Option::Some(e),
        Option::None => value_op_err(v, param),
    }
}

/// Whether an `In` property and a row value agree on their runtime type.
pub open spec fn pair_type_matches(p: InItemFilter, v: InFilterValue) -> bool {
    match p {
        InItemFilter::Fragment { fragment_type, .. } => match fragment_type {
            FragmentType::Integer => v is IntVal,
            FragmentType::String => v is StringVal,
        },
        InItemFilter::Key {  } => v is StringVal,
        InItemFilter::Address {  } => v is StringVal,
        InItemFilter::Value { value_type } => match value_type {
            ValueType::Binary => v is BinaryVal,
            ValueType::Bool => v is BoolVal,
            ValueType::Integer => v is IntVal,
            ValueType::String => v is StringVal,
        },
    }
}

/// The reason reported for a type mismatch between an `In` property and a
/// row value.
pub open spec fn in_mismatch_reason(p: InItemFilter, v: InFilterValue) -> Seq<char> {
    match p {
        InItemFilter::Key {  } => "value of "@ + p.item_name() + " should be "@ + p.type_label()
            + ", found "@ + v.type_label() + "."@,
        InItemFilter::Address {  } => "value of "@ + p.item_name() + " should be "@
            + p.type_label() + ", found "@ + v.type_label() + "."@,
        _ => "`"@ + p.type_label() + "` "@ + p.item_name() + " type requires `value` of "@
            + p.type_label() + " type, found "@ + v.type_label() + "."@,
    }
}

/// The first error of an `In` property on its own: an out-of-range fragment
/// position.
pub open spec fn in_item_err(p: InItemFilter, param: Seq<char>) -> Option<(Seq<char>, Seq<char>)> {
    match p {
        InItemFilter::Fragment { position, .. } => if position > 10 {
            Option::Some((param, position_reason()))
        } else {
            Option::None
        },
        _ => Option::None,
    }
}

/// The first error within one row of an `In` filter, scanning its columns
/// left to right from column `col`.
pub open spec fn in_row_err(
    props: Seq<InItemFilter>,
    row: Seq<InFilterValue>,
    ctx: Seq<char>,
    idx: nat,
    col: nat,
) -> Option<(Seq<char>, Seq<char>)>
    decreases props.len() - col,
{
    if col >= props.len() || col >= row.len() {
        Option::None
    } else {
        let p = props[col as int];
        let v = row[col as int];
        if pair_type_matches(p, v) {
            match in_item_err(
                p,
                ctx + "in["@ + dec_rep(idx) + "]["@ + dec_rep(col) + "]"@,
            ) {
                Option::Some(e) => Option::Some(e),
                Option::None => in_row_err(props, row, ctx, idx, col + 1),
            }
        } else {
            Option::Some(
                (
                    ctx + "in.values["@ + dec_rep(idx) + "]["@ + dec_rep(col) + "]"@,
                    in_mismatch_reason(p, v),
                ),
            )
        }
    }
}

/// The first error among the rows of an `In` filter, scanning top to bottom
/// from row `idx`: a row whose length differs from the property count, then
/// the row's own column errors.
pub open spec fn in_rows_err(
    props: Seq<InItemFilter>,
    rows: Seq<Vec<InFilterValue>>,
    ctx: Seq<char>,
    idx: nat,
) -> Option<(Seq<char>, Seq<char>)>
    decreases rows.len(),
{
    if rows.len() == 0 {
        Option::None
    } else {
        let row = rows[0]@;
        if row.len() != props.len() {
            Option::Some(
                (
                    ctx + "in"@,
                    "`values` row length at index "@ + dec_rep(idx) + " is "@ + dec_rep(row.len())
                        + ", while it should be equal to `properties` count ("@ + dec_rep(
                        props.len(),
                    ) + ")."@,
                ),
            )
        } else {
            match in_row_err(props, row, ctx, idx, 0) {
                Option::Some(e) => Option::Some(e),
                Option::None => in_rows_err(props, rows.skip(1), ctx, idx + 1),
            }
        }
    }
}

/// The first error of one filter node, in a depth-first, left-to-right
/// traversal with the textual context path accumulated for diagnostics.
pub open spec fn filter_err(f: RequestFilter, ctx: Seq<char>) -> Option<(Seq<char>, Seq<char>)>
    decreases f,
{
    match f {
        RequestFilter::And(a) => filter_list_err(a.0@, ctx, "and["@, 0),
        RequestFilter::Or(o) => filter_list_err(o.0@, ctx, "or["@, 0),
        RequestFilter::In(i) => in_rows_err(i.properties@, i.values@, ctx, 0),
        RequestFilter::Fragment(kf) => fragment_err(
            kf.fragment_type,
            kf.operation,
            kf.value,
            kf.position,
            ctx + "fragment"@,
        ),
        RequestFilter::ValueFragment(vf) => fragment_err(
            vf.fragment_type,
            vf.operation,
            vf.value,
            vf.position,
            ctx + "value_fragment"@,
        ),
        RequestFilter::Key(_) => Option::None,
        RequestFilter::Value(v) => value_err(v, ctx + "value"@),
        RequestFilter::Address(_) => Option::None,
    }
}

/// The first error among a list of child filters, child `idx` first; each
/// child's context is the parent context extended with the opening label
/// (`and[` or `or[`), the child's index, and `].`.
pub open spec fn filter_list_err(
    s: Seq<RequestFilter>,
    ctx: Seq<char>,
    label_open: Seq<char>,
    idx: nat,
) -> Option<(Seq<char>, Seq<char>)>
    decreases s,
{
    if s.len() == 0 {
        Option::None
    } else {
        match filter_err(s[0], ctx + label_open + dec_rep(idx) + "]."@) {
            Option::Some(e) => Option::Some(e),
            Option::None => filter_list_err(s.skip(1), ctx, label_open, idx + 1),
        }
    }
}

/// The first error of a whole search request: the limit ceiling, then the
/// filter tree.
pub open spec fn search_request_err(r: SearchRequest) -> Option<(Seq<char>, Seq<char>)> {
    if r.limit > LIMIT_MAX {
        Option::Some(("limit"@, "maximum value 5000 exceeded"@))
    } else {
        match r.filter {
            Option::None => Option::None,
            Option::Some(f) => filter_err(f, "filter."@),
        }
    }
}

impl SearchRequest {
    /// Validates the request: rejects a limit over the ceiling, then
    /// validates the filter tree, reporting the first error found.
    pub fn is_valid(&self) -> (r: Result<(), AppError>)
        ensures
            r is Ok <==> search_request_err(*self) is None,
            r matches Err(e) ==> search_request_err(*self) matches Some(err)
                && is_validation_error(e, err.0, err.1),
    {
        if self.limit > LIMIT_MAX {
            return Err(
                app_error(
                    String::from_str("limit"),
                    String::from_str("maximum value 5000 exceeded"),
                ),
            );
        }
        match &self.filter {
            Option::None => Ok(()),
            Option::Some(f) => f.is_valid(String::from_str("filter.")),
        }
    }
}

impl RequestFilter {
    /// Validates one filter node, reporting the first error found.
    pub fn is_valid(&self, context: String) -> (r: Result<(), AppError>)
        ensures
            r is Ok <==> filter_err(*self, context@) is None,
            r matches Err(e) ==> filter_err(*self, context@) matches Some(err)
                && is_validation_error(e, err.0, err.1),
        decreases *self,
    {
        match self {
            RequestFilter::And(f) => f.is_valid(context),
            RequestFilter::Or(f) => f.is_valid(context),
            RequestFilter::In(f) => f.is_valid(context),
            RequestFilter::Fragment(f) => f.is_valid(context),
            RequestFilter::ValueFragment(f) => f.is_valid(context),
            RequestFilter::Key(f) => f.is_valid(context),
            RequestFilter::Value(f) => f.is_valid(context),
            RequestFilter::Address(f) => f.is_valid(context),
        }
    }
}

impl AndFilter {
    /// Validates the children in order, reporting the first error found.
    #[verifier::loop_isolation(false)]
    pub fn is_valid(&self, context: String) -> (r: Result<(), AppError>)
        ensures
            r is Ok <==> filter_list_err(self.0@, context@, "and["@, 0) is None,
            r matches Err(e) ==> filter_list_err(self.0@, context@, "and["@, 0) matches Some(err)
                && is_validation_error(e, err.0, err.1),
        decreases *self,
    {
        let n = self.0.len();
        let mut i: usize = 0;
        proof {
            assert(self.0@.skip(0) =~= self.0@);
        }
        while i < n
            invariant
                i <= n,
                filter_list_err(self.0@.skip(i as int), context@, "and["@, i as nat)
                    == filter_list_err(self.0@, context@, "and["@, 0),
            decreases n - i,
        {
            let mut child_ctx = context.clone();
            child_ctx.append("and[");
            child_ctx.append(u64_to_string(i as u64).as_str());
            child_ctx.append("].");
            proof {
                assert(child_ctx@ =~= context@ + "and["@ + dec_rep(i as nat) + "]."@);
                assert(decreases_to!(*self => self.0));
                assert(decreases_to!(self.0 => self.0@));
                assert(decreases_to!(self.0@ => self.0@[i as int]));
            }
            let res = self.0[i].is_valid(child_ctx);
            proof {
                let s = self.0@.skip(i as int);
                assert(s[0] == self.0@[i as int]);
                assert(s.skip(1) =~= self.0@.skip(i + 1));
            }
            match res {
                Result::Err(e) => {
                    return Err(e);
                },
                Result::Ok(_) => {},
            }
            i += 1;
        }
        proof {
            assert(self.0@.skip(n as int) =~= Seq::<RequestFilter>::empty());
        }
        Ok(())
    }
}

impl OrFilter {
    /// Validates the children in order, reporting the first error found.
    #[verifier::loop_isolation(false)]
    pub fn is_valid(&self, context: String) -> (r: Result<(), AppError>)
        ensures
            r is Ok <==> filter_list_err(self.0@, context@, "or["@, 0) is None,
            r matches Err(e) ==> filter_list_err(self.0@, context@, "or["@, 0) matches Some(err)
                && is_validation_error(e, err.0, err.1),
        decreases *self,
    {
        let n = self.0.len();
        let mut i: usize = 0;
        proof {
            assert(self.0@.skip(0) =~= self.0@);
        }
        while i < n
            invariant
                i <= n,
                filter_list_err(self.0@.skip(i as int), context@, "or["@, i as nat)
                    == filter_list_err(self.0@, context@, "or["@, 0),
            decreases n - i,
        {
            let mut child_ctx = context.clone();
            child_ctx.append("or[");
            child_ctx.append(u64_to_string(i as u64).as_str());
            child_ctx.append("].");
            proof {
                assert(child_ctx@ =~= context@ + "or["@ + dec_rep(i as nat) + "]."@);
                assert(decreases_to!(*self => self.0));
                assert(decreases_to!(self.0 => self.0@));
                assert(decreases_to!(self.0@ => self.0@[i as int]));
            }
            let res = self.0[i].is_valid(child_ctx);
            proof {
                let s = self.0@.skip(i as int);
                assert(s[0] == self.0@[i as int]);
                assert(s.skip(1) =~= self.0@.skip(i + 1));
            }
            match res {
                Result::Err(e) => {
                    return Err(e);
                },
                Result::Ok(_) => {},
            }
            i += 1;
        }
        proof {
            assert(self.0@.skip(n as int) =~= Seq::<RequestFilter>::empty());
        }
        Ok(())
    }
}

impl InItemFilter {
    /// Validates the property on its own: a fragment position must be at
    /// most 10.
    pub fn is_valid(&self, context: String) -> (r: Result<(), AppError>)
        ensures
            r is Ok <==> in_item_err(*self, context@) is None,
            r matches Err(e) ==> in_item_err(*self, context@) matches Some(err)
                && is_validation_error(e, err.0, err.1),
    {
        match self {
            InItemFilter::Fragment { position, .. } => {
                if *position > 10 {
                    let reason = String::from_str(
                        "`position` out of range, should be less or equal than 10.",
                    );
                    return Err(app_error(context, reason));
                }
                Ok(())
            },
            _ => Ok(()),
        }
    }
}

/// Builds the type-mismatch error between an `In` property and the row
/// value at row `idx`, column `index`.
pub fn in_item_filter_error(
    filter: &InItemFilter,
    value: &InFilterValue,
    context: &str,
    idx: u64,
    index: u64,
) -> (r: AppError)
    ensures
        is_validation_error(
            r,
            context@ + "in.values["@ + dec_rep(idx as nat) + "]["@ + dec_rep(index as nat) + "]"@,
            in_mismatch_reason(*filter, *value),
        ),
{
    let base_type = filter.to_type();
    let name = filter.to_name();
    let current_type = value.to_type();
    let mut reason = String::new();
    match filter {
        InItemFilter::Address {  } => {
            reason.append("value of ");
            reason.append(name.as_str());
            reason.append(" should be ");
            reason.append(base_type.as_str());
            reason.append(", found ");
            reason.append(current_type.as_str());
            reason.append(".");
        },
        InItemFilter::Key {  } => {
            reason.append("value of ");
            reason.append(name.as_str());
            reason.append(" should be ");
            reason.append(base_type.as_str());
            reason.append(", found ");
            reason.append(current_type.as_str());
            reason.append(".");
        },
        _ => {
            reason.append("`");
            reason.append(base_type.as_str());
            reason.append("` ");
            reason.append(name.as_str());
            reason.append(" type requires `value` of ");
            reason.append(base_type.as_str());
            reason.append(" type, found ");
            reason.append(current_type.as_str());
            reason.append(".");
        },
    }
    let mut parameter = String::from_str(context);
    parameter.append("in.values[");
    parameter.append(u64_to_string(idx).as_str());
    parameter.append("][");
    parameter.append(u64_to_string(index).as_str());
    parameter.append("]");
    proof {
        assert(reason@ =~= in_mismatch_reason(*filter, *value));
        assert(parameter@ =~= context@ + "in.values["@ + dec_rep(idx as nat) + "]["@ + dec_rep(
            index as nat,
        ) + "]"@);
    }
    app_error(parameter, reason)
}

impl InFilter {
    /// Validates every row against the properties, reporting the first
    /// error found: a row length that differs from the property count, a
    /// type mismatch, or an out-of-range fragment position.
    #[verifier::loop_isolation(false)]
    pub fn is_valid(&self, context: String) -> (r: Result<(), AppError>)
        ensures
            r is Ok <==> in_rows_err(self.properties@, self.values@, context@, 0) is None,
            r matches Err(e) ==> in_rows_err(self.properties@, self.values@, context@, 0)
                matches Some(err) && is_validation_error(e, err.0, err.1),
    {
        let nrows = self.values.len();
        let nprops = self.properties.len();
        let mut idx: usize = 0;
        proof {
            assert(self.values@.skip(0) =~= self.values@);
        }
        while idx < nrows
            invariant
                idx <= nrows,
                in_rows_err(self.properties@, self.values@.skip(idx as int), context@, idx as nat)
                    == in_rows_err(self.properties@, self.values@, context@, 0),
            decreases nrows - idx,
        {
            let row = &self.values[idx];
            proof {
                let rows = self.values@.skip(idx as int);
                assert(rows[0] == self.values@[idx as int]);
                assert(rows.skip(1) =~= self.values@.skip(idx + 1));
            }
            if row.len() != nprops {
                let mut reason = String::from_str("`values` row length at index ");
                reason.append(u64_to_string(idx as u64).as_str());
                reason.append(" is ");
                reason.append(u64_to_string(row.len() as u64).as_str());
                reason.append(", while it should be equal to `properties` count (");
                reason.append(u64_to_string(nprops as u64).as_str());
                reason.append(").");
                let mut parameter = context.clone();
                parameter.append("in");
                proof {
                    assert(reason@ =~= "`values` row length at index "@ + dec_rep(idx as nat)
                        + " is "@ + dec_rep(self.values@[idx as int]@.len())
                        + ", while it should be equal to `properties` count ("@ + dec_rep(
                        self.properties@.len(),
                    ) + ")."@);
                    assert(parameter@ =~= context@ + "in"@);
                }
                return Err(app_error(parameter, reason));
            }
            let mut col: usize = 0;
            while col < nprops
                invariant
                    col <= nprops,
                    idx < nrows,
                    self.values@[idx as int]@.len() == nprops,
                    in_row_err(
                        self.properties@,
                        self.values@[idx as int]@,
                        context@,
                        idx as nat,
                        col as nat,
                    ) is None ==> in_rows_err(
                        self.properties@,
                        self.values@.skip(idx as int),
                        context@,
                        idx as nat,
                    ) == in_rows_err(
                        self.properties@,
                        self.values@.skip(idx as int + 1),
                        context@,
                        idx as nat + 1,
                    ),
                    in_row_err(
                        self.properties@,
                        self.values@[idx as int]@,
                        context@,
                        idx as nat,
                        col as nat,
                    ) == in_row_err(
                        self.properties@,
                        self.values@[idx as int]@,
                        context@,
                        idx as nat,
                        0,
                    ),
                decreases nprops - col,
            {
                let p = &self.properties[col];
                let v = &self.values[idx][col];
                let type_ok: bool = match (p, v) {
                    (
                        InItemFilter::Fragment { fragment_type: FragmentType::Integer, .. },
                        InFilterValue::IntVal(_),
                    ) => true,
                    (
                        InItemFilter::Fragment { fragment_type: FragmentType::String, .. },
                        InFilterValue::StringVal(_),
                    ) => true,
                    (InItemFilter::Key {  }, InFilterValue::StringVal(_)) => true,
                    (InItemFilter::Address {  }, InFilterValue::StringVal(_)) => true,
                    (
                        InItemFilter::Value { value_type: ValueType::Binary },
                        InFilterValue::BinaryVal(_),
                    ) => true,
                    (
                        InItemFilter::Value { value_type: ValueType::Bool },
                        InFilterValue::BoolVal(_),
                    ) => true,
                    (
                        InItemFilter::Value { value_type: ValueType::Integer },
                        InFilterValue::IntVal(_),
                    ) => true,
                    (
                        InItemFilter::Value { value_type: ValueType::String },
                        InFilterValue::StringVal(_),
                    ) => true,
                    _ => false,
                };
                if type_ok {
                    let mut item_ctx = context.clone();
                    item_ctx.append("in[");
                    item_ctx.append(u64_to_string(idx as u64).as_str());
                    item_ctx.append("][");
                    item_ctx.append(u64_to_string(col as u64).as_str());
                    item_ctx.append("]");
                    proof {
                        assert(item_ctx@ =~= context@ + "in["@ + dec_rep(idx as nat) + "]["@
                            + dec_rep(col as nat) + "]"@);
                    }
                    match p.is_valid(item_ctx) {
                        Result::Err(e) => {
                            return Err(e);
                        },
                        Result::Ok(_) => {},
                    }
                } else {
                    let e = in_item_filter_error(p, v, context.as_str(), idx as u64, col as u64);
                    return Err(e);
                }
                col += 1;
            }
            proof {
                assert(in_row_err(
                    self.properties@,
                    self.values@[idx as int]@,
                    context@,
                    idx as nat,
                    nprops as nat,
                ) is None);
            }
            idx += 1;
        }
        proof {
            assert(self.values@.skip(nrows as int) =~= Seq::<Vec<InFilterValue>>::empty());
        }
        Ok(())
    }
}

impl KeyFragmentFilter {
    /// Validates the fragment's type/value agreement, its operation, and
    /// its position bound.
    pub fn is_valid(&self, context: String) -> (r: Result<(), AppError>)
        ensures
            r is Ok <==> fragment_err(
                self.fragment_type,
                self.operation,
                self.value,
                self.position,
                context@ + "fragment"@,
            ) is None,
            r matches Err(e) ==> fragment_err(
                self.fragment_type,
                self.operation,
                self.value,
                self.position,
                context@ + "fragment"@,
            ) matches Some(err) && is_validation_error(e, err.0, err.1),
    {
        let mut new_context = context;
        new_context.append("fragment");
        fragment_is_valid(
            &self.fragment_type,
            &self.operation,
            &self.value,
            self.position,
            new_context,
        )
    }
}

impl ValueFragmentFilter {
    /// Validates the fragment's type/value agreement, its operation, and
    /// its position bound.
    pub fn is_valid(&self, context: String) -> (r: Result<(), AppError>)
        ensures
            r is Ok <==> fragment_err(
                self.fragment_type,
                self.operation,
                self.value,
                self.position,
                context@ + "value_fragment"@,
            ) is None,
            r matches Err(e) ==> fragment_err(
                self.fragment_type,
                self.operation,
                self.value,
                self.position,
                context@ + "value_fragment"@,
            ) matches Some(err) && is_validation_error(e, err.0, err.1),
    {
        let mut new_context = context;
        new_context.append("value_fragment");
        fragment_is_valid(
            &self.fragment_type,
            &self.operation,
            &self.value,
            self.position,
            new_context,
        )
    }
}

fn fragment_is_valid(
    t: &FragmentType,
    op: &Operation,
    v: &FragmentValueType,
    position: u64,
    param: String,
) -> (r: Result<(), AppError>)
    ensures
        r is Ok <==> fragment_err(*t, *op, *v, position, param@) is None,
        r matches Err(e) ==> fragment_err(*t, *op, *v, position, param@) matches Some(err)
            && is_validation_error(e, err.0, err.1),
{
    match (v, t) {
        (FragmentValueType::IntVal(_), FragmentType::String) => Err(
            app_error(
                param,
                String::from_str(
                    "`string` fragment type requires `value` of string type, found integer.",
                ),
            ),
        ),
        (FragmentValueType::StringVal(_), FragmentType::Integer) => Err(
            app_error(
                param,
                String::from_str(
                    "`integer` fragment type requires `value` of integer type, found string.",
                ),
            ),
        ),
        (_, FragmentType::String) => {
            if *op == Operation::Eq {
                if position > 10 {
                    Err(
                        app_error(
                            param,
                            String::from_str(
                                "`position` out of range, should be less or equal than 10.",
                            ),
                        ),
                    )
                } else {
                    Ok(())
                }
            } else {
                Err(
                    app_error(
                        param,
                        String::from_str("String value type supports only `eq` operation."),
                    ),
                )
            }
        },
        _ => {
            if position > 10 {
                Err(
                    app_error(
                        param,
                        String::from_str(
                            "`position` out of range, should be less or equal than 10.",
                        ),
                    ),
                )
            } else {
                Ok(())
            }
        },
    }
}

impl KeyFilter {
    /// A key filter is always valid.
    pub fn is_valid(&self, _context: String) -> (r: Result<(), AppError>)
        ensures
            r is Ok,
    {
        Ok(())
    }
}

impl AddressFilter {
    /// An address filter is always valid.
    pub fn is_valid(&self, _context: String) -> (r: Result<(), AppError>)
        ensures
            r is Ok,
    {
        Ok(())
    }
}

impl ValueFilter {
    /// Validates the value's type agreement, then its operation.
    pub fn is_valid(&self, context: String) -> (r: Result<(), AppError>)
        ensures
            r is Ok <==> value_err(*self, context@ + "value"@) is None,
            r matches Err(e) ==> value_err(*self, context@ + "value"@) matches Some(err)
                && is_validation_error(e, err.0, err.1),
    {
        let mut new_context = context;
        new_context.append("value");
        match self.valid_type(new_context.as_str()) {
            Result::Err(e) => {
                return Err(e);
            },
            Result::Ok(_) => {},
        }
        match self.valid_operation(new_context.as_str()) {
            Result::Err(e) => {
                return Err(e);
            },
            Result::Ok(_) => {},
        }
        Ok(())
    }

    /// Checks that the literal's runtime type equals the declared type.
    pub fn valid_type(&self, context: &str) -> (r: Result<(), AppError>)
        ensures
            r is Ok <==> value_type_err(*self, context@) is None,
            r matches Err(e) ==> value_type_err(*self, context@) matches Some(err)
                && is_validation_error(e, err.0, err.1),
    {
        let matches_decl: bool = match (&self.value_type, &self.value) {
            (ValueType::String, ValueData::String(_)) => true,
            (ValueType::Integer, ValueData::Integer(_)) => true,
            (ValueType::Binary, ValueData::Binary(_)) => true,
            (ValueType::Bool, ValueData::Bool(_)) => true,
            _ => false,
        };
        if matches_decl {
            Ok(())
        } else {
            let base_type = self.value_type.to_type();
            let current_type = self.value.to_type();
            let mut reason = String::from_str("`");
            reason.append(base_type.as_str());
            reason.append("` value type requires `value` of ");
            reason.append(base_type.as_str());
            reason.append(" type, found ");
            reason.append(current_type.as_str());
            proof {
                assert(reason@ =~= "`"@ + self.value_type.type_label()
                    + "` value type requires `value` of "@ + self.value_type.type_label()
                    + " type, found "@ + self.value.type_label());
            }
            Err(app_error(String::from_str(context), reason))
        }
    }

    /// Checks that a non-equality operator is used only on integer values.
    pub fn valid_operation(&self, context: &str) -> (r: Result<(), AppError>)
        ensures
            r is Ok <==> value_op_err(*self, context@) is None,
            r matches Err(e) ==> value_op_err(*self, context@) matches Some(err)
                && is_validation_error(e, err.0, err.1),
    {
        if self.operation == Operation::Eq {
            return Ok(());
        }
        if self.value_type == ValueType::Integer {
            return Ok(());
        }
        let base_type = self.value_type.to_type();
        let op_type = self.operation.to_type();
        let mut reason = String::from_str("`");
        reason.append(base_type.as_str());
        reason.append("` value type support only `eq` operation, found ");
        reason.append(op_type.as_str());
        proof {
            assert(reason@ =~= "`"@ + self.value_type.type_label()
                + "` value type support only `eq` operation, found "@ + self.operation.type_label());
        }
        Err(app_error(String::from_str(context), reason))
    }
}

} // verus!

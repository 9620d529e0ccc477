//! SSA values: results of operations and arguments of blocks.
use vstd::prelude::*;
use crate::context::{Context, ValueOwner};
use crate::error::Error;
use crate::ty::Type;
use crate::wrap_raw::{HasRaw, MlirValue, WrapRawPtr};

verus! {

/// A value of any kind.
#[derive(Clone, Copy, Debug, PartialEq, Eq, Structural)]
pub struct Value(pub MlirValue);

impl HasRaw for Value {
    type RawType = MlirValue;

    open spec fn spec_raw(&self) -> MlirValue {
        self.0
    }

    fn raw(&self) -> (r: MlirValue) {
        self.0
    }

    fn take_raw(self) -> (r: MlirValue) {
        self.0
    }
}

impl WrapRawPtr for Value {
    open spec fn spec_is_null(raw: MlirValue) -> bool {
        raw.ptr == 0
    }

    fn try_from_raw(raw: MlirValue) -> (r: Option<Value>) {
        if raw.ptr == 0 {
            None
        } else {
            Some(Value(raw))
        }
    }

    fn from_raw(raw: MlirValue) -> (r: Value) {
        Value(raw)
    }
}

/// The raw handles of a list of values.
pub open spec fn values_raw(l: Seq<Value>) -> Seq<MlirValue> {
    l.map_values(|v: Value| v.0)
}

/// A kind of value, recognised at run time by where the value comes from.
pub trait Val: Sized {
    spec fn spec_value(&self) -> MlirValue;

    spec fn spec_isa(ctx: &Context, v: MlirValue) -> bool;

    fn as_value(&self) -> (r: Value)
        ensures
            r.0 == self.spec_value(),
    ;

    fn isa(ctx: &Context, value: &Value) -> (r: bool)
        ensures
            r == Self::spec_isa(ctx, value.0),
    ;

    fn wrap(v: Value) -> (r: Self)
        ensures
            r.spec_value() == v.0,
    ;
}

impl Val for Value {
    open spec fn spec_value(&self) -> MlirValue {
        self.0
    }

    open spec fn spec_isa(ctx: &Context, v: MlirValue) -> bool {
        true
    }

    fn as_value(&self) -> (r: Value) {
        *self
    }

    fn isa(ctx: &Context, value: &Value) -> (r: bool) {
        true
    }

    fn wrap(v: Value) -> (r: Value) {
        v
    }
}

impl Value {
    /// The type of the value.
    pub fn ty(&self, ctx: &Context) -> (r: Type)
        requires
            ctx.wf(),
            ctx.valid_value(self.0),
        ensures
            r.0 == ctx.type_of(self.0),
            ctx.valid_type(r.0),
    {
        Type(ctx.values[self.0.ptr].ty)
    }

    /// Two handles name the same value; two null handles are equal.
    pub fn equal_to(&self, other: &Value) -> (r: bool)
        ensures
            r == (self.0 == other.0),
    {
        self.0.ptr == other.0.ptr
    }
}

/// A value that is an argument of a block.
#[derive(Clone, Copy, Debug, PartialEq, Eq, Structural)]
pub struct BlockArgument(pub MlirValue);

impl Val for BlockArgument {
    open spec fn spec_value(&self) -> MlirValue {
        self.0
    }

    open spec fn spec_isa(ctx: &Context, v: MlirValue) -> bool {
        ctx.valid_value(v) && ctx.values@[v.ptr as int].owner is BlockArgument
    }

    fn as_value(&self) -> (r: Value) {
        Value(self.0)
    }

    fn isa(ctx: &Context, value: &Value) -> (r: bool) {
        if value.0.ptr == 0 || value.0.ptr >= ctx.values.len() {
            return false;
        }
        match ctx.values[value.0.ptr].owner {
            ValueOwner::BlockArgument { .. } => true,
            _ => false,
        }
    }

    fn wrap(v: Value) -> (r: BlockArgument) {
        BlockArgument(v.0)
    }
}

/// A value that is a result of an operation.
#[derive(Clone, Copy, Debug, PartialEq, Eq, Structural)]
pub struct OpResult(pub MlirValue);

impl Val for OpResult {
    open spec fn spec_value(&self) -> MlirValue {
        self.0
    }

    open spec fn spec_isa(ctx: &Context, v: MlirValue) -> bool {
        ctx.valid_value(v) && ctx.values@[v.ptr as int].owner is OpResult
    }

    fn as_value(&self) -> (r: Value) {
        Value(self.0)
    }

    fn isa(ctx: &Context, value: &Value) -> (r: bool) {
        if value.0.ptr == 0 || value.0.ptr >= ctx.values.len() {
            return false;
        }
        match ctx.values[value.0.ptr].owner {
            ValueOwner::OpResult { .. } => true,
            _ => false,
        }
    }

    fn wrap(v: Value) -> (r: OpResult) {
        OpResult(v.0)
    }
}

/// Narrow a value to kind `K`: succeeds exactly when it is one, with the same handle.
pub fn narrow_value<K: Val>(ctx: &Context, value: Value) -> (r: Result<K, Error>)
    ensures
        r is Ok <==> K::spec_isa(ctx, value.0),
        r matches Ok(k) ==> k.spec_value() == value.0,
        r matches Err(e) ==> e is KindMismatch,
{
    if K::isa(ctx, &value) {
        Ok(K::wrap(value))
    } else {
        Err(
            Error::KindMismatch {
                expected: String::from_str("value kind"),
                actual: String::from_str("Value"),
            },
        )
    }
}

impl OpResult {
    /// The operation that produced the value.
    pub fn owner(&self, ctx: &Context) -> (r: Option<crate::operation::Operation>)
        requires
            OpResult::spec_isa(ctx, self.0),
        ensures
            r matches Some(o) && ctx.values@[self.0.ptr as int].owner matches ValueOwner::OpResult { op, pos } && op == o.0,
    {
        match ctx.values[self.0.ptr].owner {
            ValueOwner::OpResult { op, pos } => Some(crate::operation::Operation(op)),
            _ => None,
        }
    }

    /// The position of the value among the results of its operation.
    pub fn result_position(&self, ctx: &Context) -> (r: usize)
        requires
            OpResult::spec_isa(ctx, self.0),
        ensures
            ctx.values@[self.0.ptr as int].owner matches ValueOwner::OpResult { op, pos } && pos
                == r,
    {
        match ctx.values[self.0.ptr].owner {
            ValueOwner::OpResult { op, pos } => pos,
            _ => 0,
        }
    }
}

} // verus!

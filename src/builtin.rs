//! The `builtin` dialect's conversion cast.
use vstd::prelude::*;
use crate::builder::{placed, OpBuilder};
use crate::context::Context;
use crate::dialect::{all_valid_types, all_valid_values, build_simple, builder_grew, can_place, op_shape};
use crate::operation::{NamedOp, Operation};
use crate::ty::{types_raw, Type};
use crate::value::{values_raw, Value};
use crate::wrap_raw::MlirOperation;

verus! {

/// A cast between types that no conversion has resolved yet.
#[derive(Clone, Copy, Debug, PartialEq, Eq, Structural)]
pub struct UnrealizedConversionCastOp(pub MlirOperation);

impl NamedOp for UnrealizedConversionCastOp {
    open spec fn spec_name() -> Seq<char> {
        "builtin.unrealized_conversion_cast"@
    }

    open spec fn spec_op(&self) -> MlirOperation {
        self.0
    }

    fn operation_name() -> (r: &'static str) {
        "builtin.unrealized_conversion_cast"
    }

    fn wrap_op(raw: MlirOperation) -> (r: UnrealizedConversionCastOp) {
        UnrealizedConversionCastOp(raw)
    }

    fn as_operation(&self) -> (r: Operation) {
        Operation(self.0)
    }
}

impl UnrealizedConversionCastOp {
    /// Cast `values` to results of the types `result_tys`, in order.
    pub fn new(builder: &mut OpBuilder, values: &[Value], result_tys: &[Type]) -> (r: Option<UnrealizedConversionCastOp>)
        requires
            old(builder).wf(),
        ensures
            builder_grew(final(builder), old(builder)),
            r is Some <==> (can_place(old(builder)) && all_valid_values(&old(builder).ctx, values@)
                && all_valid_types(&old(builder).ctx, result_tys@)),
            r matches Some(op) ==> op_shape(&final(builder).ctx, op.0, "builtin.unrealized_conversion_cast"@,
                values_raw(values@), types_raw(result_tys@))
                && placed(&final(builder).ctx, &old(builder).ctx, op.0, old(builder).insert_point),
            r is None ==> final(builder).ctx == old(builder).ctx,
    {
        build_simple::<UnrealizedConversionCastOp>(builder, values, result_tys, Vec::new())
    }
}

} // verus!

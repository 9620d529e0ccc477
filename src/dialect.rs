//! What the operation definitions of the dialects share: the shape of a built operation,
//! and building one from operands, result types and attributes.
use vstd::prelude::*;
use crate::attr::NamedAttribute;
use crate::builder::{placed, OpBuilder};
use crate::context::Context;
use crate::operation::{named_raw, op_entry_ok, state_ok, NamedOp, Operation, OperationState};
use crate::ty::{types_raw, Type};
use crate::value::{values_raw, Value};
use crate::wrap_raw::{MlirOperation, MlirType, MlirValue};

verus! {

/// Operation `op` is alive, is named `name`, has exactly `operands`, and has one result
/// of each type of `result_tys`, in order.
pub open spec fn op_shape(
    ctx: &Context,
    op: MlirOperation,
    name: Seq<char>,
    operands: Seq<MlirValue>,
    result_tys: Seq<MlirType>,
) -> bool {
    let d = ctx.ops@[op.ptr as int];
    &&& ctx.valid_op(op)
    &&& d.name@ == name
    &&& d.operands@ == operands
    &&& d.results@.len() == result_tys.len()
    &&& forall|k: int| 0 <= k < result_tys.len() ==> ctx.type_of(#[trigger] d.results@[k]) == result_tys[k]
}

/// Attribute `k` of `op` is named `name` and is a string attribute holding `value`.
pub open spec fn has_string_attr(ctx: &Context, op: MlirOperation, k: int, name: Seq<char>, value: Seq<char>) -> bool {
    let a = ctx.ops@[op.ptr as int].attributes@[k];
    &&& 0 <= k < ctx.ops@[op.ptr as int].attributes@.len()
    &&& a.name@ == name
    &&& ctx.attrs@[a.attribute.ptr as int] matches crate::context::AttrData::String { value: v }
    &&& v@ == value
}

/// Attribute `k` of `op` is named `name` and is an integer attribute holding `value`
/// with type `ty`.
pub open spec fn has_int_attr(ctx: &Context, op: MlirOperation, k: int, name: Seq<char>, ty: MlirType, value: i64) -> bool {
    let a = ctx.ops@[op.ptr as int].attributes@[k];
    &&& 0 <= k < ctx.ops@[op.ptr as int].attributes@.len()
    &&& a.name@ == name
    &&& ctx.attrs@[a.attribute.ptr as int] == (crate::context::AttrData::Integer { ty, value })
}

/// Type `t` is an integer type of width `width`.
pub open spec fn is_int_type(ctx: &Context, t: MlirType, width: int) -> bool {
    &&& ctx.valid_type(t)
    &&& ctx.types@[t.ptr as int] matches crate::context::TypeData::Integer { width: w }
    &&& w == width
}

/// Result `k` of `op` has an integer type of width `width`.
pub open spec fn result_int(ctx: &Context, op: MlirOperation, k: int, width: int) -> bool {
    let d = ctx.ops@[op.ptr as int];
    &&& 0 <= k < d.results@.len()
    &&& is_int_type(ctx, ctx.type_of(d.results@[k]), width)
}

/// Operation `op` is alive, named `name`, with exactly `operands` and `n` results.
pub open spec fn op_operands(ctx: &Context, op: MlirOperation, name: Seq<char>, operands: Seq<MlirValue>, n: int) -> bool {
    let d = ctx.ops@[op.ptr as int];
    &&& ctx.valid_op(op)
    &&& d.name@ == name
    &&& d.operands@ == operands
    &&& d.results@.len() == n
}

/// Attribute `k` of `op` is named `name` and is an integer attribute holding `value`, of
/// an integer type of width `width`.
pub open spec fn has_int_attr_of_width(ctx: &Context, op: MlirOperation, k: int, name: Seq<char>, width: int, value: i64) -> bool {
    let a = ctx.ops@[op.ptr as int].attributes@[k];
    &&& 0 <= k < ctx.ops@[op.ptr as int].attributes@.len()
    &&& a.name@ == name
    &&& match ctx.attrs@[a.attribute.ptr as int] {
        crate::context::AttrData::Integer { ty, value: v } => v == value && is_int_type(ctx, ty, width),
        _ => false,
    }
}

/// The builder can place a new operation: its location is live and its insertion point,
/// if any, usable.
pub open spec fn can_place(b: &OpBuilder) -> bool {
    &&& b.ctx.valid_location(b.loc.0)
    &&& b.insert_point matches Some(p) ==> p.spec_ok(&b.ctx)
}

/// All values name values of the store.
pub open spec fn all_valid_values(ctx: &Context, vs: Seq<Value>) -> bool {
    forall|k: int| 0 <= k < vs.len() ==> ctx.valid_value(#[trigger] vs[k].0)
}

/// All types name types of the store.
pub open spec fn all_valid_types(ctx: &Context, ts: Seq<Type>) -> bool {
    forall|k: int| 0 <= k < ts.len() ==> ctx.valid_type(#[trigger] ts[k].0)
}

/// The effect of building an operation with a builder: the store grew, and the builder's
/// location and insertion point stay.
pub open spec fn builder_grew(new: &OpBuilder, old: &OpBuilder) -> bool {
    &&& new.wf()
    &&& new.ctx.extends(&old.ctx)
    &&& new.loc == old.loc
    &&& new.insert_point == old.insert_point
}

impl Context {
    pub fn is_valid_value(&self, v: &Value) -> (r: bool)
        ensures
            r == self.valid_value(v.0),
    {
        1 <= v.0.ptr && v.0.ptr < self.values.len()
    }

    pub fn is_valid_location(&self, l: crate::wrap_raw::MlirLocation) -> (r: bool)
        ensures
            r == self.valid_location(l),
    {
        1 <= l.ptr && l.ptr < self.locations.len()
    }
}

/// Whether every value names a value of the store.
pub fn check_values(ctx: &Context, vs: &[Value]) -> (r: bool)
    ensures
        r == all_valid_values(ctx, vs@),
{
    let mut k: usize = 0;
    while k < vs.len()
        invariant
            k <= vs@.len(),
            forall|j: int| 0 <= j < k ==> ctx.valid_value(#[trigger] vs@[j].0),
        decreases vs@.len() - k,
    {
        if !ctx.is_valid_value(&vs[k]) {
            return false;
        }
        k = k + 1;
    }
    true
}

/// Whether the builder can place a new operation.
pub fn check_place(b: &OpBuilder) -> (r: bool)
    ensures
        r == can_place(b),
{
    if !b.ctx.is_valid_location(b.loc.0) {
        return false;
    }
    match b.insert_point {
        Some(p) => p.is_valid(&b.ctx),
        None => true,
    }
}

pub proof fn lemma_one_type(ctx: &Context, ts: Seq<Type>, t: Type)
    requires
        ts == seq![t],
    ensures
        all_valid_types(ctx, ts) == ctx.valid_type(t.0),
{
    assert(ts[0] == t);
}

pub proof fn lemma_one_value(ctx: &Context, vs: Seq<Value>, v: Value)
    requires
        vs == seq![v],
    ensures
        all_valid_values(ctx, vs) == ctx.valid_value(v.0),
{
    assert(vs[0] == v);
}

/// A grown store keeps every handle it had, with the same types.
pub proof fn lemma_grew_keeps_handles(new: &OpBuilder, old: &OpBuilder)
    requires
        builder_grew(new, old),
    ensures
        forall|v: MlirValue| old.ctx.valid_value(v) ==> #[trigger] new.ctx.valid_value(v),
        forall|v: MlirValue| old.ctx.valid_value(v) ==> #[trigger] new.ctx.type_of(v) == old.ctx.type_of(v),
        forall|t: MlirType| old.ctx.valid_type(t) ==> #[trigger] new.ctx.valid_type(t),
        forall|t: MlirType| old.ctx.valid_type(t) ==> #[trigger] new.ctx.types@[t.ptr as int] == old.ctx.types@[t.ptr as int],
        forall|l: crate::wrap_raw::MlirLocation| old.ctx.valid_location(l) ==> #[trigger] new.ctx.valid_location(l),
{
}

/// Building keeps what the builder could do, when no block changed.
pub proof fn lemma_grew_keeps(new: &OpBuilder, old: &OpBuilder)
    requires
        builder_grew(new, old),
        new.ctx.blocks@ == old.ctx.blocks@,
    ensures
        can_place(old) ==> can_place(new),
        forall|v: MlirValue| old.ctx.valid_value(v) ==> #[trigger] new.ctx.valid_value(v),
        forall|v: MlirValue| old.ctx.valid_value(v) ==> #[trigger] new.ctx.type_of(v) == old.ctx.type_of(v),
        forall|t: MlirType| old.ctx.valid_type(t) ==> #[trigger] new.ctx.valid_type(t),
        forall|t: MlirType| old.ctx.valid_type(t) ==> #[trigger] new.ctx.types@[t.ptr as int] == old.ctx.types@[t.ptr as int],
{
    lemma_grew_keeps_handles(new, old);
}

/// Placing an operation keeps the builder's place usable.
pub proof fn lemma_placed_keeps(new: &OpBuilder, old: &OpBuilder, op: MlirOperation)
    requires
        builder_grew(new, old),
        placed(&new.ctx, &old.ctx, op, old.insert_point),
        can_place(old),
    ensures
        can_place(new),
{
    lemma_grew_keeps_handles(new, old);
    if let Some(p) = old.insert_point {
        let b = p.spec_block();
        let i = choose|i: int|
            p.spec_position(old.ctx.blocks@[b.ptr as int].ops@, i)
                && new.ctx.blocks@[b.ptr as int].ops@ == old.ctx.blocks@[b.ptr as int].ops@.insert(i, op);
        let os = old.ctx.blocks@[b.ptr as int].ops@;
        match p {
            crate::builder::InsertPoint::AfterOp(_, o) => {
                let j = choose|j: int| 0 <= j < os.len() && os[j] == o.0;
                if j < i {
                    assert(os.insert(i, op)[j] == o.0);
                } else {
                    assert(os.insert(i, op)[j + 1] == o.0);
                }
            },
            crate::builder::InsertPoint::BeforeOp(_, o) => {
                let j = choose|j: int| 0 <= j < os.len() && os[j] == o.0;
                if j < i {
                    assert(os.insert(i, op)[j] == o.0);
                } else {
                    assert(os.insert(i, op)[j + 1] == o.0);
                }
            },
            _ => {},
        }
    }
}

/// Build an operation of kind `T` with the given operands, result types and attributes,
/// at the builder's location and insertion point. Succeeds exactly when the builder can
/// place it and every handle given is live; otherwise nothing changes.
pub fn build_simple<T: NamedOp>(
    builder: &mut OpBuilder,
    operands: &[Value],
    results: &[Type],
    attrs: Vec<NamedAttribute>,
) -> (r: Option<T>)
    requires
        old(builder).wf(),
    ensures
        builder_grew(final(builder), old(builder)),
        r is Some <==> (can_place(old(builder)) && all_valid_values(&old(builder).ctx, operands@)
            && all_valid_types(&old(builder).ctx, results@)),
        r matches Some(op) ==> op_shape(&final(builder).ctx, op.spec_op(), T::spec_name(), values_raw(operands@), types_raw(results@))
            && final(builder).ctx.ops@[op.spec_op().ptr as int].attributes@ == named_raw(attrs@)
            && placed(&final(builder).ctx, &old(builder).ctx, op.spec_op(), old(builder).insert_point),
        r is None ==> final(builder).ctx == old(builder).ctx,
{
    let mut state = OperationState::new(T::operation_name(), &builder.loc);
    state.add_operands(operands);
    state.add_results(results);
    state.attributes = attrs;
    assert(state.operands@ =~= operands@);
    assert(state.results@ =~= results@);
    let ghost st = state;
    let r = builder.create::<T>(state);
    proof {
        if r is Some {
            assert(types_raw(st.results@) =~= types_raw(results@));
        }
    }
    r
}

/// `build_simple` where everything is known to be in order: it then succeeds.
pub fn build_valid<T: NamedOp>(
    builder: &mut OpBuilder,
    operands: &[Value],
    results: &[Type],
    attrs: Vec<NamedAttribute>,
) -> (r: Option<T>)
    requires
        old(builder).wf(),
        can_place(old(builder)),
        all_valid_values(&old(builder).ctx, operands@),
        all_valid_types(&old(builder).ctx, results@),
    ensures
        builder_grew(final(builder), old(builder)),
        r matches Some(op) && op_shape(&final(builder).ctx, op.spec_op(), T::spec_name(), values_raw(operands@), types_raw(results@))
            && final(builder).ctx.ops@[op.spec_op().ptr as int].attributes@ == named_raw(attrs@)
            && placed(&final(builder).ctx, &old(builder).ctx, op.spec_op(), old(builder).insert_point),
{
    build_simple::<T>(builder, operands, results, attrs)
}

/// Whether every value names a value of the store, for a vector.
pub fn check_value_vec(ctx: &Context, vs: &Vec<Value>) -> (r: bool)
    ensures
        r == all_valid_values(ctx, vs@),
{
    check_values(ctx, vs.as_slice())
}

} // verus!

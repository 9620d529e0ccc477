//! The `seq` dialect: sequential logic, here its registers.
use vstd::prelude::*;
use crate::attr::{NamedAttribute, StringAttr};
use crate::builder::{placed, OpBuilder};
use crate::context::Context;
use crate::dialect::{build_simple, check_place, builder_grew, can_place, has_string_attr, op_shape};
use crate::operation::{NamedOp, Operation};
use crate::pass_manager::Pass;
use crate::ty::Type;
use crate::value::Value;
use crate::wrap_raw::{MlirOperation, MlirValue};

verus! {

/// Register the passes of the dialect.
pub fn register_passes(ctx: &mut Context)
    requires
        old(ctx).wf(),
    ensures
        final(ctx).wf(),
        final(ctx).extends(old(ctx)),
        final(ctx).is_registered("lower-seq-to-sv"@),
        final(ctx).is_registered("lower-seq-hlmem"@),
        forall|n: Seq<char>| old(ctx).is_registered(n) ==> #[trigger] final(ctx).is_registered(n),
{
    ctx.register_pass("lower-seq-to-sv");
    ctx.register_pass("lower-seq-hlmem");
}

/// The pass that lowers the dialect to `sv`.
pub fn create_seq_lower_to_sv_pass() -> (r: Pass)
    ensures
        r.name@ == "lower-seq-to-sv"@,
{
    Pass { name: String::from_str("lower-seq-to-sv") }
}

/// The operands of a register: input, clock, (clock enable,) then reset and reset value
/// when given.
pub open spec fn reg_operands(head: Seq<MlirValue>, reset: Option<&Value>, reset_value: Option<&Value>) -> Seq<MlirValue> {
    match reset {
        Some(r) => match reset_value {
            Some(v) => head.push(r.0).push(v.0),
            None => head.push(r.0),
        },
        None => head,
    }
}

pub open spec fn opt_valid(ctx: &Context, v: Option<&Value>) -> bool {
    v matches Some(x) ==> ctx.valid_value(x.0)
}

fn push_opt(ops: &mut Vec<Value>, reset: Option<&Value>, reset_value: Option<&Value>)
    requires
        reset is None ==> reset_value is None,
    ensures
        crate::value::values_raw(final(ops)@) == reg_operands(crate::value::values_raw(old(ops)@), reset, reset_value),
        final(ops)@ == old(ops)@ + opt_values(reset, reset_value),
{
    let ghost h = crate::value::values_raw(ops@);
    if let Some(r) = reset {
        ops.push(*r);
        if let Some(v) = reset_value {
            ops.push(*v);
            assert(crate::value::values_raw(ops@) =~= h.push(r.0).push(v.0));
        } else {
            assert(crate::value::values_raw(ops@) =~= h.push(r.0));
        }
    }
    assert(ops@ =~= old(ops)@ + opt_values(reset, reset_value));
}

/// The reset and reset value, as far as given.
pub open spec fn opt_values(reset: Option<&Value>, reset_value: Option<&Value>) -> Seq<Value> {
    match reset {
        Some(r) => match reset_value {
            Some(v) => seq![*r, *v],
            None => seq![*r],
        },
        None => Seq::empty(),
    }
}

fn opt_ok(ctx: &Context, v: Option<&Value>) -> (r: bool)
    ensures
        r == opt_valid(ctx, v),
{
    match v {
        Some(x) => ctx.is_valid_value(x),
        None => true,
    }
}

/// A register with a clock enable.
#[derive(Clone, Copy, Debug, PartialEq, Eq, Structural)]
pub struct CompRegClockEnabledOp(pub MlirOperation);

impl NamedOp for CompRegClockEnabledOp {
    open spec fn spec_name() -> Seq<char> {
        "seq.compreg.ce"@
    }

    open spec fn spec_op(&self) -> MlirOperation {
        self.0
    }

    fn operation_name() -> (r: &'static str) {
        "seq.compreg.ce"
    }

    fn wrap_op(raw: MlirOperation) -> (r: CompRegClockEnabledOp) {
        CompRegClockEnabledOp(raw)
    }

    fn as_operation(&self) -> (r: Operation) {
        Operation(self.0)
    }
}

impl CompRegClockEnabledOp {
    /// The single result.
    pub fn result(&self, ctx: &Context) -> (r: Value)
        requires
            ctx.valid_op(self.0),
            ctx.ops@[self.0.ptr as int].results@.len() > 0,
        ensures
            r.0 == ctx.ops@[self.0.ptr as int].results@[0],
    {
        Value(ctx.ops[self.0.ptr].results[0])
    }
}

impl CompRegClockEnabledOp {
    pub fn input(&self, ctx: &Context) -> (r: Value)
        requires
            ctx.valid_op(self.0),
            ctx.ops@[self.0.ptr as int].operands@.len() > 0,
        ensures
            r.0 == ctx.ops@[self.0.ptr as int].operands@[0],
    {
        Value(ctx.ops[self.0.ptr].operands[0])
    }

    pub fn set_input(&self, ctx: &mut Context, new_value: &Value)
        requires
            old(ctx).wf(),
            old(ctx).valid_op(self.0),
            old(ctx).valid_value(new_value.0),
            old(ctx).ops@[self.0.ptr as int].operands@.len() > 0,
        ensures
            final(ctx).wf(),
            final(ctx).extends(old(ctx)),
            final(ctx).ops@[self.0.ptr as int].operands@ == old(ctx).ops@[self.0.ptr as int].operands@.update(0, new_value.0),
            final(ctx).ops@[self.0.ptr as int].results@ == old(ctx).ops@[self.0.ptr as int].results@,
    {
        Operation(self.0).set_operand(ctx, 0, new_value);
    }

    pub fn clk(&self, ctx: &Context) -> (r: Value)
        requires
            ctx.valid_op(self.0),
            ctx.ops@[self.0.ptr as int].operands@.len() > 1,
        ensures
            r.0 == ctx.ops@[self.0.ptr as int].operands@[1],
    {
        Value(ctx.ops[self.0.ptr].operands[1])
    }

    pub fn set_clk(&self, ctx: &mut Context, new_value: &Value)
        requires
            old(ctx).wf(),
            old(ctx).valid_op(self.0),
            old(ctx).valid_value(new_value.0),
            old(ctx).ops@[self.0.ptr as int].operands@.len() > 1,
        ensures
            final(ctx).wf(),
            final(ctx).extends(old(ctx)),
            final(ctx).ops@[self.0.ptr as int].operands@ == old(ctx).ops@[self.0.ptr as int].operands@.update(1, new_value.0),
            final(ctx).ops@[self.0.ptr as int].results@ == old(ctx).ops@[self.0.ptr as int].results@,
    {
        Operation(self.0).set_operand(ctx, 1, new_value);
    }

    pub fn clock_enable(&self, ctx: &Context) -> (r: Value)
        requires
            ctx.valid_op(self.0),
            ctx.ops@[self.0.ptr as int].operands@.len() > 2,
        ensures
            r.0 == ctx.ops@[self.0.ptr as int].operands@[2],
    {
        Value(ctx.ops[self.0.ptr].operands[2])
    }

    pub fn set_clock_enable(&self, ctx: &mut Context, new_value: &Value)
        requires
            old(ctx).wf(),
            old(ctx).valid_op(self.0),
            old(ctx).valid_value(new_value.0),
            old(ctx).ops@[self.0.ptr as int].operands@.len() > 2,
        ensures
            final(ctx).wf(),
            final(ctx).extends(old(ctx)),
            final(ctx).ops@[self.0.ptr as int].operands@ == old(ctx).ops@[self.0.ptr as int].operands@.update(2, new_value.0),
            final(ctx).ops@[self.0.ptr as int].results@ == old(ctx).ops@[self.0.ptr as int].results@,
    {
        Operation(self.0).set_operand(ctx, 2, new_value);
    }

    pub fn reset(&self, ctx: &Context) -> (r: Value)
        requires
            ctx.valid_op(self.0),
            ctx.ops@[self.0.ptr as int].operands@.len() > 3,
        ensures
            r.0 == ctx.ops@[self.0.ptr as int].operands@[3],
    {
        Value(ctx.ops[self.0.ptr].operands[3])
    }

    pub fn set_reset(&self, ctx: &mut Context, new_value: &Value)
        requires
            old(ctx).wf(),
            old(ctx).valid_op(self.0),
            old(ctx).valid_value(new_value.0),
            old(ctx).ops@[self.0.ptr as int].operands@.len() > 3,
        ensures
            final(ctx).wf(),
            final(ctx).extends(old(ctx)),
            final(ctx).ops@[self.0.ptr as int].operands@ == old(ctx).ops@[self.0.ptr as int].operands@.update(3, new_value.0),
            final(ctx).ops@[self.0.ptr as int].results@ == old(ctx).ops@[self.0.ptr as int].results@,
    {
        Operation(self.0).set_operand(ctx, 3, new_value);
    }

    pub fn reset_value(&self, ctx: &Context) -> (r: Value)
        requires
            ctx.valid_op(self.0),
            ctx.ops@[self.0.ptr as int].operands@.len() > 4,
        ensures
            r.0 == ctx.ops@[self.0.ptr as int].operands@[4],
    {
        Value(ctx.ops[self.0.ptr].operands[4])
    }

    pub fn set_reset_value(&self, ctx: &mut Context, new_value: &Value)
        requires
            old(ctx).wf(),
            old(ctx).valid_op(self.0),
            old(ctx).valid_value(new_value.0),
            old(ctx).ops@[self.0.ptr as int].operands@.len() > 4,
        ensures
            final(ctx).wf(),
            final(ctx).extends(old(ctx)),
            final(ctx).ops@[self.0.ptr as int].operands@ == old(ctx).ops@[self.0.ptr as int].operands@.update(4, new_value.0),
            final(ctx).ops@[self.0.ptr as int].results@ == old(ctx).ops@[self.0.ptr as int].results@,
    {
        Operation(self.0).set_operand(ctx, 4, new_value);
    }

    /// The register's output: its result.
    pub fn output(&self, ctx: &Context) -> (r: Value)
        requires
            ctx.valid_op(self.0),
            ctx.ops@[self.0.ptr as int].results@.len() > 0,
        ensures
            r.0 == ctx.ops@[self.0.ptr as int].results@[0],
    {
        self.result(ctx)
    }

    /// Build a register named `name`; its output has the input's type.
    pub fn build(
        builder: &mut OpBuilder,
        name: &str,
        input: &Value,
        clk: &Value,
        clock_enable: &Value,
        reset: Option<&Value>,
        reset_value: Option<&Value>,
    ) -> (r: Option<CompRegClockEnabledOp>)
        requires
            old(builder).wf(),
            reset is None ==> reset_value is None,
        ensures
            builder_grew(final(builder), old(builder)),
            r is Some <==> (can_place(old(builder)) && old(builder).ctx.valid_value(input.0)
                && old(builder).ctx.valid_value(clk.0) && old(builder).ctx.valid_value(clock_enable.0)
                && opt_valid(&old(builder).ctx, reset) && opt_valid(&old(builder).ctx, reset_value)),
            r matches Some(op) ==> op_shape(&final(builder).ctx, op.0, "seq.compreg.ce"@,
                reg_operands(seq![input.0, clk.0, clock_enable.0], reset, reset_value),
                seq![old(builder).ctx.type_of(input.0)])
                && placed(&final(builder).ctx, &old(builder).ctx, op.0, old(builder).insert_point)
                && final(builder).ctx.ops@[op.0.ptr as int].attributes@.len() == 1
                && has_string_attr(&final(builder).ctx, op.0, 0, "name"@, name@),
    {
        if !check_place(builder) || !builder.ctx.is_valid_value(input) || !builder.ctx.is_valid_value(clk)
            || !builder.ctx.is_valid_value(clock_enable) || !opt_ok(&builder.ctx, reset) || !opt_ok(
            &builder.ctx,
            reset_value,
        ) {
            return None;
        }
        let ty = input.ty(&builder.ctx);
        let ghost old_b = *old(builder);
        let attr = StringAttr::new(&mut builder.ctx, name);
        let mut operands: Vec<Value> = Vec::new();
        operands.push(*input);
        operands.push(*clk);
        operands.push(*clock_enable);
        assert(crate::value::values_raw(operands@) =~= seq![input.0, clk.0, clock_enable.0]);
        let ghost head = operands@;
        push_opt(&mut operands, reset, reset_value);
        let mut results: Vec<Type> = Vec::new();
        results.push(ty);
        let mut attrs: Vec<NamedAttribute> = Vec::new();
        attrs.push(NamedAttribute::new("name", &crate::attr::Attr::as_attribute(&attr)));
        let ghost mid = *builder;
        proof {
            crate::dialect::lemma_grew_keeps(&mid, &old_b);
            assert forall|k: int| 0 <= k < operands@.len() implies mid.ctx.valid_value(#[trigger] operands@[k].0) by {
                if k < head.len() {
                    assert(operands@[k] == head[k]);
                } else {
                    assert(operands@[k] == opt_values(reset, reset_value)[k - head.len()]);
                }
            }
            assert(crate::dialect::all_valid_types(&mid.ctx, results@));
        }
        let r = build_simple::<CompRegClockEnabledOp>(builder, operands.as_slice(), results.as_slice(), attrs);
        proof {
            assert(crate::ty::types_raw(results@) =~= seq![ty.0]);
        }
        r
    }
}

/// A register.
#[derive(Clone, Copy, Debug, PartialEq, Eq, Structural)]
pub struct CompRegOp(pub MlirOperation);

impl NamedOp for CompRegOp {
    open spec fn spec_name() -> Seq<char> {
        "seq.compreg"@
    }

    open spec fn spec_op(&self) -> MlirOperation {
        self.0
    }

    fn operation_name() -> (r: &'static str) {
        "seq.compreg"
    }

    fn wrap_op(raw: MlirOperation) -> (r: CompRegOp) {
        CompRegOp(raw)
    }

    fn as_operation(&self) -> (r: Operation) {
        Operation(self.0)
    }
}

impl CompRegOp {
    /// The single result.
    pub fn result(&self, ctx: &Context) -> (r: Value)
        requires
            ctx.valid_op(self.0),
            ctx.ops@[self.0.ptr as int].results@.len() > 0,
        ensures
            r.0 == ctx.ops@[self.0.ptr as int].results@[0],
    {
        Value(ctx.ops[self.0.ptr].results[0])
    }
}

impl CompRegOp {
    pub fn input(&self, ctx: &Context) -> (r: Value)
        requires
            ctx.valid_op(self.0),
            ctx.ops@[self.0.ptr as int].operands@.len() > 0,
        ensures
            r.0 == ctx.ops@[self.0.ptr as int].operands@[0],
    {
        Value(ctx.ops[self.0.ptr].operands[0])
    }

    pub fn set_input(&self, ctx: &mut Context, new_value: &Value)
        requires
            old(ctx).wf(),
            old(ctx).valid_op(self.0),
            old(ctx).valid_value(new_value.0),
            old(ctx).ops@[self.0.ptr as int].operands@.len() > 0,
        ensures
            final(ctx).wf(),
            final(ctx).extends(old(ctx)),
            final(ctx).ops@[self.0.ptr as int].operands@ == old(ctx).ops@[self.0.ptr as int].operands@.update(0, new_value.0),
            final(ctx).ops@[self.0.ptr as int].results@ == old(ctx).ops@[self.0.ptr as int].results@,
    {
        Operation(self.0).set_operand(ctx, 0, new_value);
    }

    pub fn clk(&self, ctx: &Context) -> (r: Value)
        requires
            ctx.valid_op(self.0),
            ctx.ops@[self.0.ptr as int].operands@.len() > 1,
        ensures
            r.0 == ctx.ops@[self.0.ptr as int].operands@[1],
    {
        Value(ctx.ops[self.0.ptr].operands[1])
    }

    pub fn set_clk(&self, ctx: &mut Context, new_value: &Value)
        requires
            old(ctx).wf(),
            old(ctx).valid_op(self.0),
            old(ctx).valid_value(new_value.0),
            old(ctx).ops@[self.0.ptr as int].operands@.len() > 1,
        ensures
            final(ctx).wf(),
            final(ctx).extends(old(ctx)),
            final(ctx).ops@[self.0.ptr as int].operands@ == old(ctx).ops@[self.0.ptr as int].operands@.update(1, new_value.0),
            final(ctx).ops@[self.0.ptr as int].results@ == old(ctx).ops@[self.0.ptr as int].results@,
    {
        Operation(self.0).set_operand(ctx, 1, new_value);
    }

    pub fn reset(&self, ctx: &Context) -> (r: Value)
        requires
            ctx.valid_op(self.0),
            ctx.ops@[self.0.ptr as int].operands@.len() > 2,
        ensures
            r.0 == ctx.ops@[self.0.ptr as int].operands@[2],
    {
        Value(ctx.ops[self.0.ptr].operands[2])
    }

    pub fn set_reset(&self, ctx: &mut Context, new_value: &Value)
        requires
            old(ctx).wf(),
            old(ctx).valid_op(self.0),
            old(ctx).valid_value(new_value.0),
            old(ctx).ops@[self.0.ptr as int].operands@.len() > 2,
        ensures
            final(ctx).wf(),
            final(ctx).extends(old(ctx)),
            final(ctx).ops@[self.0.ptr as int].operands@ == old(ctx).ops@[self.0.ptr as int].operands@.update(2, new_value.0),
            final(ctx).ops@[self.0.ptr as int].results@ == old(ctx).ops@[self.0.ptr as int].results@,
    {
        Operation(self.0).set_operand(ctx, 2, new_value);
    }

    pub fn reset_value(&self, ctx: &Context) -> (r: Value)
        requires
            ctx.valid_op(self.0),
            ctx.ops@[self.0.ptr as int].operands@.len() > 3,
        ensures
            r.0 == ctx.ops@[self.0.ptr as int].operands@[3],
    {
        Value(ctx.ops[self.0.ptr].operands[3])
    }

    pub fn set_reset_value(&self, ctx: &mut Context, new_value: &Value)
        requires
            old(ctx).wf(),
            old(ctx).valid_op(self.0),
            old(ctx).valid_value(new_value.0),
            old(ctx).ops@[self.0.ptr as int].operands@.len() > 3,
        ensures
            final(ctx).wf(),
            final(ctx).extends(old(ctx)),
            final(ctx).ops@[self.0.ptr as int].operands@ == old(ctx).ops@[self.0.ptr as int].operands@.update(3, new_value.0),
            final(ctx).ops@[self.0.ptr as int].results@ == old(ctx).ops@[self.0.ptr as int].results@,
    {
        Operation(self.0).set_operand(ctx, 3, new_value);
    }

    /// The register's output: its result.
    pub fn output(&self, ctx: &Context) -> (r: Value)
        requires
            ctx.valid_op(self.0),
            ctx.ops@[self.0.ptr as int].results@.len() > 0,
        ensures
            r.0 == ctx.ops@[self.0.ptr as int].results@[0],
    {
        self.result(ctx)
    }

    /// Build a register named `name`; its output has the input's type.
    pub fn build(
        builder: &mut OpBuilder,
        name: &str,
        input: &Value,
        clk: &Value,
        reset: Option<&Value>,
        reset_value: Option<&Value>,
    ) -> (r: Option<CompRegOp>)
        requires
            old(builder).wf(),
            reset is None ==> reset_value is None,
        ensures
            builder_grew(final(builder), old(builder)),
            r is Some <==> (can_place(old(builder)) && old(builder).ctx.valid_value(input.0)
                && old(builder).ctx.valid_value(clk.0)
                && opt_valid(&old(builder).ctx, reset) && opt_valid(&old(builder).ctx, reset_value)),
            r matches Some(op) ==> op_shape(&final(builder).ctx, op.0, "seq.compreg"@,
                reg_operands(seq![input.0, clk.0], reset, reset_value),
                seq![old(builder).ctx.type_of(input.0)])
                && placed(&final(builder).ctx, &old(builder).ctx, op.0, old(builder).insert_point)
                && final(builder).ctx.ops@[op.0.ptr as int].attributes@.len() == 1
                && has_string_attr(&final(builder).ctx, op.0, 0, "name"@, name@),
    {
        if !check_place(builder) || !builder.ctx.is_valid_value(input) || !builder.ctx.is_valid_value(clk)
            || !opt_ok(&builder.ctx, reset) || !opt_ok(&builder.ctx, reset_value) {
            return None;
        }
        let ty = input.ty(&builder.ctx);
        let ghost old_b = *old(builder);
        let attr = StringAttr::new(&mut builder.ctx, name);
        let mut operands: Vec<Value> = Vec::new();
        operands.push(*input);
        operands.push(*clk);
        assert(crate::value::values_raw(operands@) =~= seq![input.0, clk.0]);
        let ghost head = operands@;
        push_opt(&mut operands, reset, reset_value);
        let mut results: Vec<Type> = Vec::new();
        results.push(ty);
        let mut attrs: Vec<NamedAttribute> = Vec::new();
        attrs.push(NamedAttribute::new("name", &crate::attr::Attr::as_attribute(&attr)));
        let ghost mid = *builder;
        proof {
            crate::dialect::lemma_grew_keeps(&mid, &old_b);
            assert forall|k: int| 0 <= k < operands@.len() implies mid.ctx.valid_value(#[trigger] operands@[k].0) by {
                if k < head.len() {
                    assert(operands@[k] == head[k]);
                } else {
                    assert(operands@[k] == opt_values(reset, reset_value)[k - head.len()]);
                }
            }
            assert(crate::dialect::all_valid_types(&mid.ctx, results@));
        }
        let r = build_simple::<CompRegOp>(builder, operands.as_slice(), results.as_slice(), attrs);
        proof {
            assert(crate::ty::types_raw(results@) =~= seq![ty.0]);
        }
        r
    }
}

/// The `seq` dialect.
pub fn dialect() -> (r: crate::context::DialectHandle)
    ensures
        r.namespace@ == "seq"@,
{
    crate::context::DialectHandle::new("seq")
}

} // verus!

//! The top-level `builtin.module` operation.
use vstd::prelude::*;
use crate::block::{Block, Region};
use crate::builder::{placed, placed_grown, OpBuilder};
use crate::context::Context;
use crate::location::Location;
use crate::operation::{op_verifies, op_entry_ok, spec_op_isa, state_ok, NamedOp, Operation, OperationState, SingleBlockOp, SingleRegionOp};
use crate::wrap_raw::MlirOperation;

verus! {

#[derive(Clone, Copy, Debug, PartialEq, Eq, Structural)]
pub struct ModuleOp(pub MlirOperation);

impl NamedOp for ModuleOp {
    open spec fn spec_name() -> Seq<char> {
        "builtin.module"@
    }

    open spec fn spec_op(&self) -> MlirOperation {
        self.0
    }

    fn operation_name() -> (r: &'static str) {
        "builtin.module"
    }

    fn wrap_op(raw: MlirOperation) -> (r: ModuleOp) {
        ModuleOp(raw)
    }

    fn as_operation(&self) -> (r: Operation) {
        Operation(self.0)
    }
}

impl SingleRegionOp for ModuleOp {

}

impl SingleBlockOp for ModuleOp {

}

/// A fresh state for a module: one region holding one empty block.
fn module_state(ctx: &mut Context, loc: &Location) -> (r: OperationState)
    requires
        old(ctx).wf(),
        old(ctx).valid_location(loc.0),
    ensures
        final(ctx).wf(),
        final(ctx).extends(old(ctx)),
        state_ok(final(ctx), &r),
        final(ctx).same_passes(old(ctx)),
        crate::hw::kept_structure(final(ctx), old(ctx)),
        r.name@ == ModuleOp::spec_name(),
        r.loc == *loc,
        r.operands@.len() == 0,
        r.results@.len() == 0,
        r.regions@.len() == 1,
        final(ctx).regions@[r.regions@[0].0.ptr as int].blocks@.len() == 1,
        !r.infer_results,
{
    let region = Region::new(ctx);
    let block = Block::new(ctx);
    let g = *region.get();
    g.append_block(ctx, block);
    let mut state = OperationState::new(ModuleOp::operation_name(), loc);
    state.add_region(region);
    assert(state.regions@[0] == g);
    state
}

impl ModuleOp {
    /// Build an empty module at the builder's insertion point.
    pub fn build(builder: &mut OpBuilder) -> (r: Option<ModuleOp>)
        requires
            old(builder).wf(),
        ensures
            final(builder).wf(),
            final(builder).loc == old(builder).loc,
            final(builder).insert_point == old(builder).insert_point,
            final(builder).ctx.extends(&old(builder).ctx),
            r is Some <==> crate::dialect::can_place(old(builder)),
            r matches Some(op) ==> spec_op_isa::<ModuleOp>(&final(builder).ctx, op.0)
                && crate::dialect::op_operands(&final(builder).ctx, op.0, "builtin.module"@, Seq::empty(), 0)
                && final(builder).ctx.ops@[op.0.ptr as int].loc == old(builder).loc.0
                && final(builder).ctx.ops@[op.0.ptr as int].regions@.len() == 1
                && crate::hw::module_body(&final(builder).ctx, op.0) is Some
                && placed_grown(&final(builder).ctx, &old(builder).ctx, op.0, old(builder).insert_point),
            r is None ==> final(builder).ctx == old(builder).ctx,
    {
        if !crate::dialect::check_place(builder) {
            return None;
        }
        let ghost b0 = *old(builder);
        let loc = builder.loc;
        let state = module_state(&mut builder.ctx, &loc);
        let ghost b1 = *builder;
        proof {
            crate::hw::lemma_kept_place(&b1, &b0);
        }
        let ghost st = state;
        let r = builder.create::<ModuleOp>(state);
        proof {
            if let Some(op) = r {
                assert(crate::operation::regions_raw(st.regions@)[0] == st.regions@[0].0);
                assert(crate::value::values_raw(st.operands@) =~= Seq::<crate::wrap_raw::MlirValue>::empty());
                if let Some(p) = b0.insert_point {
                    assert(b1.ctx.blocks@[p.spec_block().ptr as int] == b0.ctx.blocks@[p.spec_block().ptr as int]);
                }
            }
        }
        r
    }
}

/// A module: the handle of its `builtin.module` operation.
#[derive(Clone, Copy, Debug, PartialEq, Eq, Structural)]
pub struct Module(pub MlirOperation);

impl Module {
    /// A new, empty module owned by the caller.
    pub fn create(ctx: &mut Context, location: &Location) -> (r: Module)
        requires
            old(ctx).wf(),
            old(ctx).valid_location(location.0),
        ensures
            final(ctx).wf(),
            final(ctx).extends(old(ctx)),
            spec_op_isa::<ModuleOp>(final(ctx), r.0),
            final(ctx).ops@[r.0.ptr as int].parent.ptr == 0,
            final(ctx).same_passes(old(ctx)),
            op_verifies(final(ctx), r.0),
    {
        let state = module_state(ctx, location);
        match state.build::<ModuleOp>(ctx) {
            Some(op) => Module(op.0),
            None => Module(MlirOperation { ptr: 0 }),
        }
    }

    /// View an operation as a module, if it is a `builtin.module`.
    pub fn from_op(ctx: &Context, op: &Operation) -> (r: Option<Module>)
        ensures
            r is Some <==> spec_op_isa::<ModuleOp>(ctx, op.0),
            r matches Some(m) ==> m.0 == op.0,
    {
        match op.try_into_op::<ModuleOp>(ctx) {
            Some(m) => Some(Module(m.0)),
            None => None,
        }
    }

    /// The body of the module: the first block of its region.
    pub fn body(&self, ctx: &Context) -> (r: Option<Block>)
        requires
            ctx.valid_op(self.0),
        ensures
            r is Some <==> crate::hw::module_body(ctx, self.0) is Some,
            r matches Some(b) ==> crate::hw::module_body(ctx, self.0) == Some(b.0),
    {
        Operation(self.0).first_block(ctx)
    }

    /// The module as an operation.
    pub fn op(&self) -> (r: ModuleOp)
        ensures
            r.0 == self.0,
    {
        ModuleOp(self.0)
    }
}

} // verus!

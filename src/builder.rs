//! A builder for operations: it owns the store, carries the location given to new
//! operations, and may carry an insertion point where each new operation is placed.
use vstd::prelude::*;
use crate::block::{op_insertable, op_moved_into, Block};
use crate::context::Context;
use crate::location::Location;
use crate::operation::{op_entry_ok, state_ok, NamedOp, Operation, OperationState};
use crate::wrap_raw::{MlirBlock, MlirOperation};

verus! {

/// Where a new operation is placed.
#[derive(Clone, Copy, Debug, PartialEq, Eq, Structural)]
pub enum InsertPoint {
    BlockStart(Block),
    BlockEnd(Block),
    AfterOp(Block, Operation),
    BeforeOp(Block, Operation),
}

impl InsertPoint {
    pub open spec fn spec_block(&self) -> MlirBlock {
        match *self {
            InsertPoint::BlockStart(b) => b.0,
            InsertPoint::BlockEnd(b) => b.0,
            InsertPoint::AfterOp(b, _) => b.0,
            InsertPoint::BeforeOp(b, _) => b.0,
        }
    }

    /// The insertion point names a live block, and the reference operation is in it.
    pub open spec fn spec_ok(&self, ctx: &Context) -> bool {
        &&& ctx.valid_block(self.spec_block())
        &&& match *self {
            InsertPoint::AfterOp(b, o) => ctx.blocks@[b.0.ptr as int].ops@.contains(o.0),
            InsertPoint::BeforeOp(b, o) => ctx.blocks@[b.0.ptr as int].ops@.contains(o.0),
            _ => true,
        }
    }

    /// Position `i` of the block's operations `ops` is where this point inserts.
    pub open spec fn spec_position(&self, ops: Seq<MlirOperation>, i: int) -> bool {
        match *self {
            InsertPoint::BlockStart(_) => i == 0,
            InsertPoint::BlockEnd(_) => i == ops.len(),
            InsertPoint::AfterOp(_, o) => 0 < i <= ops.len() && ops[i - 1] == o.0,
            InsertPoint::BeforeOp(_, o) => 0 <= i < ops.len() && ops[i] == o.0,
        }
    }

    pub fn block(&self) -> (r: Block)
        ensures
            r.0 == self.spec_block(),
    {
        match *self {
            InsertPoint::BlockStart(b) => b,
            InsertPoint::BlockEnd(b) => b,
            InsertPoint::AfterOp(b, _) => b,
            InsertPoint::BeforeOp(b, _) => b,
        }
    }

    /// Whether the insertion point can be used in `ctx`.
    pub fn is_valid(&self, ctx: &Context) -> (r: bool)
        ensures
            r == self.spec_ok(ctx),
    {
        let b = self.block();
        if b.0.ptr == 0 || b.0.ptr >= ctx.blocks.len() || ctx.blocks[b.0.ptr].destroyed {
            return false;
        }
        match *self {
            InsertPoint::AfterOp(b, o) => b.position_of(ctx, &o).is_some(),
            InsertPoint::BeforeOp(b, o) => b.position_of(ctx, &o).is_some(),
            _ => true,
        }
    }
}

/// Where `op` stands in `new` relative to `old`: detached with no insertion point, or
/// moved into the point's block at the point's position.
pub open spec fn placed(new: &Context, old: &Context, op: MlirOperation, ip: Option<InsertPoint>) -> bool {
    match ip {
        None => new.blocks@ == old.blocks@ && new.ops@[op.ptr as int].parent.ptr == 0,
        Some(p) => {
            let b = p.spec_block();
            &&& new.ops@[op.ptr as int].parent == b
            &&& new.blocks@.len() == old.blocks@.len()
            &&& forall|i: int| 0 <= i < old.blocks@.len() && i != b.ptr ==> new.blocks@[i] == #[trigger] old.blocks@[i]
            &&& new.blocks@[b.ptr as int].arguments == old.blocks@[b.ptr as int].arguments
            &&& new.blocks@[b.ptr as int].parent == old.blocks@[b.ptr as int].parent
            &&& new.blocks@[b.ptr as int].destroyed == old.blocks@[b.ptr as int].destroyed
            &&& exists|i: int|
                p.spec_position(old.blocks@[b.ptr as int].ops@, i)
                    && new.blocks@[b.ptr as int].ops@ == old.blocks@[b.ptr as int].ops@.insert(i, op)
        },
    }
}

/// `s` is a fresh state: named `name`, at `loc`, with nothing staged.
pub open spec fn fresh_state(s: OperationState, name: Seq<char>, loc: Location) -> bool {
    &&& s.name@ == name
    &&& s.loc == loc
    &&& s.operands@.len() == 0
    &&& s.results@.len() == 0
    &&& s.attributes@.len() == 0
    &&& s.successors@.len() == 0
    &&& s.regions@.len() == 0
    &&& !s.infer_results
}

/// `s` given the location `loc`.
pub open spec fn at_loc(s: OperationState, loc: Location) -> OperationState {
    OperationState { loc, ..s }
}

/// Where `op` stands in `new`, when other blocks may also have been made since `old`:
/// detached with no insertion point, or moved into the point's block at the point's
/// position.
pub open spec fn placed_grown(new: &Context, old: &Context, op: MlirOperation, ip: Option<InsertPoint>) -> bool {
    match ip {
        None => new.ops@[op.ptr as int].parent.ptr == 0,
        Some(p) => {
            let b = p.spec_block();
            &&& new.ops@[op.ptr as int].parent == b
            &&& exists|i: int|
                #[trigger] p.spec_position(old.blocks@[b.ptr as int].ops@, i)
                    && new.blocks@[b.ptr as int].ops@ == old.blocks@[b.ptr as int].ops@.insert(i, op)
        },
    }
}

pub struct OpBuilder {
    /// The store the builder works on.
    pub ctx: Context,
    /// The location given to new operations.
    pub loc: Location,
    pub insert_point: Option<InsertPoint>,
}

impl OpBuilder {
    pub open spec fn wf(&self) -> bool {
        self.ctx.wf()
    }

    /// A builder on `ctx`, giving new operations an unknown location.
    pub fn new(ctx: Context) -> (r: OpBuilder)
        requires
            ctx.wf(),
        ensures
            r.wf(),
            r.ctx.extends(&ctx),
            r.ctx.valid_location(r.loc.0),
            r.ctx.locations@[r.loc.0.ptr as int] is Unknown,
            r.ctx.same_structure(&ctx),
            r.insert_point is None,
    {
        let mut ctx = ctx;
        let loc = Location::new_unknown(&mut ctx);
        OpBuilder::new_with_loc(ctx, loc)
    }

    /// A builder on `ctx`, giving new operations the location `loc`.
    pub fn new_with_loc(ctx: Context, loc: Location) -> (r: OpBuilder)
        ensures
            r.ctx == ctx,
            r.loc == loc,
            r.insert_point is None,
    {
        OpBuilder { ctx, loc, insert_point: None }
    }

    pub fn context(&self) -> (r: &Context)
        ensures
            *r == self.ctx,
    {
        &self.ctx
    }

    /// Set the location given to new operations.
    pub fn set_loc(&mut self, loc: Location)
        ensures
            final(self).loc == loc,
            final(self).ctx == old(self).ctx,
            final(self).insert_point == old(self).insert_point,
    {
        self.loc = loc;
    }

    /// The location given to new operations.
    pub fn loc(&self) -> (r: &Location)
        ensures
            *r == self.loc,
    {
        &self.loc
    }

    pub fn set_insertion_point(&mut self, insert_point: Option<InsertPoint>)
        ensures
            final(self).insert_point == insert_point,
            final(self).ctx == old(self).ctx,
            final(self).loc == old(self).loc,
    {
        self.insert_point = insert_point;
    }

    /// Move the caller-owned operation `op` to `insert_point`.
    pub fn insert_in(&mut self, op: &Operation, insert_point: &InsertPoint)
        requires
            op_insertable(&old(self).ctx, insert_point.spec_block(), op.0),
            insert_point.spec_ok(&old(self).ctx),
        ensures
            final(self).loc == old(self).loc,
            final(self).insert_point == old(self).insert_point,
            exists|i: int|
                #[trigger] insert_point.spec_position(old(self).ctx.blocks@[insert_point.spec_block().ptr as int].ops@, i)
                    && op_moved_into(&final(self).ctx, &old(self).ctx, op.0, insert_point.spec_block(), i),
    {
        match *insert_point {
            InsertPoint::BlockStart(b) => {
                b.prepend_op(&mut self.ctx, op);
                assert(insert_point.spec_block() == b.0);
                assert(op_moved_into(&self.ctx, &old(self).ctx, op.0, b.0, 0));
                assert(insert_point.spec_position(old(self).ctx.blocks@[b.0.ptr as int].ops@, 0));
            },
            InsertPoint::BlockEnd(b) => {
                b.append_op(&mut self.ctx, op);
                assert(insert_point.spec_position(
                    old(self).ctx.blocks@[b.0.ptr as int].ops@,
                    old(self).ctx.blocks@[b.0.ptr as int].ops@.len() as int,
                ));
            },
            InsertPoint::AfterOp(b, o) => {
                b.insert_op_after(&mut self.ctx, op, &o);
                proof {
                    let ops = old(self).ctx.blocks@[b.0.ptr as int].ops@;
                    let i = choose|i: int|
                        0 <= i < ops.len() && ops[i] == o.0 && op_moved_into(&self.ctx, &old(self).ctx, op.0, b.0, i + 1);
                    assert(insert_point.spec_position(ops, i + 1));
                }
            },
            InsertPoint::BeforeOp(b, o) => {
                b.insert_op_before(&mut self.ctx, op, &o);
                proof {
                    let ops = old(self).ctx.blocks@[b.0.ptr as int].ops@;
                    let i = choose|i: int|
                        0 <= i < ops.len() && ops[i] == o.0 && op_moved_into(&self.ctx, &old(self).ctx, op.0, b.0, i);
                    assert(insert_point.spec_position(ops, i));
                }
            },
        }
    }

    /// Move the caller-owned operation `op` to the insertion point, if one is set.
    pub fn insert(&mut self, op: &Operation)
        requires
            old(self).insert_point matches Some(p) ==> op_insertable(&old(self).ctx, p.spec_block(), op.0)
                && p.spec_ok(&old(self).ctx),
        ensures
            final(self).loc == old(self).loc,
            final(self).insert_point == old(self).insert_point,
            old(self).insert_point is None ==> final(self).ctx == old(self).ctx,
            old(self).insert_point matches Some(p) ==> exists|i: int|
                #[trigger] p.spec_position(old(self).ctx.blocks@[p.spec_block().ptr as int].ops@, i)
                    && op_moved_into(&final(self).ctx, &old(self).ctx, op.0, p.spec_block(), i),
    {
        if let Some(p) = self.insert_point {
            self.insert_in(op, &p);
        }
    }

    /// Make an operation of kind `T` from `state` and place it at the insertion point.
    /// Succeeds exactly when the insertion point (if any) is usable, the state can be
    /// made and has `T`'s name; otherwise nothing changes.
    pub fn create<T: NamedOp>(&mut self, state: OperationState) -> (r: Option<T>)
        requires
            old(self).wf(),
        ensures
            final(self).wf(),
            final(self).loc == old(self).loc,
            final(self).insert_point == old(self).insert_point,
            r is Some <==> ((old(self).insert_point matches Some(p) ==> p.spec_ok(&old(self).ctx))
                && state_ok(&old(self).ctx, &state) && state.name@ == T::spec_name()),
            r matches Some(op) ==> op_entry_ok(&final(self).ctx, &old(self).ctx, &state, op.spec_op())
                && placed(&final(self).ctx, &old(self).ctx, op.spec_op(), old(self).insert_point),
            r is None ==> final(self).ctx == old(self).ctx,
    {
        if let Some(p) = self.insert_point {
            if !p.is_valid(&self.ctx) {
                return None;
            }
        }
        let ghost c0 = self.ctx;
        let ghost st = state;
        let built = state.build::<T>(&mut self.ctx);
        match built {
            None => None,
            Some(op) => {
                let ghost c1 = self.ctx;
                let o = op.as_operation();
                if let Some(p) = self.insert_point {
                    assert(c1.blocks@ == c0.blocks@);
                    self.insert_in(&o, &p);
                    proof {
                        let b = p.spec_block();
                        let i = choose|i: int|
                            p.spec_position(c1.blocks@[b.ptr as int].ops@, i) && op_moved_into(&self.ctx, &c1, o.0, b, i);
                        assert(forall|j: int| 0 <= j < c0.ops@.len() ==> self.ctx.ops@[j] == c1.ops@[j]);
                        assert(self.ctx.ops@[o.0.ptr as int].operands == c1.ops@[o.0.ptr as int].operands);
                    }
                }
                Some(op)
            },
        }
    }

    /// Make an operation of any name from `state` and place it at the insertion point.
    pub fn create_op(&mut self, state: OperationState) -> (r: Option<Operation>)
        requires
            old(self).wf(),
        ensures
            final(self).wf(),
            final(self).loc == old(self).loc,
            final(self).insert_point == old(self).insert_point,
            r is Some <==> ((old(self).insert_point matches Some(p) ==> p.spec_ok(&old(self).ctx))
                && state_ok(&old(self).ctx, &state)),
            r matches Some(op) ==> op_entry_ok(&final(self).ctx, &old(self).ctx, &state, op.0)
                && placed(&final(self).ctx, &old(self).ctx, op.0, old(self).insert_point),
            r is None ==> final(self).ctx == old(self).ctx,
    {
        if let Some(p) = self.insert_point {
            if !p.is_valid(&self.ctx) {
                return None;
            }
        }
        let ghost c0 = self.ctx;
        let built = state.create(&mut self.ctx);
        match built {
            None => None,
            Some(op) => {
                let ghost c1 = self.ctx;
                if let Some(p) = self.insert_point {
                    self.insert_in(&op, &p);
                    proof {
                        let b = p.spec_block();
                        let i = choose|i: int|
                            p.spec_position(c1.blocks@[b.ptr as int].ops@, i) && op_moved_into(&self.ctx, &c1, op.0, b, i);
                        assert(forall|j: int| 0 <= j < c0.ops@.len() ==> self.ctx.ops@[j] == c1.ops@[j]);
                    }
                }
                Some(op)
            },
        }
    }

    /// Build an operation of kind `T`: a fresh state named for `T` at the builder's
    /// location is handed to `with_fn`, which fills it and hands it back; the state is
    /// then given the builder's location again and made and placed as by `create`.
    pub fn build_with<T: NamedOp, F: FnOnce(&OpBuilder, OperationState) -> OperationState>(&mut self, with_fn: F) -> (r: Option<T>)
        requires
            old(self).wf(),
            forall|b: &OpBuilder, s: OperationState| #[trigger] with_fn.requires((b, s)),
        ensures
            final(self).wf(),
            final(self).loc == old(self).loc,
            final(self).insert_point == old(self).insert_point,
            exists|s0: OperationState, s1: OperationState|
                fresh_state(s0, T::spec_name(), old(self).loc) && #[trigger] with_fn.ensures((&*old(self), s0), s1)
                    && (r is Some <==> ((old(self).insert_point matches Some(p) ==> p.spec_ok(&old(self).ctx))
                        && state_ok(&old(self).ctx, &at_loc(s1, old(self).loc)) && s1.name@ == T::spec_name()))
                    && (r matches Some(op) ==> op_entry_ok(&final(self).ctx, &old(self).ctx, &at_loc(s1, old(self).loc), op.spec_op())
                        && placed(&final(self).ctx, &old(self).ctx, op.spec_op(), old(self).insert_point)),
            r is None ==> final(self).ctx == old(self).ctx,
    {
        let state = OperationState::new(T::operation_name(), &self.loc);
        let ghost s0 = state;
        let mut state = with_fn(&*self, state);
        let ghost s1 = state;
        state.loc = self.loc;
        assert(state == at_loc(s1, old(self).loc));
        self.create::<T>(state)
    }

    /// As `build_with`, but `with_fn` may give up by returning `Err`, and then nothing is
    /// made.
    pub fn build_with_failable<T: NamedOp, F: FnOnce(&OpBuilder, OperationState) -> Result<OperationState, ()>>(&mut self, with_fn: F) -> (r: Option<T>)
        requires
            old(self).wf(),
            forall|b: &OpBuilder, s: OperationState| #[trigger] with_fn.requires((b, s)),
        ensures
            final(self).wf(),
            final(self).loc == old(self).loc,
            final(self).insert_point == old(self).insert_point,
            exists|s0: OperationState, res: Result<OperationState, ()>|
                fresh_state(s0, T::spec_name(), old(self).loc) && #[trigger] with_fn.ensures((&*old(self), s0), res)
                    && (r is Some <==> (res is Ok && (old(self).insert_point matches Some(p) ==> p.spec_ok(&old(self).ctx))
                        && state_ok(&old(self).ctx, &at_loc(res->Ok_0, old(self).loc)) && res->Ok_0.name@ == T::spec_name()))
                    && (r matches Some(op) ==> op_entry_ok(&final(self).ctx, &old(self).ctx, &at_loc(res->Ok_0, old(self).loc), op.spec_op())
                        && placed(&final(self).ctx, &old(self).ctx, op.spec_op(), old(self).insert_point)),
            r is None ==> final(self).ctx == old(self).ctx,
    {
        let state = OperationState::new(T::operation_name(), &self.loc);
        let ghost s0 = state;
        let res = with_fn(&*self, state);
        let ghost res0 = res;
        match res {
            Err(_) => None,
            Ok(mut state) => {
                state.loc = self.loc;
                assert(state == at_loc(res0->Ok_0, old(self).loc));
                self.create::<T>(state)
            },
        }
    }
}

} // verus!

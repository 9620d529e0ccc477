//! Blocks and regions, and moving operations and blocks into them.
use vstd::prelude::*;
use crate::context::{BlockData, Context, OpData, RegionData, ValueOwner};
use crate::location::Location;
use crate::operation::Operation;
use crate::owned::{IntoOwned, Owned};
use crate::ty::Type;
use crate::value::{values_raw, Value};
use crate::wrap_raw::{HasRaw, MlirBlock, MlirOperation, MlirRegion, MlirValue, WrapRawPtr};

verus! {

#[derive(Clone, Copy, Debug, PartialEq, Eq, Structural)]
pub struct Block(pub MlirBlock);

#[derive(Clone, Copy, Debug, PartialEq, Eq, Structural)]
pub struct Region(pub MlirRegion);

impl HasRaw for Block {
    type RawType = MlirBlock;

    open spec fn spec_raw(&self) -> MlirBlock {
        self.0
    }

    fn raw(&self) -> (r: MlirBlock) {
        self.0
    }

    fn take_raw(self) -> (r: MlirBlock) {
        self.0
    }
}

impl WrapRawPtr for Block {
    open spec fn spec_is_null(raw: MlirBlock) -> bool {
        raw.ptr == 0
    }

    fn try_from_raw(raw: MlirBlock) -> (r: Option<Block>) {
        if raw.ptr == 0 {
            None
        } else {
            Some(Block(raw))
        }
    }

    fn from_raw(raw: MlirBlock) -> (r: Block) {
        Block(raw)
    }
}

impl HasRaw for Region {
    type RawType = MlirRegion;

    open spec fn spec_raw(&self) -> MlirRegion {
        self.0
    }

    fn raw(&self) -> (r: MlirRegion) {
        self.0
    }

    fn take_raw(self) -> (r: MlirRegion) {
        self.0
    }
}

impl WrapRawPtr for Region {
    open spec fn spec_is_null(raw: MlirRegion) -> bool {
        raw.ptr == 0
    }

    fn try_from_raw(raw: MlirRegion) -> (r: Option<Region>) {
        if raw.ptr == 0 {
            None
        } else {
            Some(Region(raw))
        }
    }

    fn from_raw(raw: MlirRegion) -> (r: Region) {
        Region(raw)
    }
}

/// `new` is `old` with the detached operation `op` moved into block `b` at `pos`.
pub open spec fn op_moved_into(new: &Context, old: &Context, op: MlirOperation, b: MlirBlock, pos: int) -> bool {
    &&& new.wf()
    &&& new.extends(old)
    &&& new.ops@.len() == old.ops@.len()
    &&& forall|i: int| 0 <= i < old.ops@.len() && i != op.ptr ==> new.ops@[i] == #[trigger] old.ops@[i]
    &&& new.ops@[op.ptr as int] == (OpData { parent: b, ..old.ops@[op.ptr as int] })
    &&& new.blocks@.len() == old.blocks@.len()
    &&& forall|i: int| 0 <= i < old.blocks@.len() && i != b.ptr ==> new.blocks@[i] == #[trigger] old.blocks@[i]
    &&& new.blocks@[b.ptr as int] == (BlockData {
        ops: new.blocks@[b.ptr as int].ops,
        ..old.blocks@[b.ptr as int]
    })
    &&& new.blocks@[b.ptr as int].ops@ == old.blocks@[b.ptr as int].ops@.insert(pos, op)
    &&& new.regions@ == old.regions@
    &&& new.same_types_attrs(old)
    &&& new.same_values(old)
    &&& new.same_passes(old)
}

/// Operation `op` may be moved into block `b`: both are alive and nobody owns `op`.
pub open spec fn op_insertable(ctx: &Context, b: MlirBlock, op: MlirOperation) -> bool {
    &&& ctx.wf()
    &&& ctx.valid_block(b)
    &&& ctx.valid_op(op)
    &&& ctx.ops@[op.ptr as int].parent.ptr == 0
}

impl Block {
    pub open spec fn data(&self, ctx: &Context) -> BlockData {
        ctx.blocks@[self.0.ptr as int]
    }

    /// A new block with arguments of the given types and locations, owned by the caller.
    pub fn create(ctx: &mut Context, args_and_locs: &[(Type, Location)]) -> (r: Owned<Block>)
        requires
            old(ctx).wf(),
            forall|k: int| 0 <= k < args_and_locs@.len() ==> old(ctx).valid_type((#[trigger] args_and_locs@[k].0).0),
        ensures
            final(ctx).wf(),
            final(ctx).extends(old(ctx)),
            r.view_inner().0.ptr == old(ctx).blocks@.len(),
            final(ctx).blocks@.len() == old(ctx).blocks@.len() + 1,
            forall|i: int| 0 <= i < old(ctx).blocks@.len() ==> final(ctx).blocks@[i] == old(ctx).blocks@[i],
            r.view_inner().data(final(ctx)).arguments@.len() == args_and_locs@.len(),
            forall|k: int| 0 <= k < args_and_locs@.len() ==> final(ctx).type_of(r.view_inner().data(final(ctx)).arguments@[k]) == ((#[trigger] args_and_locs@[k]).0).0,
            r.view_inner().data(final(ctx)).ops@.len() == 0,
            r.view_inner().data(final(ctx)).parent.ptr == 0,
            !r.view_inner().data(final(ctx)).destroyed,
            final(ctx).same_types_attrs(old(ctx)),
            final(ctx).ops@ == old(ctx).ops@,
            final(ctx).regions@ == old(ctx).regions@,
            final(ctx).same_passes(old(ctx)),
    {
        let b = MlirBlock { ptr: ctx.blocks.len() };
        let mut args: Vec<MlirValue> = Vec::new();
        let ghost c0 = *ctx;
        let mut k: usize = 0;
        while k < args_and_locs.len()
            invariant
                c0.wf(),
                forall|j: int| 0 <= j < args_and_locs@.len() ==> c0.valid_type((#[trigger] args_and_locs@[j].0).0),
                b.ptr == c0.blocks@.len(),
                k <= args_and_locs@.len(),
                args@.len() == k,
                ctx.wf(),
                ctx.extends(&c0),
                ctx.same_types_attrs(&c0),
                ctx.same_structure(&c0),
                ctx.same_passes(&c0),
                forall|j: int| 0 <= j < k ==> ctx.valid_value(#[trigger] args@[j]) && ctx.type_of(args@[j]) == (args_and_locs@[j].0).0,
            decreases args_and_locs@.len() - k,
        {
            let v = ctx.push_value((args_and_locs[k].0).0, ValueOwner::BlockArgument { block: b, pos: k });
            args.push(v);
            k = k + 1;
        }
        ctx.blocks.push(BlockData { arguments: args, ops: Vec::new(), parent: MlirRegion { ptr: 0 }, destroyed: false });
        assert(forall|i: int| 0 <= i < c0.blocks@.len() ==> ctx.blocks@[i] == c0.blocks@[i]);
        Owned::wrap(Block(b))
    }

    /// A new block without arguments, owned by the caller.
    pub fn new(ctx: &mut Context) -> (r: Owned<Block>)
        requires
            old(ctx).wf(),
        ensures
            final(ctx).wf(),
            final(ctx).extends(old(ctx)),
            r.view_inner().0.ptr == old(ctx).blocks@.len(),
            final(ctx).blocks@.len() == old(ctx).blocks@.len() + 1,
            forall|i: int| 0 <= i < old(ctx).blocks@.len() ==> final(ctx).blocks@[i] == old(ctx).blocks@[i],
            r.view_inner().data(final(ctx)).arguments@.len() == 0,
            r.view_inner().data(final(ctx)).ops@.len() == 0,
            r.view_inner().data(final(ctx)).parent.ptr == 0,
            !r.view_inner().data(final(ctx)).destroyed,
            final(ctx).same_types_attrs(old(ctx)),
            final(ctx).ops@ == old(ctx).ops@,
            final(ctx).regions@ == old(ctx).regions@,
            final(ctx).same_passes(old(ctx)),
    {
        let args: Vec<(Type, Location)> = Vec::new();
        Block::create(ctx, args.as_slice())
    }

    /// The region that owns the block, if one does.
    pub fn parent_region(&self, ctx: &Context) -> (r: Option<Region>)
        requires
            ctx.valid_block(self.0),
        ensures
            r is Some <==> self.data(ctx).parent.ptr != 0,
            r matches Some(g) ==> g.0 == self.data(ctx).parent,
    {
        let p = ctx.blocks[self.0.ptr].parent;
        if p.ptr == 0 {
            None
        } else {
            Some(Region(p))
        }
    }

    /// The operation whose region owns the block, if there is one.
    pub fn parent_operation(&self, ctx: &Context) -> (r: Option<Operation>)
        requires
            ctx.valid_block(self.0),
        ensures
            r is Some <==> (self.data(ctx).parent.ptr != 0 && self.data(ctx).parent.ptr < ctx.regions@.len()
                && ctx.regions@[self.data(ctx).parent.ptr as int].parent.ptr != 0),
            r matches Some(o) ==> o.0 == ctx.regions@[self.data(ctx).parent.ptr as int].parent,
    {
        let p = ctx.blocks[self.0.ptr].parent;
        if p.ptr == 0 || p.ptr >= ctx.regions.len() {
            return None;
        }
        let o = ctx.regions[p.ptr].parent;
        if o.ptr == 0 {
            None
        } else {
            Some(Operation(o))
        }
    }

    /// The last operation of the block, if it has one.
    pub fn terminator(&self, ctx: &Context) -> (r: Option<Operation>)
        requires
            ctx.valid_block(self.0),
        ensures
            r is Some <==> self.data(ctx).ops@.len() > 0,
            r matches Some(o) ==> o.0 == self.data(ctx).ops@.last(),
    {
        let n = ctx.blocks[self.0.ptr].ops.len();
        if n == 0 {
            None
        } else {
            Some(Operation(ctx.blocks[self.0.ptr].ops[n - 1]))
        }
    }

    /// The operations of the block, in order.
    pub fn operations(&self, ctx: &Context) -> (r: Vec<Operation>)
        requires
            ctx.valid_block(self.0),
        ensures
            r@.len() == self.data(ctx).ops@.len(),
            forall|k: int| 0 <= k < r@.len() ==> (#[trigger] r@[k]).0 == self.data(ctx).ops@[k],
    {
        let ops = &ctx.blocks[self.0.ptr].ops;
        let mut r: Vec<Operation> = Vec::new();
        let mut k: usize = 0;
        while k < ops.len()
            invariant
                k <= ops@.len(),
                r@.len() == k,
                forall|j: int| 0 <= j < k ==> (#[trigger] r@[j]).0 == ops@[j],
            decreases ops@.len() - k,
        {
            r.push(Operation(ops[k]));
            k = k + 1;
        }
        r
    }

    pub fn num_arguments(&self, ctx: &Context) -> (r: usize)
        requires
            ctx.valid_block(self.0),
        ensures
            r == self.data(ctx).arguments@.len(),
    {
        ctx.blocks[self.0.ptr].arguments.len()
    }

    /// Argument `index`, if there is one.
    pub fn argument(&self, ctx: &Context, index: usize) -> (r: Option<Value>)
        requires
            ctx.valid_block(self.0),
        ensures
            r is Some <==> index < self.data(ctx).arguments@.len(),
            r matches Some(v) ==> v.0 == self.data(ctx).arguments@[index as int],
    {
        if index < ctx.blocks[self.0.ptr].arguments.len() {
            Some(Value(ctx.blocks[self.0.ptr].arguments[index]))
        } else {
            None
        }
    }

    /// All arguments, in order.
    pub fn arguments(&self, ctx: &Context) -> (r: Vec<Value>)
        requires
            ctx.valid_block(self.0),
        ensures
            values_raw(r@) == self.data(ctx).arguments@,
    {
        let args = &ctx.blocks[self.0.ptr].arguments;
        let mut r: Vec<Value> = Vec::new();
        let mut k: usize = 0;
        while k < args.len()
            invariant
                k <= args@.len(),
                r@.len() == k,
                forall|j: int| 0 <= j < k ==> (#[trigger] r@[j]).0 == args@[j],
            decreases args@.len() - k,
        {
            r.push(Value(args[k]));
            k = k + 1;
        }
        assert(values_raw(r@) =~= args@);
        r
    }

    /// Append an argument of type `ty`; returns it.
    pub fn add_argument(&self, ctx: &mut Context, ty: &Type, loc: &Location) -> (r: Value)
        requires
            old(ctx).wf(),
            old(ctx).valid_block(self.0),
            old(ctx).valid_type(ty.0),
        ensures
            final(ctx).wf(),
            final(ctx).extends(old(ctx)),
            final(ctx).type_of(r.0) == ty.0,
            self.data(final(ctx)).arguments@ == self.data(old(ctx)).arguments@.push(r.0),
            self.data(final(ctx)).ops == self.data(old(ctx)).ops,
            self.data(final(ctx)).parent == self.data(old(ctx)).parent,
            final(ctx).blocks@.len() == old(ctx).blocks@.len(),
            forall|i: int| 0 <= i < old(ctx).blocks@.len() && i != self.0.ptr ==> final(ctx).blocks@[i] == old(ctx).blocks@[i],
            final(ctx).ops@ == old(ctx).ops@,
            final(ctx).regions@ == old(ctx).regions@,
            final(ctx).same_types_attrs(old(ctx)),
            final(ctx).same_passes(old(ctx)),
    {
        let pos = ctx.blocks[self.0.ptr].arguments.len();
        let v = ctx.push_value(ty.0, ValueOwner::BlockArgument { block: self.0, pos });
        ctx.blocks[self.0.ptr].arguments.push(v);
        assert(forall|i: int| 0 <= i < old(ctx).blocks@.len() && i != self.0.ptr ==> ctx.blocks@[i] == old(ctx).blocks@[i]);
        Value(v)
    }

    /// Move the caller-owned operation `op` into the block at position `pos`.
    pub fn insert_op_at(&self, ctx: &mut Context, pos: usize, op: &Operation)
        requires
            op_insertable(old(ctx), self.0, op.0),
            pos <= self.data(old(ctx)).ops@.len(),
        ensures
            op_moved_into(final(ctx), old(ctx), op.0, self.0, pos as int),
    {
        ctx.blocks[self.0.ptr].ops.insert(pos, op.0);
        ctx.ops[op.0.ptr].parent = self.0;
        assert(forall|i: int| 0 <= i < old(ctx).ops@.len() && i != op.0.ptr ==> ctx.ops@[i] == old(ctx).ops@[i]);
        assert(forall|i: int| 0 <= i < old(ctx).blocks@.len() && i != self.0.ptr ==> ctx.blocks@[i] == old(ctx).blocks@[i]);
        assert(ctx.ops@[op.0.ptr as int] =~= (OpData { parent: self.0, ..old(ctx).ops@[op.0.ptr as int] }));
    }

    /// Move the caller-owned operation `op` to the end of the block.
    pub fn append_op(&self, ctx: &mut Context, op: &Operation)
        requires
            op_insertable(old(ctx), self.0, op.0),
        ensures
            op_moved_into(final(ctx), old(ctx), op.0, self.0, self.data(old(ctx)).ops@.len() as int),
    {
        let n = ctx.blocks[self.0.ptr].ops.len();
        self.insert_op_at(ctx, n, op);
    }

    /// Move the caller-owned operation `op` to the start of the block.
    pub fn prepend_op(&self, ctx: &mut Context, op: &Operation)
        requires
            op_insertable(old(ctx), self.0, op.0),
        ensures
            op_moved_into(final(ctx), old(ctx), op.0, self.0, 0),
    {
        self.insert_op_at(ctx, 0, op);
    }

    /// Where `ref_op` stands in the block, if it does.
    pub fn position_of(&self, ctx: &Context, ref_op: &Operation) -> (r: Option<usize>)
        requires
            ctx.valid_block(self.0),
        ensures
            r is Some <==> self.data(ctx).ops@.contains(ref_op.0),
            r matches Some(i) ==> i < self.data(ctx).ops@.len() && self.data(ctx).ops@[i as int] == ref_op.0,
    {
        let ops = &ctx.blocks[self.0.ptr].ops;
        let mut k: usize = 0;
        while k < ops.len()
            invariant
                ops@ == self.data(ctx).ops@,
                k <= ops@.len(),
                forall|j: int| 0 <= j < k ==> ops@[j] != ref_op.0,
            decreases ops@.len() - k,
        {
            if ops[k].ptr == ref_op.0.ptr {
                return Some(k);
            }
            k = k + 1;
        }
        None
    }

    /// Move the caller-owned operation `op` right after `ref_op`, which is in the block.
    pub fn insert_op_after(&self, ctx: &mut Context, op: &Operation, ref_op: &Operation)
        requires
            op_insertable(old(ctx), self.0, op.0),
            self.data(old(ctx)).ops@.contains(ref_op.0),
        ensures
            exists|i: int|
                0 <= i < self.data(old(ctx)).ops@.len() && self.data(old(ctx)).ops@[i] == ref_op.0
                    && op_moved_into(final(ctx), old(ctx), op.0, self.0, i + 1),
    {
        let n = ctx.blocks[self.0.ptr].ops.len();
        let i = self.position_of(ctx, ref_op).unwrap();
        self.insert_op_at(ctx, i + 1, op);
    }

    /// Move the caller-owned operation `op` right before `ref_op`, which is in the block.
    pub fn insert_op_before(&self, ctx: &mut Context, op: &Operation, ref_op: &Operation)
        requires
            op_insertable(old(ctx), self.0, op.0),
            self.data(old(ctx)).ops@.contains(ref_op.0),
        ensures
            exists|i: int|
                0 <= i < self.data(old(ctx)).ops@.len() && self.data(old(ctx)).ops@[i] == ref_op.0
                    && op_moved_into(final(ctx), old(ctx), op.0, self.0, i),
    {
        let i = self.position_of(ctx, ref_op).unwrap();
        self.insert_op_at(ctx, i, op);
    }
}

impl Block {
    /// Take the block out of the region that owns it; the caller owns it again.
    pub fn detach(self, ctx: &mut Context) -> (r: Option<Owned<Block>>)
        requires
            old(ctx).wf(),
        ensures
            final(ctx).wf(),
            final(ctx).extends(old(ctx)),
            r is Some <==> (old(ctx).valid_block(self.0) && old(ctx).valid_region(self.data(old(ctx)).parent)
                && old(ctx).regions@[self.data(old(ctx)).parent.ptr as int].blocks@.contains(self.0)),
            r matches Some(o) ==> o.view_inner() == self && o.view_inner().spec_can_destroy(final(ctx))
                && exists|i: int|
                0 <= i < old(ctx).regions@[self.data(old(ctx)).parent.ptr as int].blocks@.len()
                    && old(ctx).regions@[self.data(old(ctx)).parent.ptr as int].blocks@[i] == self.0
                    && final(ctx).regions@[self.data(old(ctx)).parent.ptr as int].blocks@
                    == old(ctx).regions@[self.data(old(ctx)).parent.ptr as int].blocks@.remove(i),
            r is None ==> *final(ctx) == *old(ctx),
    {
        if self.0.ptr == 0 || self.0.ptr >= ctx.blocks.len() || ctx.blocks[self.0.ptr].destroyed {
            return None;
        }
        let g = Region(ctx.blocks[self.0.ptr].parent);
        if g.0.ptr == 0 || g.0.ptr >= ctx.regions.len() || ctx.regions[g.0.ptr].destroyed {
            return None;
        }
        let i = match g.position_of(ctx, &self) {
            Some(i) => i,
            None => {
                return None;
            },
        };
        ctx.regions[g.0.ptr].blocks.remove(i);
        ctx.blocks[self.0.ptr].parent = MlirRegion { ptr: 0 };
        assert(forall|j: int| 0 <= j < old(ctx).blocks@.len() && j != self.0.ptr ==> ctx.blocks@[j] == old(ctx).blocks@[j]);
        Some(Owned::wrap(self))
    }
}

impl IntoOwned for Block {
    open spec fn spec_can_destroy(&self, ctx: &Context) -> bool {
        ctx.valid_block(self.0) && ctx.blocks@[self.0.ptr as int].parent.ptr == 0
    }

    open spec fn spec_destroyed(&self, ctx: &Context) -> bool {
        1 <= self.0.ptr < ctx.blocks@.len() && ctx.blocks@[self.0.ptr as int].destroyed
    }

    fn destroy(&self, ctx: &mut Context) {
        ctx.blocks[self.0.ptr].destroyed = true;
        assert(forall|i: int| 0 <= i < old(ctx).blocks@.len() && i != self.0.ptr ==> ctx.blocks@[i] == old(ctx).blocks@[i]);
    }

    proof fn lemma_destroyed_final(&self, ctx: &Context) {
    }
}

impl IntoOwned for Region {
    open spec fn spec_can_destroy(&self, ctx: &Context) -> bool {
        ctx.valid_region(self.0) && ctx.regions@[self.0.ptr as int].parent.ptr == 0
    }

    open spec fn spec_destroyed(&self, ctx: &Context) -> bool {
        1 <= self.0.ptr < ctx.regions@.len() && ctx.regions@[self.0.ptr as int].destroyed
    }

    fn destroy(&self, ctx: &mut Context) {
        ctx.regions[self.0.ptr].destroyed = true;
    }

    proof fn lemma_destroyed_final(&self, ctx: &Context) {
    }
}

/// `new` is `old` with the detached block `b` moved into region `g` at `pos`.
pub open spec fn block_moved_into(new: &Context, old: &Context, b: MlirBlock, g: MlirRegion, pos: int) -> bool {
    &&& new.wf()
    &&& new.extends(old)
    &&& new.blocks@.len() == old.blocks@.len()
    &&& forall|i: int| 0 <= i < old.blocks@.len() && i != b.ptr ==> new.blocks@[i] == #[trigger] old.blocks@[i]
    &&& new.blocks@[b.ptr as int] == (BlockData { parent: g, ..old.blocks@[b.ptr as int] })
    &&& new.regions@.len() == old.regions@.len()
    &&& forall|i: int| 0 <= i < old.regions@.len() && i != g.ptr ==> new.regions@[i] == #[trigger] old.regions@[i]
    &&& new.regions@[g.ptr as int].blocks@ == old.regions@[g.ptr as int].blocks@.insert(pos, b)
    &&& new.regions@[g.ptr as int].parent == old.regions@[g.ptr as int].parent
    &&& new.regions@[g.ptr as int].destroyed == old.regions@[g.ptr as int].destroyed
    &&& new.ops@ == old.ops@
    &&& new.same_types_attrs(old)
    &&& new.same_values(old)
    &&& new.same_passes(old)
}

impl Region {
    pub open spec fn data(&self, ctx: &Context) -> RegionData {
        ctx.regions@[self.0.ptr as int]
    }

    /// A new empty region, owned by the caller.
    pub fn new(ctx: &mut Context) -> (r: Owned<Region>)
        requires
            old(ctx).wf(),
        ensures
            final(ctx).wf(),
            final(ctx).extends(old(ctx)),
            r.view_inner().0.ptr == old(ctx).regions@.len(),
            final(ctx).regions@.len() == old(ctx).regions@.len() + 1,
            forall|i: int| 0 <= i < old(ctx).regions@.len() ==> final(ctx).regions@[i] == old(ctx).regions@[i],
            r.view_inner().data(final(ctx)).blocks@.len() == 0,
            r.view_inner().data(final(ctx)).parent.ptr == 0,
            !r.view_inner().data(final(ctx)).destroyed,
            final(ctx).ops@ == old(ctx).ops@,
            final(ctx).blocks@ == old(ctx).blocks@,
            final(ctx).same_types_attrs(old(ctx)),
            final(ctx).same_values(old(ctx)),
            final(ctx).same_passes(old(ctx)),
    {
        let g = MlirRegion { ptr: ctx.regions.len() };
        ctx.regions.push(RegionData { blocks: Vec::new(), parent: MlirOperation { ptr: 0 }, destroyed: false });
        assert(forall|i: int| 0 <= i < old(ctx).regions@.len() ==> ctx.regions@[i] == old(ctx).regions@[i]);
        Owned::wrap(Region(g))
    }

    /// Move the caller-owned block into the region at position `pos`; the region owns it
    /// from then on.
    pub fn insert_block(&self, ctx: &mut Context, pos: usize, block: Owned<Block>)
        requires
            old(ctx).wf(),
            old(ctx).valid_region(self.0),
            block.view_inner().spec_can_destroy(old(ctx)),
            pos <= self.data(old(ctx)).blocks@.len(),
        ensures
            block_moved_into(final(ctx), old(ctx), block.view_inner().0, self.0, pos as int),
    {
        let b = block.into_inner();
        ctx.regions[self.0.ptr].blocks.insert(pos, b.0);
        ctx.blocks[b.0.ptr].parent = self.0;
        assert(forall|i: int| 0 <= i < old(ctx).blocks@.len() && i != b.0.ptr ==> ctx.blocks@[i] == old(ctx).blocks@[i]);
        assert(forall|i: int| 0 <= i < old(ctx).regions@.len() && i != self.0.ptr ==> ctx.regions@[i] == old(ctx).regions@[i]);
        assert(ctx.blocks@[b.0.ptr as int] =~= (BlockData { parent: self.0, ..old(ctx).blocks@[b.0.ptr as int] }));
    }

    /// Where `reference` stands in the region, if it does.
    pub fn position_of(&self, ctx: &Context, reference: &Block) -> (r: Option<usize>)
        requires
            ctx.valid_region(self.0),
        ensures
            r is Some <==> self.data(ctx).blocks@.contains(reference.0),
            r matches Some(i) ==> i < self.data(ctx).blocks@.len() && self.data(ctx).blocks@[i as int] == reference.0,
    {
        let bs = &ctx.regions[self.0.ptr].blocks;
        let mut k: usize = 0;
        while k < bs.len()
            invariant
                bs@ == self.data(ctx).blocks@,
                k <= bs@.len(),
                forall|j: int| 0 <= j < k ==> bs@[j] != reference.0,
            decreases bs@.len() - k,
        {
            if bs[k].ptr == reference.0.ptr {
                return Some(k);
            }
            k = k + 1;
        }
        None
    }

    /// Move the caller-owned block right after `reference`, which is in the region.
    pub fn insert_block_after(&self, ctx: &mut Context, reference: &Block, block: Owned<Block>)
        requires
            old(ctx).wf(),
            old(ctx).valid_region(self.0),
            block.view_inner().spec_can_destroy(old(ctx)),
            self.data(old(ctx)).blocks@.contains(reference.0),
        ensures
            exists|i: int|
                0 <= i < self.data(old(ctx)).blocks@.len() && self.data(old(ctx)).blocks@[i] == reference.0
                    && block_moved_into(final(ctx), old(ctx), block.view_inner().0, self.0, i + 1),
    {
        let n = ctx.regions[self.0.ptr].blocks.len();
        let i = self.position_of(ctx, reference).unwrap();
        self.insert_block(ctx, i + 1, block);
    }

    /// Move the caller-owned block right before `reference`, which is in the region.
    pub fn insert_block_before(&self, ctx: &mut Context, reference: &Block, block: Owned<Block>)
        requires
            old(ctx).wf(),
            old(ctx).valid_region(self.0),
            block.view_inner().spec_can_destroy(old(ctx)),
            self.data(old(ctx)).blocks@.contains(reference.0),
        ensures
            exists|i: int|
                0 <= i < self.data(old(ctx)).blocks@.len() && self.data(old(ctx)).blocks@[i] == reference.0
                    && block_moved_into(final(ctx), old(ctx), block.view_inner().0, self.0, i),
    {
        let i = self.position_of(ctx, reference).unwrap();
        self.insert_block(ctx, i, block);
    }

    /// Move the caller-owned block to the end of the region.
    pub fn append_block(&self, ctx: &mut Context, block: Owned<Block>)
        requires
            old(ctx).wf(),
            old(ctx).valid_region(self.0),
            block.view_inner().spec_can_destroy(old(ctx)),
        ensures
            block_moved_into(final(ctx), old(ctx), block.view_inner().0, self.0, self.data(old(ctx)).blocks@.len() as int),
    {
        let n = ctx.regions[self.0.ptr].blocks.len();
        self.insert_block(ctx, n, block);
    }

    /// Move the caller-owned block to the start of the region.
    pub fn prepend_block(&self, ctx: &mut Context, block: Owned<Block>)
        requires
            old(ctx).wf(),
            old(ctx).valid_region(self.0),
            block.view_inner().spec_can_destroy(old(ctx)),
        ensures
            block_moved_into(final(ctx), old(ctx), block.view_inner().0, self.0, 0),
    {
        self.insert_block(ctx, 0, block);
    }

    /// The region that follows this one in its operation, if there is one.
    pub fn next(&self, ctx: &Context) -> (r: Option<Region>)
        requires
            ctx.valid_region(self.0),
        ensures
            r matches Some(g) ==> 1 <= self.data(ctx).parent.ptr < ctx.ops@.len() && exists|i: int|
                0 <= i && i + 1 < ctx.ops@[self.data(ctx).parent.ptr as int].regions@.len()
                    && #[trigger] ctx.ops@[self.data(ctx).parent.ptr as int].regions@[i] == self.0
                    && ctx.ops@[self.data(ctx).parent.ptr as int].regions@[i + 1] == g.0,
            r is None ==> self.data(ctx).parent.ptr == 0 || self.data(ctx).parent.ptr >= ctx.ops@.len()
                || !exists|i: int|
                0 <= i && i + 1 < ctx.ops@[self.data(ctx).parent.ptr as int].regions@.len()
                    && #[trigger] ctx.ops@[self.data(ctx).parent.ptr as int].regions@[i] == self.0,
    {
        let p = ctx.regions[self.0.ptr].parent;
        if p.ptr == 0 || p.ptr >= ctx.ops.len() {
            return None;
        }
        let rs = &ctx.ops[p.ptr].regions;
        let mut i: usize = 0;
        while i < rs.len()
            invariant
                rs@ == ctx.ops@[p.ptr as int].regions@,
                p == self.data(ctx).parent,
                1 <= p.ptr < ctx.ops@.len(),
                i <= rs@.len(),
                forall|j: int| 0 <= j < i && j + 1 < rs@.len() ==> rs@[j] != self.0,
            decreases rs@.len() - i,
        {
            if rs[i].ptr == self.0.ptr && i + 1 < rs.len() {
                return Some(Region(rs[i + 1]));
            }
            i = i + 1;
        }
        None
    }

    /// The first block of the region, if it has one.
    pub fn first_block(&self, ctx: &Context) -> (r: Option<Block>)
        requires
            ctx.valid_region(self.0),
        ensures
            r is Some <==> self.data(ctx).blocks@.len() > 0,
            r matches Some(b) ==> b.0 == self.data(ctx).blocks@[0],
    {
        if ctx.regions[self.0.ptr].blocks.len() == 0 {
            None
        } else {
            Some(Block(ctx.regions[self.0.ptr].blocks[0]))
        }
    }
}

/// Once a region owns a block, the block cannot be destroyed on its own.
pub proof fn lemma_attached_block_not_destroyable(ctx: &Context, block: Block)
    requires
        1 <= block.0.ptr < ctx.blocks@.len(),
        ctx.blocks@[block.0.ptr as int].parent.ptr != 0,
    ensures
        !block.spec_can_destroy(ctx),
{
}

/// An owned entity that was destroyed cannot be destroyed again.
pub proof fn lemma_no_double_destroy<T: IntoOwned>(x: &T, ctx: &Context)
    requires
        x.spec_destroyed(ctx),
    ensures
        !x.spec_can_destroy(ctx),
{
    x.lemma_destroyed_final(ctx);
}

} // verus!

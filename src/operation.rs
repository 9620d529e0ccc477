//! Operations, operation kinds, and the staging record from which an operation is made.
use vstd::prelude::*;
use crate::attr::{Attr, Attribute, NamedAttribute};
use crate::block::{Block, Region};
use crate::context::{Context, LocationData, MlirNamedAttribute, OpData, ValueOwner};
use crate::location::Location;
use crate::owned::{IntoOwned, Owned};
use crate::text::str_eq;
use crate::ty::{chars_comma, list_text, results_text, types_raw, Ty, Type};
use crate::text::{append_decimal, decimal};
use crate::value::{values_raw, Value};
use crate::wrap_raw::{
    HasRaw, MlirBlock, MlirLocation, MlirOperation, MlirRegion, MlirType, MlirValue, WrapRawPtr,
};

verus! {

/// An operation of any kind.
#[derive(Clone, Copy, Debug, PartialEq, Eq, Structural)]
pub struct Operation(pub MlirOperation);

impl HasRaw for Operation {
    type RawType = MlirOperation;

    open spec fn spec_raw(&self) -> MlirOperation {
        self.0
    }

    fn raw(&self) -> (r: MlirOperation) {
        self.0
    }

    fn take_raw(self) -> (r: MlirOperation) {
        self.0
    }
}

impl WrapRawPtr for Operation {
    open spec fn spec_is_null(raw: MlirOperation) -> bool {
        raw.ptr == 0
    }

    fn try_from_raw(raw: MlirOperation) -> (r: Option<Operation>) {
        if raw.ptr == 0 {
            None
        } else {
            Some(Operation(raw))
        }
    }

    fn from_raw(raw: MlirOperation) -> (r: Operation) {
        Operation(raw)
    }
}

/// A kind of operation: the operations with one fully qualified name.
pub trait NamedOp: Sized {
    spec fn spec_name() -> Seq<char>;

    spec fn spec_op(&self) -> MlirOperation;

    /// The full operation name, like `builtin.module`.
    fn operation_name() -> (r: &'static str)
        ensures
            r@ == Self::spec_name(),
    ;

    /// Re-wrap a handle as this kind, without a check.
    fn wrap_op(raw: MlirOperation) -> (r: Self)
        ensures
            r.spec_op() == raw,
    ;

    fn as_operation(&self) -> (r: Operation)
        ensures
            r.0 == self.spec_op(),
    ;
}

/// An operation kind whose operations have a single region.
pub trait SingleRegionOp: NamedOp {

}

/// An operation kind whose operations have a single block in a single region.
pub trait SingleBlockOp: SingleRegionOp {

}

/// The store's structural check of an operation: alive, operands and results name
/// values, successors are live blocks, regions are live and owned by it.
pub open spec fn op_verifies(ctx: &Context, op: MlirOperation) -> bool {
    let d = ctx.ops@[op.ptr as int];
    &&& ctx.valid_op(op)
    &&& forall|k: int| 0 <= k < d.operands@.len() ==> ctx.valid_value(#[trigger] d.operands@[k])
    &&& forall|k: int| 0 <= k < d.results@.len() ==> ctx.valid_value(#[trigger] d.results@[k])
    &&& forall|k: int| 0 <= k < d.successors@.len() ==> ctx.valid_block(#[trigger] d.successors@[k])
    &&& forall|k: int|
        0 <= k < d.regions@.len() ==> ctx.valid_region(#[trigger] d.regions@[k]) && ctx.regions@[d.regions@[k].ptr as int].parent == op
}

/// Operation `op` is alive and is of kind `T`.
pub open spec fn spec_op_isa<T: NamedOp>(ctx: &Context, op: MlirOperation) -> bool {
    ctx.valid_op(op) && ctx.ops@[op.ptr as int].name@ == T::spec_name()
}

/// Whether `op` is of kind `T`.
pub fn op_isa<T: NamedOp>(ctx: &Context, op: &Operation) -> (r: bool)
    ensures
        r == spec_op_isa::<T>(ctx, op.0),
{
    if op.0.ptr == 0 || op.0.ptr >= ctx.ops.len() || ctx.ops[op.0.ptr].destroyed {
        return false;
    }
    str_eq(ctx.ops[op.0.ptr].name.as_str(), T::operation_name())
}

pub open spec fn blocks_raw(l: Seq<Block>) -> Seq<MlirBlock> {
    l.map_values(|b: Block| b.0)
}

pub open spec fn regions_raw(l: Seq<Region>) -> Seq<MlirRegion> {
    l.map_values(|r: Region| r.0)
}

/// Region number `i` is in the list.
pub open spec fn lists_region(l: Seq<MlirRegion>, i: int) -> bool {
    exists|j: int| 0 <= j < l.len() && (#[trigger] l[j]).ptr == i
}

pub open spec fn named_raw(l: Seq<NamedAttribute>) -> Seq<MlirNamedAttribute> {
    l.map_values(|a: NamedAttribute| a.0)
}

impl Operation {
    /// The null operation.
    pub fn null_op() -> (r: Operation)
        ensures
            r.0.ptr == 0,
    {
        Operation(MlirOperation { ptr: 0 })
    }

    pub open spec fn data(&self, ctx: &Context) -> OpData {
        ctx.ops@[self.0.ptr as int]
    }

    /// View the operation as kind `T`, if it is one.
    pub fn try_into_op<T: NamedOp>(self, ctx: &Context) -> (r: Option<T>)
        ensures
            r is Some <==> spec_op_isa::<T>(ctx, self.0),
            r matches Some(t) ==> t.spec_op() == self.0,
    {
        if op_isa::<T>(ctx, &self) {
            Some(T::wrap_op(self.0))
        } else {
            None
        }
    }

    /// The full name of the operation.
    pub fn name(&self, ctx: &Context) -> (r: String)
        requires
            ctx.valid_op(self.0),
        ensures
            r@ == self.data(ctx).name@,
    {
        ctx.ops[self.0.ptr].name.clone()
    }

    pub fn loc(&self, ctx: &Context) -> (r: Location)
        requires
            ctx.valid_op(self.0),
        ensures
            r.0 == self.data(ctx).loc,
    {
        Location(ctx.ops[self.0.ptr].loc)
    }

    /// The block that owns the operation, if one does.
    pub fn parent_block(&self, ctx: &Context) -> (r: Option<Block>)
        requires
            ctx.valid_op(self.0),
        ensures
            r is Some <==> self.data(ctx).parent.ptr != 0,
            r matches Some(b) ==> b.0 == self.data(ctx).parent,
    {
        let p = ctx.ops[self.0.ptr].parent;
        if p.ptr == 0 {
            None
        } else {
            Some(Block(p))
        }
    }

    pub fn num_operands(&self, ctx: &Context) -> (r: usize)
        requires
            ctx.valid_op(self.0),
        ensures
            r == self.data(ctx).operands@.len(),
    {
        ctx.ops[self.0.ptr].operands.len()
    }

    /// Operand `pos`, if there is one.
    pub fn operand(&self, ctx: &Context, pos: usize) -> (r: Option<Value>)
        requires
            ctx.valid_op(self.0),
        ensures
            r is Some <==> pos < self.data(ctx).operands@.len(),
            r matches Some(v) ==> v.0 == self.data(ctx).operands@[pos as int],
    {
        if pos < ctx.ops[self.0.ptr].operands.len() {
            Some(Value(ctx.ops[self.0.ptr].operands[pos]))
        } else {
            None
        }
    }

    /// Replace operand `pos` by `value`.
    pub fn set_operand(&self, ctx: &mut Context, pos: usize, value: &Value)
        requires
            old(ctx).wf(),
            old(ctx).valid_op(self.0),
            old(ctx).valid_value(value.0),
            pos < self.data(old(ctx)).operands@.len(),
        ensures
            final(ctx).wf(),
            final(ctx).extends(old(ctx)),
            final(ctx).ops@.len() == old(ctx).ops@.len(),
            self.data(final(ctx)).operands@ == self.data(old(ctx)).operands@.update(pos as int, value.0),
            self.data(final(ctx)).results@ == self.data(old(ctx)).results@,
            self.data(final(ctx)).parent == self.data(old(ctx)).parent,
            self.data(final(ctx)).destroyed == self.data(old(ctx)).destroyed,
            forall|i: int| 0 <= i < old(ctx).ops@.len() && i != self.0.ptr ==> final(ctx).ops@[i] == old(ctx).ops@[i],
            final(ctx).same_types_attrs(old(ctx)),
            final(ctx).same_values(old(ctx)),
            final(ctx).blocks@ == old(ctx).blocks@,
            final(ctx).regions@ == old(ctx).regions@,
            final(ctx).same_passes(old(ctx)),
    {
        ctx.ops[self.0.ptr].operands.set(pos, value.0);
        assert(forall|i: int| 0 <= i < old(ctx).ops@.len() && i != self.0.ptr ==> ctx.ops@[i] == old(ctx).ops@[i]);
    }

    pub fn num_results(&self, ctx: &Context) -> (r: usize)
        requires
            ctx.valid_op(self.0),
        ensures
            r == self.data(ctx).results@.len(),
    {
        ctx.ops[self.0.ptr].results.len()
    }

    /// Result `pos`, if there is one.
    pub fn result_at(&self, ctx: &Context, pos: usize) -> (r: Option<Value>)
        requires
            ctx.valid_op(self.0),
        ensures
            r is Some <==> pos < self.data(ctx).results@.len(),
            r matches Some(v) ==> v.0 == self.data(ctx).results@[pos as int],
    {
        if pos < ctx.ops[self.0.ptr].results.len() {
            Some(Value(ctx.ops[self.0.ptr].results[pos]))
        } else {
            None
        }
    }

    pub fn num_regions(&self, ctx: &Context) -> (r: usize)
        requires
            ctx.valid_op(self.0),
        ensures
            r == self.data(ctx).regions@.len(),
    {
        ctx.ops[self.0.ptr].regions.len()
    }

    /// Region `pos`, if there is one.
    pub fn region(&self, ctx: &Context, pos: usize) -> (r: Option<Region>)
        requires
            ctx.valid_op(self.0),
        ensures
            r is Some <==> pos < self.data(ctx).regions@.len(),
            r matches Some(g) ==> g.0 == self.data(ctx).regions@[pos as int],
    {
        if pos < ctx.ops[self.0.ptr].regions.len() {
            Some(Region(ctx.ops[self.0.ptr].regions[pos]))
        } else {
            None
        }
    }

    pub fn first_region(&self, ctx: &Context) -> (r: Option<Region>)
        requires
            ctx.valid_op(self.0),
        ensures
            r is Some <==> 0 < self.data(ctx).regions@.len(),
            r matches Some(g) ==> g.0 == self.data(ctx).regions@[0],
    {
        self.region(ctx, 0)
    }

    /// The first block of the first region, if both exist.
    pub fn first_block(&self, ctx: &Context) -> (r: Option<Block>)
        requires
            ctx.valid_op(self.0),
        ensures
            r is Some <==> (0 < self.data(ctx).regions@.len() && 1 <= self.data(ctx).regions@[0].ptr
                < ctx.regions@.len() && ctx.regions@[self.data(ctx).regions@[0].ptr as int].blocks@.len()
                > 0),
            r matches Some(b) ==> b.0 == ctx.regions@[self.data(ctx).regions@[0].ptr as int].blocks@[0],
    {
        match self.first_region(ctx) {
            Some(g) => {
                if g.0.ptr == 0 || g.0.ptr >= ctx.regions.len() {
                    None
                } else if ctx.regions[g.0.ptr].blocks.len() == 0 {
                    None
                } else {
                    Some(Block(ctx.regions[g.0.ptr].blocks[0]))
                }
            },
            None => None,
        }
    }

    pub fn num_successors(&self, ctx: &Context) -> (r: usize)
        requires
            ctx.valid_op(self.0),
        ensures
            r == self.data(ctx).successors@.len(),
    {
        ctx.ops[self.0.ptr].successors.len()
    }

    /// Successor block `pos`, if there is one.
    pub fn successor(&self, ctx: &Context, pos: usize) -> (r: Option<Block>)
        requires
            ctx.valid_op(self.0),
        ensures
            r is Some <==> pos < self.data(ctx).successors@.len(),
            r matches Some(b) ==> b.0 == self.data(ctx).successors@[pos as int],
    {
        if pos < ctx.ops[self.0.ptr].successors.len() {
            Some(Block(ctx.ops[self.0.ptr].successors[pos]))
        } else {
            None
        }
    }

    pub fn num_attributes(&self, ctx: &Context) -> (r: usize)
        requires
            ctx.valid_op(self.0),
        ensures
            r == self.data(ctx).attributes@.len(),
    {
        ctx.ops[self.0.ptr].attributes.len()
    }

    /// Attribute `pos` with its name, if there is one.
    pub fn attribute_at(&self, ctx: &Context, pos: usize) -> (r: Option<NamedAttribute>)
        requires
            ctx.valid_op(self.0),
        ensures
            r is Some <==> pos < self.data(ctx).attributes@.len(),
            r matches Some(a) ==> a.0 == self.data(ctx).attributes@[pos as int],
    {
        if pos < ctx.ops[self.0.ptr].attributes.len() {
            let a = &ctx.ops[self.0.ptr].attributes[pos];
            Some(NamedAttribute(MlirNamedAttribute { name: a.name.clone(), attribute: a.attribute }))
        } else {
            None
        }
    }

    /// The attribute held under `name`: the first one of that name.
    pub fn attribute(&self, ctx: &Context, name: &str) -> (r: Option<Attribute>)
        requires
            ctx.valid_op(self.0),
        ensures
            r is Some <==> exists|k: int|
                0 <= k < self.data(ctx).attributes@.len() && (#[trigger] self.data(
                    ctx,
                ).attributes@[k]).name@ == name@,
            r matches Some(a) ==> exists|k: int|
                0 <= k < self.data(ctx).attributes@.len() && (#[trigger] self.data(
                    ctx,
                ).attributes@[k]).name@ == name@ && self.data(ctx).attributes@[k].attribute == a.0,
    {
        let attrs = &ctx.ops[self.0.ptr].attributes;
        let mut k: usize = 0;
        while k < attrs.len()
            invariant
                attrs@ == self.data(ctx).attributes@,
                k <= attrs@.len(),
                forall|j: int| 0 <= j < k ==> (#[trigger] attrs@[j]).name@ != name@,
            decreases attrs@.len() - k,
        {
            if str_eq(attrs[k].name.as_str(), name) {
                return Some(Attribute(attrs[k].attribute));
            }
            k = k + 1;
        }
        None
    }

    /// The store's structural check of the operation: it is alive, its operands and
    /// results name values, its successors are live blocks, and its regions are live and
    /// owned by it. The dialects' own verification rules belong to the IR library and are
    /// not checked here.
    pub fn verify(&self, ctx: &Context) -> (r: bool)
        requires
            ctx.wf(),
        ensures
            r == op_verifies(ctx, self.0),
    {
        if self.0.ptr == 0 || self.0.ptr >= ctx.ops.len() || ctx.ops[self.0.ptr].destroyed {
            return false;
        }
        let d = &ctx.ops[self.0.ptr];
        let mut k: usize = 0;
        while k < d.successors.len()
            invariant
                d == ctx.ops@[self.0.ptr as int],
                k <= d.successors@.len(),
                forall|j: int| 0 <= j < k ==> ctx.valid_block(#[trigger] d.successors@[j]),
            decreases d.successors@.len() - k,
        {
            let b = d.successors[k];
            if b.ptr == 0 || b.ptr >= ctx.blocks.len() || ctx.blocks[b.ptr].destroyed {
                return false;
            }
            k = k + 1;
        }
        k = 0;
        while k < d.regions.len()
            invariant
                d == ctx.ops@[self.0.ptr as int],
                k <= d.regions@.len(),
                forall|j: int| 0 <= j < k ==> ctx.valid_region(#[trigger] d.regions@[j]) && ctx.regions@[d.regions@[j].ptr as int].parent == self.0,
            decreases d.regions@.len() - k,
        {
            let g = d.regions[k];
            if g.ptr == 0 || g.ptr >= ctx.regions.len() || ctx.regions[g.ptr].destroyed
                || ctx.regions[g.ptr].parent.ptr != self.0.ptr {
                return false;
            }
            k = k + 1;
        }
        true
    }

    /// Whether two handles name the same operation.
    pub fn same_as(&self, other: &Operation) -> (r: bool)
        ensures
            r == (self.0 == other.0),
    {
        self.0.ptr == other.0.ptr
    }
}

impl IntoOwned for Operation {
    open spec fn spec_can_destroy(&self, ctx: &Context) -> bool {
        ctx.valid_op(self.0) && ctx.ops@[self.0.ptr as int].parent.ptr == 0
    }

    open spec fn spec_destroyed(&self, ctx: &Context) -> bool {
        1 <= self.0.ptr < ctx.ops@.len() && ctx.ops@[self.0.ptr as int].destroyed
    }

    fn destroy(&self, ctx: &mut Context) {
        ctx.ops[self.0.ptr].destroyed = true;
        assert(forall|i: int| 0 <= i < old(ctx).ops@.len() && i != self.0.ptr ==> ctx.ops@[i] == old(ctx).ops@[i]);
    }

    proof fn lemma_destroyed_final(&self, ctx: &Context) {
    }
}

/// The staging record of an operation: everything it will hold, collected before one
/// call makes the operation. `build` consumes it, so it cannot be built twice.
pub struct OperationState {
    pub name: String,
    pub loc: Location,
    pub operands: Vec<Value>,
    pub results: Vec<Type>,
    pub attributes: Vec<NamedAttribute>,
    pub successors: Vec<Block>,
    pub regions: Vec<Region>,
    pub infer_results: bool,
}

/// The staged operation can be made in `ctx`: every handle it holds names a live entity,
/// its regions are owned by nobody and appear once, and result inference, if asked for,
/// has no explicit results and an operand to take the type from.
pub open spec fn state_ok(ctx: &Context, st: &OperationState) -> bool {
    &&& ctx.valid_location(st.loc.0)
    &&& forall|k: int| 0 <= k < st.operands@.len() ==> ctx.valid_value(#[trigger] st.operands@[k].0)
    &&& forall|k: int| 0 <= k < st.results@.len() ==> ctx.valid_type(#[trigger] st.results@[k].0)
    &&& forall|k: int| 0 <= k < st.successors@.len() ==> ctx.valid_block(#[trigger] st.successors@[k].0)
    &&& forall|k: int|
        0 <= k < st.regions@.len() ==> ctx.valid_region(#[trigger] st.regions@[k].0) && ctx.regions@[st.regions@[k].0.ptr as int].parent.ptr == 0
    &&& forall|k: int, j: int|
        0 <= k < j < st.regions@.len() ==> (#[trigger] st.regions@[k]).0 != (#[trigger] st.regions@[j]).0
    &&& st.infer_results ==> st.results@.len() == 0 && st.operands@.len() > 0
}

/// The result types the operation gets: the staged ones, or, with inference, the type
/// of the first operand. The latter is this store's own inference rule (same type as the
/// first operand); the IR library's per-operation inference rules are not held here.
pub open spec fn result_types(ctx: &Context, st: &OperationState) -> Seq<MlirType> {
    if st.infer_results {
        seq![ctx.type_of(st.operands@[0].0)]
    } else {
        types_raw(st.results@)
    }
}

/// `new` holds operation `op` made from `st` in `old`: a new entry, holding what was
/// staged in order, with fresh result values; its regions now belong to it. Nothing else
/// changed, but for the ownership records of blocks.
pub open spec fn op_entry_ok(new: &Context, old: &Context, st: &OperationState, op: MlirOperation) -> bool {
    let d = new.ops@[op.ptr as int];
    let rt = result_types(old, st);
    &&& new.wf()
    &&& new.extends(old)
    &&& op.ptr == old.ops@.len()
    &&& new.ops@.len() == old.ops@.len() + 1
    &&& forall|i: int| 0 <= i < old.ops@.len() ==> new.ops@[i] == #[trigger] old.ops@[i]
    &&& d.name@ == st.name@
    &&& d.loc == st.loc.0
    &&& d.operands@ == values_raw(st.operands@)
    &&& d.results@.len() == rt.len()
    &&& forall|k: int|
        0 <= k < rt.len() ==> (#[trigger] d.results@[k]).ptr == old.values@.len() + k && new.type_of(
            d.results@[k],
        ) == rt[k]
    &&& d.attributes@ == named_raw(st.attributes@)
    &&& d.successors@ == blocks_raw(st.successors@)
    &&& d.regions@ == regions_raw(st.regions@)
    &&& !d.destroyed
    &&& new.types@ == old.types@
    &&& new.attrs@ == old.attrs@
    &&& new.locations@ == old.locations@
    &&& new.values@.len() == old.values@.len() + rt.len()
    &&& new.regions@.len() == old.regions@.len()
    &&& forall|i: int|
        0 <= i < old.regions@.len() ==> (#[trigger] new.regions@[i]).blocks == old.regions@[i].blocks
            && new.regions@[i].destroyed == old.regions@[i].destroyed && new.regions@[i].parent == if lists_region(regions_raw(st.regions@), i) {
            op
        } else {
            old.regions@[i].parent
        }
    &&& new.blocks@.len() == old.blocks@.len()
    &&& new.same_passes(old)
}

fn check_state(ctx: &Context, st: &OperationState) -> (r: bool)
    ensures
        r == state_ok(ctx, st),
{
    if st.loc.0.ptr == 0 || st.loc.0.ptr >= ctx.locations.len() {
        return false;
    }
    let mut k: usize = 0;
    while k < st.operands.len()
        invariant
            k <= st.operands@.len(),
            forall|j: int| 0 <= j < k ==> ctx.valid_value(#[trigger] st.operands@[j].0),
        decreases st.operands@.len() - k,
    {
        let v = st.operands[k].0;
        if v.ptr == 0 || v.ptr >= ctx.values.len() {
            return false;
        }
        k = k + 1;
    }
    k = 0;
    while k < st.results.len()
        invariant
            k <= st.results@.len(),
            forall|j: int| 0 <= j < k ==> ctx.valid_type(#[trigger] st.results@[j].0),
        decreases st.results@.len() - k,
    {
        let t = st.results[k].0;
        if t.ptr == 0 || t.ptr >= ctx.types.len() {
            return false;
        }
        k = k + 1;
    }
    k = 0;
    while k < st.successors.len()
        invariant
            k <= st.successors@.len(),
            forall|j: int| 0 <= j < k ==> ctx.valid_block(#[trigger] st.successors@[j].0),
        decreases st.successors@.len() - k,
    {
        let b = st.successors[k].0;
        if b.ptr == 0 || b.ptr >= ctx.blocks.len() || ctx.blocks[b.ptr].destroyed {
            return false;
        }
        k = k + 1;
    }
    k = 0;
    while k < st.regions.len()
        invariant
            k <= st.regions@.len(),
            forall|j: int|
                0 <= j < k ==> ctx.valid_region(#[trigger] st.regions@[j].0) && ctx.regions@[st.regions@[j].0.ptr as int].parent.ptr == 0,
            forall|i: int, j: int|
                0 <= i < j < k ==> (#[trigger] st.regions@[i]).0 != (#[trigger] st.regions@[j]).0,
        decreases st.regions@.len() - k,
    {
        let g = st.regions[k].0;
        if g.ptr == 0 || g.ptr >= ctx.regions.len() || ctx.regions[g.ptr].destroyed
            || ctx.regions[g.ptr].parent.ptr != 0 {
            return false;
        }
        let mut i: usize = 0;
        while i < k
            invariant
                k < st.regions@.len(),
                i <= k,
                g == st.regions@[k as int].0,
                forall|j: int| 0 <= j < i ==> (#[trigger] st.regions@[j]).0 != g,
            decreases k - i,
        {
            if st.regions[i].0.ptr == g.ptr {
                return false;
            }
            i = i + 1;
        }
        k = k + 1;
    }
    if st.infer_results && (st.results.len() != 0 || st.operands.len() == 0) {
        return false;
    }
    true
}

impl OperationState {
    /// An empty staging record for an operation named `name` at `loc`.
    pub fn new(name: &str, loc: &Location) -> (r: OperationState)
        ensures
            r.name@ == name@,
            r.loc == *loc,
            r.operands@.len() == 0,
            r.results@.len() == 0,
            r.attributes@.len() == 0,
            r.successors@.len() == 0,
            r.regions@.len() == 0,
            !r.infer_results,
    {
        OperationState {
            name: String::from_str(name),
            loc: *loc,
            operands: Vec::new(),
            results: Vec::new(),
            attributes: Vec::new(),
            successors: Vec::new(),
            regions: Vec::new(),
            infer_results: false,
        }
    }

    /// Staged region `idx`, if there is one.
    pub fn region(&self, idx: usize) -> (r: Option<Region>)
        ensures
            r is Some <==> idx < self.regions@.len(),
            r matches Some(g) ==> g == self.regions@[idx as int],
    {
        if idx < self.regions.len() {
            Some(self.regions[idx])
        } else {
            None
        }
    }

    /// Ask for the result types to be inferred. Results must then not be added.
    pub fn enable_result_type_inference(&mut self)
        ensures
            final(self).infer_results,
            final(self).name == old(self).name,
            final(self).loc == old(self).loc,
            final(self).operands == old(self).operands,
            final(self).results == old(self).results,
            final(self).attributes == old(self).attributes,
            final(self).successors == old(self).successors,
            final(self).regions == old(self).regions,
    {
        self.infer_results = true;
    }

    pub fn add_result<T: Ty>(&mut self, ty: &T)
        ensures
            final(self).results@ == old(self).results@.push(Type(ty.spec_type())),
            final(self).operands == old(self).operands,
            final(self).name == old(self).name,
            final(self).loc == old(self).loc,
            final(self).attributes == old(self).attributes,
            final(self).successors == old(self).successors,
            final(self).regions == old(self).regions,
            final(self).infer_results == old(self).infer_results,
    {
        self.results.push(ty.as_type());
    }

    pub fn add_results(&mut self, types: &[Type])
        ensures
            final(self).results@ == old(self).results@ + types@,
            final(self).operands == old(self).operands,
            final(self).name == old(self).name,
            final(self).loc == old(self).loc,
            final(self).attributes == old(self).attributes,
            final(self).successors == old(self).successors,
            final(self).regions == old(self).regions,
            final(self).infer_results == old(self).infer_results,
    {
        let ghost r0 = self.results@;
        let mut k: usize = 0;
        while k < types.len()
            invariant
                k <= types@.len(),
                self.results@ == r0 + types@.take(k as int),
                self.operands == old(self).operands,
                self.name == old(self).name,
                self.loc == old(self).loc,
                self.attributes == old(self).attributes,
                self.successors == old(self).successors,
                self.regions == old(self).regions,
                self.infer_results == old(self).infer_results,
            decreases types@.len() - k,
        {
            self.results.push(types[k]);
            assert(r0 + types@.take(k + 1) =~= (r0 + types@.take(k as int)).push(types@[k as int]));
            k = k + 1;
        }
        assert(types@.take(types@.len() as int) =~= types@);
    }

    pub fn add_operand(&mut self, value: &Value)
        ensures
            final(self).operands@ == old(self).operands@.push(*value),
            final(self).results == old(self).results,
            final(self).name == old(self).name,
            final(self).loc == old(self).loc,
            final(self).attributes == old(self).attributes,
            final(self).successors == old(self).successors,
            final(self).regions == old(self).regions,
            final(self).infer_results == old(self).infer_results,
    {
        self.operands.push(*value);
    }

    pub fn add_operands(&mut self, values: &[Value])
        ensures
            final(self).operands@ == old(self).operands@ + values@,
            final(self).results == old(self).results,
            final(self).name == old(self).name,
            final(self).loc == old(self).loc,
            final(self).attributes == old(self).attributes,
            final(self).successors == old(self).successors,
            final(self).regions == old(self).regions,
            final(self).infer_results == old(self).infer_results,
    {
        let ghost o0 = self.operands@;
        let mut k: usize = 0;
        while k < values.len()
            invariant
                k <= values@.len(),
                self.operands@ == o0 + values@.take(k as int),
                self.results == old(self).results,
                self.name == old(self).name,
                self.loc == old(self).loc,
                self.attributes == old(self).attributes,
                self.successors == old(self).successors,
                self.regions == old(self).regions,
                self.infer_results == old(self).infer_results,
            decreases values@.len() - k,
        {
            self.operands.push(values[k]);
            assert(o0 + values@.take(k + 1) =~= (o0 + values@.take(k as int)).push(values@[k as int]));
            k = k + 1;
        }
        assert(values@.take(values@.len() as int) =~= values@);
    }

    /// Stage the attribute `attr` under `name`.
    pub fn add_attribute<A: Attr>(&mut self, name: &str, attr: &A)
        ensures
            final(self).attributes@.len() == old(self).attributes@.len() + 1,
            forall|k: int| 0 <= k < old(self).attributes@.len() ==> final(self).attributes@[k] == old(self).attributes@[k],
            final(self).attributes@.last().0.name@ == name@,
            final(self).attributes@.last().0.attribute == attr.spec_attr(),
            final(self).operands == old(self).operands,
            final(self).results == old(self).results,
            final(self).name == old(self).name,
            final(self).loc == old(self).loc,
            final(self).successors == old(self).successors,
            final(self).regions == old(self).regions,
            final(self).infer_results == old(self).infer_results,
    {
        self.attributes.push(NamedAttribute::new(name, &attr.as_attribute()));
    }

    pub fn add_attributes(&mut self, attrs: &[NamedAttribute])
        ensures
            named_raw(final(self).attributes@) == named_raw(old(self).attributes@) + named_raw(attrs@),
            final(self).operands == old(self).operands,
            final(self).results == old(self).results,
            final(self).name == old(self).name,
            final(self).loc == old(self).loc,
            final(self).successors == old(self).successors,
            final(self).regions == old(self).regions,
            final(self).infer_results == old(self).infer_results,
    {
        let ghost a0 = named_raw(self.attributes@);
        let mut k: usize = 0;
        assert(named_raw(attrs@.take(0)) =~= Seq::<MlirNamedAttribute>::empty());
        assert(a0 + Seq::<MlirNamedAttribute>::empty() =~= a0);
        while k < attrs.len()
            invariant
                k <= attrs@.len(),
                named_raw(self.attributes@) == a0 + named_raw(attrs@.take(k as int)),
                self.operands == old(self).operands,
                self.results == old(self).results,
                self.name == old(self).name,
                self.loc == old(self).loc,
                self.successors == old(self).successors,
                self.regions == old(self).regions,
                self.infer_results == old(self).infer_results,
            decreases attrs@.len() - k,
        {
            let a = NamedAttribute(attrs[k].raw());
            let ghost before = self.attributes@;
            self.attributes.push(a);
            assert(named_raw(self.attributes@) =~= named_raw(before).push(attrs@[k as int].0));
            assert(named_raw(attrs@.take(k + 1)) =~= named_raw(attrs@.take(k as int)).push(attrs@[k as int].0));
            assert(a0 + named_raw(attrs@.take(k + 1)) =~= (a0 + named_raw(attrs@.take(k as int))).push(attrs@[k as int].0));
            k = k + 1;
        }
        assert(attrs@.take(attrs@.len() as int) =~= attrs@);
    }

    pub fn add_successor(&mut self, block: &Block)
        ensures
            final(self).successors@ == old(self).successors@.push(*block),
            final(self).operands == old(self).operands,
            final(self).results == old(self).results,
            final(self).name == old(self).name,
            final(self).loc == old(self).loc,
            final(self).attributes == old(self).attributes,
            final(self).regions == old(self).regions,
            final(self).infer_results == old(self).infer_results,
    {
        self.successors.push(*block);
    }

    /// Stage a region; the state takes it over, and the operation will own it.
    pub fn add_region(&mut self, region: Owned<Region>)
        ensures
            final(self).regions@ == old(self).regions@.push(region.view_inner()),
            final(self).operands == old(self).operands,
            final(self).results == old(self).results,
            final(self).name == old(self).name,
            final(self).loc == old(self).loc,
            final(self).attributes == old(self).attributes,
            final(self).successors == old(self).successors,
            final(self).infer_results == old(self).infer_results,
    {
        self.regions.push(region.into_inner());
    }

    /// Stage several regions, in order.
    pub fn add_regions(&mut self, regions: Vec<Owned<Region>>)
        ensures
            final(self).regions@.len() == old(self).regions@.len() + regions@.len(),
            forall|k: int| 0 <= k < old(self).regions@.len() ==> final(self).regions@[k] == old(self).regions@[k],
            forall|k: int| 0 <= k < regions@.len() ==> final(self).regions@[old(self).regions@.len() + k] == (#[trigger] regions@[k]).view_inner(),
            final(self).operands == old(self).operands,
            final(self).results == old(self).results,
            final(self).name == old(self).name,
            final(self).loc == old(self).loc,
            final(self).attributes == old(self).attributes,
            final(self).successors == old(self).successors,
            final(self).infer_results == old(self).infer_results,
    {
        let ghost g0 = self.regions@;
        let ghost all = regions@;
        let mut rest = regions;
        let mut taken: Vec<Region> = Vec::new();
        while rest.len() > 0
            invariant
                all.len() == taken@.len() + rest@.len(),
                forall|k: int| 0 <= k < rest@.len() ==> (#[trigger] rest@[k]) == all[k],
                forall|k: int| 0 <= k < taken@.len() ==> (#[trigger] taken@[k]) == all[all.len() - 1 - k].view_inner(),
            decreases rest@.len(),
        {
            let g = rest.pop().unwrap();
            taken.push(g.into_inner());
        }
        let mut k: usize = taken.len();
        while k > 0
            invariant
                k <= taken@.len(),
                all.len() == taken@.len(),
                forall|j: int| 0 <= j < taken@.len() ==> (#[trigger] taken@[j]) == all[all.len() - 1 - j].view_inner(),
                self.regions@.len() == g0.len() + (taken@.len() - k),
                forall|j: int| 0 <= j < g0.len() ==> self.regions@[j] == g0[j],
                forall|j: int| 0 <= j < taken@.len() - k ==> self.regions@[g0.len() + j] == (#[trigger] all[j]).view_inner(),
                self.operands == old(self).operands,
                self.results == old(self).results,
                self.name == old(self).name,
                self.loc == old(self).loc,
                self.attributes == old(self).attributes,
                self.successors == old(self).successors,
                self.infer_results == old(self).infer_results,
            decreases k,
        {
            k = k - 1;
            self.regions.push(taken[k]);
        }
    }

    /// Make the operation, of any name: one step that either creates it from everything
    /// staged, or, when the state cannot be made (see `state_ok`), changes nothing.
    pub fn create(self, ctx: &mut Context) -> (r: Option<Operation>)
        requires
            old(ctx).wf(),
        ensures
            r is Some <==> state_ok(old(ctx), &self),
            r matches Some(op) ==> op_entry_ok(final(ctx), old(ctx), &self, op.0)
                && final(ctx).blocks@ == old(ctx).blocks@ && final(ctx).ops@[op.0.ptr as int].parent.ptr == 0,
            r is None ==> *final(ctx) == *old(ctx),
    {
        if !check_state(ctx, &self) {
            return None;
        }
        let ghost c0 = *ctx;
        let n = ctx.ops.len();
        let op = MlirOperation { ptr: n };
        let mut rtys: Vec<MlirType> = Vec::new();
        if self.infer_results {
            rtys.push(ctx.values[self.operands[0].0.ptr].ty);
        } else {
            let mut k: usize = 0;
            while k < self.results.len()
                invariant
                    k <= self.results@.len(),
                    rtys@.len() == k,
                    forall|j: int| 0 <= j < k ==> #[trigger] rtys@[j] == self.results@[j].0,
                decreases self.results@.len() - k,
            {
                rtys.push(self.results[k].0);
                k = k + 1;
            }
        }
        assert(rtys@ =~= result_types(&c0, &self));
        let mut res: Vec<MlirValue> = Vec::new();
        let mut k: usize = 0;
        while k < rtys.len()
            invariant
                c0.wf(),
                state_ok(&c0, &self),
                n == c0.ops@.len(),
                rtys@ == result_types(&c0, &self),
                forall|j: int| 0 <= j < rtys@.len() ==> c0.valid_type(#[trigger] rtys@[j]),
                k <= rtys@.len(),
                res@.len() == k,
                ctx.wf(),
                ctx.extends(&c0),
                ctx.same_types_attrs(&c0),
                ctx.same_structure(&c0),
                ctx.same_passes(&c0),
                ctx.values@.len() == c0.values@.len() + k,
                forall|j: int| 0 <= j < k ==> (#[trigger] res@[j]).ptr == c0.values@.len() + j && ctx.type_of(res@[j]) == rtys@[j],
            decreases rtys@.len() - k,
        {
            let v = ctx.push_value(rtys[k], ValueOwner::OpResult { op, pos: k });
            res.push(v);
            k = k + 1;
        }
        let mut operands: Vec<MlirValue> = Vec::new();
        k = 0;
        while k < self.operands.len()
            invariant
                k <= self.operands@.len(),
                operands@.len() == k,
                forall|j: int| 0 <= j < k ==> #[trigger] operands@[j] == self.operands@[j].0,
            decreases self.operands@.len() - k,
        {
            operands.push(self.operands[k].0);
            k = k + 1;
        }
        assert(operands@ =~= values_raw(self.operands@));
        let mut attributes: Vec<MlirNamedAttribute> = Vec::new();
        k = 0;
        while k < self.attributes.len()
            invariant
                k <= self.attributes@.len(),
                attributes@.len() == k,
                forall|j: int| 0 <= j < k ==> #[trigger] attributes@[j] == self.attributes@[j].0,
            decreases self.attributes@.len() - k,
        {
            attributes.push(self.attributes[k].raw());
            k = k + 1;
        }
        assert(attributes@ =~= named_raw(self.attributes@));
        let mut successors: Vec<MlirBlock> = Vec::new();
        k = 0;
        while k < self.successors.len()
            invariant
                k <= self.successors@.len(),
                successors@.len() == k,
                forall|j: int| 0 <= j < k ==> #[trigger] successors@[j] == self.successors@[j].0,
            decreases self.successors@.len() - k,
        {
            successors.push(self.successors[k].0);
            k = k + 1;
        }
        assert(successors@ =~= blocks_raw(self.successors@));
        let mut regions: Vec<MlirRegion> = Vec::new();
        k = 0;
        while k < self.regions.len()
            invariant
                k <= self.regions@.len(),
                regions@.len() == k,
                forall|j: int| 0 <= j < k ==> #[trigger] regions@[j] == self.regions@[j].0,
            decreases self.regions@.len() - k,
        {
            regions.push(self.regions[k].0);
            k = k + 1;
        }
        assert(regions@ =~= regions_raw(self.regions@));
        let ghost c1 = *ctx;
        let ghost st = self;
        ctx.ops.push(
            OpData {
                name: self.name,
                loc: self.loc.0,
                operands,
                results: res,
                attributes,
                successors,
                regions,
                parent: MlirBlock { ptr: 0 },
                destroyed: false,
            },
        );
        assert(forall|i: int| 0 <= i < n ==> ctx.ops@[i] == c1.ops@[i]);
        assert(ctx.wf());
        let ghost c2 = *ctx;
        assert(c2.ops@[n as int].regions@ == regions_raw(st.regions@));
        let mut k: usize = 0;
        while k < ctx.ops[n].regions.len()
            invariant
                n < c2.ops@.len(),
                c2.ops@[n as int].regions@ == regions_raw(st.regions@),
                state_ok(&c0, &st),
                c2.wf(),
                ctx.wf(),
                ctx.types@ == c2.types@,
                ctx.attrs@ == c2.attrs@,
                ctx.locations@ == c2.locations@,
                ctx.values@ == c2.values@,
                ctx.ops@ == c2.ops@,
                ctx.blocks@ == c2.blocks@,
                ctx.same_passes(&c2),
                c2.regions@ == c0.regions@,
                k <= st.regions@.len(),
                ctx.regions@.len() == c0.regions@.len(),
                forall|i: int|
                    0 <= i < c0.regions@.len() ==> (#[trigger] ctx.regions@[i]).blocks == c0.regions@[i].blocks
                        && ctx.regions@[i].destroyed == c0.regions@[i].destroyed && ctx.regions@[i].parent
                        == if lists_region(regions_raw(st.regions@).take(k as int), i) {
                        op
                    } else {
                        c0.regions@[i].parent
                    },
            decreases st.regions@.len() - k,
        {
            let g = ctx.ops[n].regions[k];
            assert(g == st.regions@[k as int].0);
            ctx.regions[g.ptr].parent = op;
            proof {
                let rr = regions_raw(st.regions@);
                assert(rr.take(k + 1) =~= rr.take(k as int).push(g));
                assert forall|i: int| 0 <= i < c0.regions@.len() implies (#[trigger] ctx.regions@[i]).parent
                    == if lists_region(rr.take(k + 1), i) {
                    op
                } else {
                    c0.regions@[i].parent
                } by {
                    if i == g.ptr {
                        assert(rr.take(k + 1)[k as int] == g);
                        assert(lists_region(rr.take(k + 1), i));
                    } else {
                        let t1 = rr.take(k + 1);
                        let t0 = rr.take(k as int);
                        if lists_region(t1, i) {
                            let j = choose|j: int| 0 <= j < t1.len() && (#[trigger] t1[j]).ptr == i;
                            assert(j != k);
                            assert(t0[j].ptr == i);
                        }
                        if lists_region(t0, i) {
                            let j = choose|j: int| 0 <= j < t0.len() && (#[trigger] t0[j]).ptr == i;
                            assert(t1[j].ptr == i);
                        }
                    }
                }
            }
            k = k + 1;
        }
        assert(regions_raw(st.regions@).take(st.regions@.len() as int) =~= regions_raw(st.regions@));
        Some(Operation(op))
    }

    /// Make the operation as kind `T`. Fails, changing nothing, when the staged name is
    /// not `T`'s or the state cannot be made.
    pub fn build<T: NamedOp>(self, ctx: &mut Context) -> (r: Option<T>)
        requires
            old(ctx).wf(),
        ensures
            r is Some <==> (state_ok(old(ctx), &self) && self.name@ == T::spec_name()),
            r matches Some(op) ==> op_entry_ok(final(ctx), old(ctx), &self, op.spec_op())
                && final(ctx).blocks@ == old(ctx).blocks@ && final(ctx).ops@[op.spec_op().ptr as int].parent.ptr == 0,
            r is None ==> *final(ctx) == *old(ctx),
    {
        if !str_eq(self.name.as_str(), T::operation_name()) {
            return None;
        }
        match self.create(ctx) {
            Some(op) => Some(T::wrap_op(op.0)),
            None => None,
        }
    }
}

/// What a built operation holds at each operand position is what was staged there.
pub proof fn lemma_operand_positions(new: &Context, old: &Context, st: &OperationState, op: MlirOperation)
    requires
        op_entry_ok(new, old, st, op),
    ensures
        new.ops@[op.ptr as int].operands@.len() == st.operands@.len(),
        forall|k: int| 0 <= k < st.operands@.len() ==> new.ops@[op.ptr as int].operands@[k] == (#[trigger] st.operands@[k]).0,
{
}

/// A region that an operation was built with belongs to it, so no later state that
/// stages it again can be built.
pub proof fn lemma_regions_not_reusable(
    new: &Context,
    old: &Context,
    st: &OperationState,
    op: MlirOperation,
    st2: &OperationState,
    k: int,
    j: int,
)
    requires
        old.wf(),
        op_entry_ok(new, old, st, op),
        state_ok(old, st),
        0 <= k < st.regions@.len(),
        0 <= j < st2.regions@.len(),
        st2.regions@[j] == st.regions@[k],
    ensures
        !state_ok(new, st2),
{
    let g = st.regions@[k].0;
    assert(regions_raw(st.regions@)[k] == g);
    assert(lists_region(regions_raw(st.regions@), g.ptr as int));
    assert(new.regions@[g.ptr as int].parent == op);
    assert(st2.regions@[j].0 == g);
}

/// Operation kinds with different names are disjoint: an operation of one kind never
/// narrows to another.
pub proof fn lemma_op_kinds_disjoint<T1: NamedOp, T2: NamedOp>(ctx: &Context, op: MlirOperation)
    requires
        T1::spec_name() != T2::spec_name(),
    ensures
        !(spec_op_isa::<T1>(ctx, op) && spec_op_isa::<T2>(ctx, op)),
{
}

/// An operation built as kind `T` narrows back to `T` with the same handle.
pub proof fn lemma_built_op_is_kind<T: NamedOp>(new: &Context, old: &Context, st: &OperationState, op: MlirOperation)
    requires
        old.wf(),
        op_entry_ok(new, old, st, op),
        st.name@ == T::spec_name(),
    ensures
        spec_op_isa::<T>(new, op),
{
}

/// The name of a value in text: `%` and its handle number.
pub open spec fn value_name(v: MlirValue) -> Seq<char> {
    seq!['%'] + decimal(v.ptr as nat)
}

/// Value names separated by `, `.
pub open spec fn value_list_text(l: Seq<MlirValue>) -> Seq<char>
    decreases l.len(),
{
    if l.len() == 0 {
        Seq::empty()
    } else if l.len() == 1 {
        value_name(l[0])
    } else {
        value_list_text(l.drop_last()) + chars_comma() + value_name(l.last())
    }
}

/// The types of values.
pub open spec fn value_types(ctx: &Context, l: Seq<MlirValue>) -> Seq<MlirType> {
    l.map_values(|v: MlirValue| ctx.type_of(v))
}

/// The generic textual form of an operation:
/// `%r0, %r1 = "name"(%a, %b) : (ta, tb) -> (r0, r1)` and a line break; no `=` part
/// without results, a single result type bare.
pub open spec fn op_text(ctx: &Context, op: MlirOperation) -> Seq<char> {
    let d = ctx.ops@[op.ptr as int];
    let n = ctx.types@.len() as int;
    (if d.results@.len() > 0 {
        value_list_text(d.results@) + seq![' ', '=', ' ']
    } else {
        Seq::empty()
    }) + seq!['"'] + d.name@ + seq!['"', '('] + value_list_text(d.operands@) + seq![')', ' ', ':', ' ', '(']
        + list_text(ctx.types@, value_types(ctx, d.operands@), n) + seq![')', ' ', '-', '>', ' ']
        + results_text(ctx.types@, value_types(ctx, d.results@), n) + seq!['\n']
}

pub open spec fn chars_loc_unknown() -> Seq<char> {
    seq!['l', 'o', 'c', '(', 'u', 'n', 'k', 'n', 'o', 'w', 'n', ')']
}

/// The text of a location: `loc(unknown)`, `loc("file":line:col)` or `loc("name")`.
pub open spec fn loc_text(ctx: &Context, l: MlirLocation) -> Seq<char> {
    if 1 <= l.ptr < ctx.locations@.len() {
        match ctx.locations@[l.ptr as int] {
            LocationData::FileLineCol { file, line, col } => seq!['l', 'o', 'c', '(', '"'] + file@ + seq!['"', ':']
                + decimal(line as nat) + seq![':'] + decimal(col as nat) + seq![')'],
            LocationData::Name { name, child } => seq!['l', 'o', 'c', '(', '"'] + name@ + seq!['"', ')'],
            _ => chars_loc_unknown(),
        }
    } else {
        chars_loc_unknown()
    }
}

/// The textual form with debug information: the operation's location follows it.
pub open spec fn op_text_with_loc(ctx: &Context, op: MlirOperation) -> Seq<char> {
    op_text(ctx, op).drop_last() + seq![' '] + loc_text(ctx, ctx.ops@[op.ptr as int].loc) + seq!['\n']
}

fn append_location(ctx: &Context, l: MlirLocation, out: &mut String)
    ensures
        final(out)@ == old(out)@ + loc_text(ctx, l),
{
    proof {
        reveal_strlit("loc(unknown)");
        reveal_strlit("loc(\"");
        reveal_strlit("\":");
        reveal_strlit(":");
        reveal_strlit(")");
        reveal_strlit("\")");
    }
    let ghost o = out@;
    if l.ptr == 0 || l.ptr >= ctx.locations.len() {
        out.append("loc(unknown)");
        return;
    }
    match &ctx.locations[l.ptr] {
        LocationData::FileLineCol { file, line, col } => {
            out.append("loc(\"");
            out.append(file.as_str());
            out.append("\":");
            append_decimal(out, *line as u64);
            out.append(":");
            append_decimal(out, *col as u64);
            out.append(")");
            assert(out@ =~= o + loc_text(ctx, l));
        },
        LocationData::Name { name, child } => {
            out.append("loc(\"");
            out.append(name.as_str());
            out.append("\")");
            assert(out@ =~= o + loc_text(ctx, l));
        },
        _ => {
            out.append("loc(unknown)");
        },
    }
}

fn append_value_list(out: &mut String, l: &Vec<MlirValue>)
    ensures
        final(out)@ == old(out)@ + value_list_text(l@),
{
    proof {
        reveal_strlit(", ");
        reveal_strlit("%");
    }
    let ghost o = out@;
    let mut k: usize = 0;
    assert(l@.take(0) =~= Seq::<MlirValue>::empty());
    while k < l.len()
        invariant
            k <= l@.len(),
            out@ == o + value_list_text(l@.take(k as int)),
            ", "@ == chars_comma(),
            "%"@ == seq!['%'],
        decreases l@.len() - k,
    {
        assert(l@.take(k + 1).drop_last() =~= l@.take(k as int));
        assert(l@.take(k + 1).last() == l@[k as int]);
        if k > 0 {
            out.append(", ");
        }
        out.append("%");
        append_decimal(out, l[k].ptr as u64);
        proof {
            if k == 0 {
                assert(l@.take(1)[0] == l@[0]);
            }
        }
        assert(out@ =~= o + value_list_text(l@.take(k + 1)));
        k = k + 1;
    }
    assert(l@.take(l@.len() as int) =~= l@);
}

fn value_type_vec(ctx: &Context, l: &Vec<MlirValue>) -> (r: Vec<MlirType>)
    requires
        ctx.wf(),
        forall|k: int| 0 <= k < l@.len() ==> ctx.valid_value(#[trigger] l@[k]),
    ensures
        r@ == value_types(ctx, l@),
        forall|k: int| 0 <= k < r@.len() ==> ctx.valid_type(#[trigger] r@[k]),
{
    let mut r: Vec<MlirType> = Vec::new();
    let mut k: usize = 0;
    while k < l.len()
        invariant
            ctx.wf(),
            forall|j: int| 0 <= j < l@.len() ==> ctx.valid_value(#[trigger] l@[j]),
            k <= l@.len(),
            r@.len() == k,
            forall|j: int| 0 <= j < k ==> #[trigger] r@[j] == ctx.type_of(l@[j]) && ctx.valid_type(r@[j]),
        decreases l@.len() - k,
    {
        r.push(ctx.values[l[k].ptr].ty);
        k = k + 1;
    }
    assert(r@ =~= value_types(ctx, l@));
    r
}

impl Operation {
    /// Print the operation's generic textual form through `to`. Locations are not printed.
    pub fn print(&self, ctx: &Context, to: &mut crate::formatter::FormatterCallback, with_debug_info: bool)
        requires
            ctx.wf(),
            ctx.valid_op(self.0),
        ensures
            final(to).buffer@ == old(to).buffer@ + if with_debug_info {
                op_text_with_loc(ctx, self.0)
            } else {
                op_text(ctx, self.0)
            },
    {
        let text = self.to_string(ctx);
        if with_debug_info {
            proof {
                reveal_strlit(" ");
                reveal_strlit("\n");
            }
            let n = text.unicode_len();
            let line = text.as_str().substring_char(0, n - 1);
            let mut out = String::from_str(line);
            out.append(" ");
            append_location(ctx, ctx.ops[self.0.ptr].loc, &mut out);
            out.append("\n");
            assert(out@ =~= op_text_with_loc(ctx, self.0));
            to.callback(out.as_str());
        } else {
            to.callback(text.as_str());
        }
    }

    /// The generic textual form of the operation; see `op_text`.
    pub fn to_string(&self, ctx: &Context) -> (r: String)
        requires
            ctx.wf(),
            ctx.valid_op(self.0),
        ensures
            r@ == op_text(ctx, self.0),
    {
        proof {
            reveal_strlit(" = ");
            reveal_strlit("\"");
            reveal_strlit("\"(");
            reveal_strlit(") : (");
            reveal_strlit(") -> ");
            reveal_strlit("(");
            reveal_strlit(")");
            reveal_strlit("\n");
        }
        let d = &ctx.ops[self.0.ptr];
        let n = ctx.types.len();
        let mut out = String::new();
        let ghost o0 = out@;
        if d.results.len() > 0 {
            append_value_list(&mut out, &d.results);
            out.append(" = ");
        }
        let ghost o1 = out@;
        assert(o1 =~= (if d.results@.len() > 0 {
            value_list_text(d.results@) + seq![' ', '=', ' ']
        } else {
            Seq::empty()
        }));
        out.append("\"");
        out.append(d.name.as_str());
        out.append("\"(");
        append_value_list(&mut out, &d.operands);
        out.append(") : (");
        let in_tys = value_type_vec(ctx, &d.operands);
        crate::ty::append_type_list(ctx, &in_tys, n, &mut out);
        out.append(") -> ");
        let out_tys = value_type_vec(ctx, &d.results);
        let ghost o2 = out@;
        if out_tys.len() == 1 {
            crate::ty::append_type_list(ctx, &out_tys, n, &mut out);
        } else {
            out.append("(");
            crate::ty::append_type_list(ctx, &out_tys, n, &mut out);
            out.append(")");
        }
        assert(out@ =~= o2 + results_text(ctx.types@, out_tys@, n as int));
        out.append("\n");
        assert(out@ =~= op_text(ctx, self.0));
        out
    }
}

} // verus!

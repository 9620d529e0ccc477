//! The `comb` dialect: combinational logic on integers.
use vstd::prelude::*;
use crate::attr::{Attr, IntegerAttr, NamedAttribute};
use crate::builder::{placed, OpBuilder};
use crate::context::{Context, TypeData};
use crate::dialect::{
    all_valid_types, all_valid_values, build_simple, build_valid, builder_grew, can_place,
    check_place, check_value_vec, has_int_attr_of_width, is_int_type, op_operands, op_shape,
    result_int,
};
use crate::error::Error;
use crate::hw::{ArrayType, ConstantOp};
use crate::operation::{NamedOp, Operation};
use crate::ty::{IntegerType, Ty, TyIsa, Type};
use crate::value::{values_raw, Value};
use crate::wrap_raw::{MlirOperation, MlirType, MlirValue};

verus! {

/// Predicate of an integer comparison.
#[derive(Clone, Copy, Debug, PartialEq, Eq, Structural)]
pub enum CmpPred {
    Eq,
    Neq,
    Slt,
    Sle,
    Sgt,
    Sge,
    Ult,
    Ule,
    Ugt,
    Uge,
}

impl CmpPred {
    /// The number that encodes the predicate in an `icmp` operation.
    pub open spec fn spec_value(&self) -> i64 {
        match *self {
            CmpPred::Eq => 0,
            CmpPred::Neq => 1,
            CmpPred::Slt => 2,
            CmpPred::Sle => 3,
            CmpPred::Sgt => 4,
            CmpPred::Sge => 5,
            CmpPred::Ult => 6,
            CmpPred::Ule => 7,
            CmpPred::Ugt => 8,
            CmpPred::Uge => 9,
        }
    }

    pub fn value(&self) -> (r: i64)
        ensures
            r == self.spec_value(),
    {
        match *self {
            CmpPred::Eq => 0,
            CmpPred::Neq => 1,
            CmpPred::Slt => 2,
            CmpPred::Sle => 3,
            CmpPred::Sgt => 4,
            CmpPred::Sge => 5,
            CmpPred::Ult => 6,
            CmpPred::Ule => 7,
            CmpPred::Ugt => 8,
            CmpPred::Uge => 9,
        }
    }
}

/// The width of value `v`, when it is a live value of an integer type.
pub open spec fn value_width(ctx: &Context, v: MlirValue) -> Option<int> {
    if ctx.valid_value(v) {
        match ctx.types@[ctx.type_of(v).ptr as int] {
            TypeData::Integer { width } => Some(width as int),
            _ => None,
        }
    } else {
        None
    }
}

/// The width of a type for indexing: an array's size or an integer's width.
pub open spec fn spec_type_width(ctx: &Context, t: MlirType) -> Option<int> {
    if ctx.valid_type(t) {
        match ctx.types@[t.ptr as int] {
            TypeData::Integer { width } => Some(width as int),
            TypeData::Array { element, size } => Some(size as int),
            _ => None,
        }
    } else {
        None
    }
}

/// The width of a live integer value.
pub fn int_width_of(ctx: &Context, v: &Value) -> (r: Option<u32>)
    requires
        ctx.wf(),
    ensures
        r is Some <==> value_width(ctx, v.0) is Some,
        r matches Some(w) ==> value_width(ctx, v.0) == Some(w as int),
{
    if !ctx.is_valid_value(v) {
        return None;
    }
    let t = ctx.values[v.0.ptr].ty;
    match &ctx.types[t.ptr] {
        TypeData::Integer { width } => Some(*width),
        _ => None,
    }
}

/// The width of a type for indexing: an array's size or an integer's width.
pub fn type_width(ctx: &Context, ty: &Type) -> (r: Result<usize, Error>)
    ensures
        r is Ok <==> spec_type_width(ctx, ty.0) is Some,
        r matches Ok(w) ==> spec_type_width(ctx, ty.0) == Some(w as int),
{
    if ty.0.ptr == 0 || ty.0.ptr >= ctx.types.len() {
        return Err(Error::SimpleError(String::from_str("unsupported indexing target type")));
    }
    match &ctx.types[ty.0.ptr] {
        TypeData::Integer { width } => Ok(*width as usize),
        TypeData::Array { element, size } => Ok(*size),
        _ => Err(Error::SimpleError(String::from_str("unsupported indexing target type"))),
    }
}

pub open spec fn pow2(k: nat) -> nat
    decreases k,
{
    if k == 0 {
        1
    } else {
        2 * pow2((k - 1) as nat)
    }
}

/// The ceiling of the base-2 logarithm: the least `k` with `2^k >= value`.
pub fn clog2(value: u64) -> (r: u64)
    requires
        value <= 0x8000_0000_0000_0000u64,
    ensures
        pow2(r as nat) >= value,
        r == 0 || pow2((r - 1) as nat) < value,
{
    let mut k: u64 = 0;
    let mut p: u64 = 1;
    while p < value
        invariant
            p as nat == pow2(k as nat),
            k <= p,
            value <= 0x8000_0000_0000_0000u64,
            k == 0 || pow2((k - 1) as nat) < value,
            p >= 1,
        decreases u64::MAX - p,
    {
        assert(pow2((k + 1) as nat) == 2 * pow2(k as nat));
        p = p * 2;
        k = k + 1;
    }
    k
}

/// The ceiling of the base-2 logarithm of a type's width for indexing.
pub fn type_clog2(ctx: &Context, ty: &Type) -> (r: Option<u64>)
    ensures
        r is Some <==> (spec_type_width(ctx, ty.0) is Some && spec_type_width(ctx, ty.0)->0 <= 0x8000_0000_0000_0000u64),
        r matches Some(c) ==> pow2(c as nat) >= spec_type_width(ctx, ty.0)->0 && (c == 0 || pow2((c - 1) as nat) < spec_type_width(ctx, ty.0)->0),
{
    match type_width(ctx, ty) {
        Ok(w) => {
            if w as u64 > 0x8000_0000_0000_0000u64 {
                None
            } else {
                Some(clog2(w as u64))
            }
        },
        Err(_) => None,
    }
}

/// The sum of the widths of integer values.
pub open spec fn sum_widths(ctx: &Context, vs: Seq<Value>) -> int
    decreases vs.len(),
{
    if vs.len() == 0 {
        0
    } else {
        sum_widths(ctx, vs.drop_last()) + match value_width(ctx, vs.last().0) {
            Some(w) => w,
            None => 0,
        }
    }
}

pub open spec fn all_int(ctx: &Context, vs: Seq<Value>) -> bool {
    forall|k: int| 0 <= k < vs.len() ==> #[trigger] value_width(ctx, vs[k].0) is Some
}

fn total_width(ctx: &Context, vs: &[Value]) -> (r: Option<u32>)
    requires
        ctx.wf(),
    ensures
        r is Some <==> (all_int(ctx, vs@) && sum_widths(ctx, vs@) <= u32::MAX),
        r matches Some(w) ==> w == sum_widths(ctx, vs@),
{
    let mut total: u64 = 0;
    let mut k: usize = 0;
    assert(vs@.take(0) =~= Seq::<Value>::empty());
    while k < vs.len()
        invariant
            ctx.wf(),
            k <= vs@.len(),
            total == sum_widths(ctx, vs@.take(k as int)),
            total <= u32::MAX,
            all_int(ctx, vs@.take(k as int)),
        decreases vs@.len() - k,
    {
        assert(vs@.take(k + 1).drop_last() =~= vs@.take(k as int));
        assert(vs@.take(k + 1).last() == vs@[k as int]);
        match int_width_of(ctx, &vs[k]) {
            Some(w) => {
                if total + w as u64 > u32::MAX as u64 {
                    proof {
                        lemma_sum_widths_grows(ctx, vs@, k as int + 1);
                    }
                    return None;
                }
                total = total + w as u64;
                assert forall|j: int| 0 <= j < k + 1 implies #[trigger] value_width(ctx, vs@.take(k + 1)[j].0) is Some by {
                    if j < k {
                        assert(vs@.take(k + 1)[j] == vs@.take(k as int)[j]);
                    }
                }
            },
            None => {
                assert(vs@[k as int] == vs@.take(k + 1)[k as int]);
                proof {
                    assert(!all_int(ctx, vs@)) by {
                        assert(value_width(ctx, vs@[k as int].0) is None);
                    }
                }
                return None;
            },
        }
        k = k + 1;
    }
    assert(vs@.take(vs@.len() as int) =~= vs@);
    Some(total as u32)
}

/// The sums of widths only grow along a sequence.
proof fn lemma_sum_widths_grows(ctx: &Context, vs: Seq<Value>, k: int)
    requires
        0 <= k <= vs.len(),
    ensures
        sum_widths(ctx, vs.take(k)) <= sum_widths(ctx, vs),
    decreases vs.len(),
{
    if k < vs.len() {
        assert(vs.drop_last().take(k) =~= vs.take(k));
        lemma_sum_widths_grows(ctx, vs.drop_last(), k);
    } else {
        assert(vs.take(k) =~= vs);
    }
}

/// Build a binary operation whose result has the type of `lhs`.
fn build_binary<T: NamedOp>(builder: &mut OpBuilder, lhs: &Value, rhs: &Value) -> (r: Option<T>)
    requires
        old(builder).wf(),
    ensures
        builder_grew(final(builder), old(builder)),
        r is Some <==> (can_place(old(builder)) && all_valid_values(&old(builder).ctx, seq![*lhs, *rhs])),
        r matches Some(op) ==> op_shape(&final(builder).ctx, op.spec_op(), T::spec_name(), seq![lhs.0, rhs.0], seq![old(builder).ctx.type_of(lhs.0)])
            && placed(&final(builder).ctx, &old(builder).ctx, op.spec_op(), old(builder).insert_point),
        r is None ==> final(builder).ctx == old(builder).ctx,
{
    let mut operands: Vec<Value> = Vec::new();
    operands.push(*lhs);
    operands.push(*rhs);
    assert(operands@ =~= seq![*lhs, *rhs]);
    if !check_value_vec(&builder.ctx, &operands) {
        return None;
    }
    let ty = lhs.ty(&builder.ctx);
    let mut results: Vec<Type> = Vec::new();
    results.push(ty);
    proof {
        assert(results@ =~= seq![ty]);
        crate::dialect::lemma_one_type(&builder.ctx, results@, ty);
    }
    let r = build_simple::<T>(builder, operands.as_slice(), results.as_slice(), Vec::new());
    proof {
        assert(crate::ty::types_raw(results@) =~= seq![ty.0]);
        assert(values_raw(operands@) =~= seq![lhs.0, rhs.0]);
    }
    r
}

/// Build an operation on any number of operands whose single result, if there is an
/// operand, has the type of the first.
fn build_variadic<T: NamedOp>(builder: &mut OpBuilder, args: &[Value]) -> (r: Option<T>)
    requires
        old(builder).wf(),
    ensures
        builder_grew(final(builder), old(builder)),
        r is Some <==> (can_place(old(builder)) && all_valid_values(&old(builder).ctx, args@)),
        r matches Some(op) ==> op_shape(&final(builder).ctx, op.spec_op(), T::spec_name(), values_raw(args@),
            if args@.len() > 0 { seq![old(builder).ctx.type_of(args@[0].0)] } else { Seq::empty() })
            && placed(&final(builder).ctx, &old(builder).ctx, op.spec_op(), old(builder).insert_point),
        r is None ==> final(builder).ctx == old(builder).ctx,
{
    if !crate::dialect::check_values(&builder.ctx, args) {
        return None;
    }
    let mut results: Vec<Type> = Vec::new();
    if args.len() > 0 {
        results.push(args[0].ty(&builder.ctx));
        proof {
            crate::dialect::lemma_one_type(&builder.ctx, results@, results@[0]);
        }
    }
    let r = build_simple::<T>(builder, args, results.as_slice(), Vec::new());
    proof {
        if args@.len() > 0 {
            assert(crate::ty::types_raw(results@) =~= seq![old(builder).ctx.type_of(args@[0].0)]);
        } else {
            assert(crate::ty::types_raw(results@) =~= Seq::<MlirType>::empty());
        }
    }
    r
}

/// Bitwise and of any number of operands.
#[derive(Clone, Copy, Debug, PartialEq, Eq, Structural)]
pub struct AndOp(pub MlirOperation);

impl NamedOp for AndOp {
    open spec fn spec_name() -> Seq<char> {
        "comb.and"@
    }

    open spec fn spec_op(&self) -> MlirOperation {
        self.0
    }

    fn operation_name() -> (r: &'static str) {
        "comb.and"
    }

    fn wrap_op(raw: MlirOperation) -> (r: AndOp) {
        AndOp(raw)
    }

    fn as_operation(&self) -> (r: Operation) {
        Operation(self.0)
    }
}

impl AndOp {
    /// The single result.
    pub fn result(&self, ctx: &Context) -> (r: Value)
        requires
            ctx.valid_op(self.0),
            ctx.ops@[self.0.ptr as int].results@.len() > 0,
        ensures
            r.0 == ctx.ops@[self.0.ptr as int].results@[0],
    {
        Value(ctx.ops[self.0.ptr].results[0])
    }
}

impl AndOp {
    /// Build the operation on `args`; the result has the type of the first.
    pub fn build(builder: &mut OpBuilder, args: &[Value]) -> (r: Option<AndOp>)
        requires
            old(builder).wf(),
        ensures
            builder_grew(final(builder), old(builder)),
            r is Some <==> (can_place(old(builder)) && all_valid_values(&old(builder).ctx, args@)),
            r matches Some(op) ==> op_shape(&final(builder).ctx, op.0, "comb.and"@, values_raw(args@),
                if args@.len() > 0 { seq![old(builder).ctx.type_of(args@[0].0)] } else { Seq::empty() })
                && placed(&final(builder).ctx, &old(builder).ctx, op.0, old(builder).insert_point),
            r is None ==> final(builder).ctx == old(builder).ctx,
    {
        build_variadic::<AndOp>(builder, args)
    }
}

/// Bitwise or of any number of operands.
#[derive(Clone, Copy, Debug, PartialEq, Eq, Structural)]
pub struct OrOp(pub MlirOperation);

impl NamedOp for OrOp {
    open spec fn spec_name() -> Seq<char> {
        "comb.or"@
    }

    open spec fn spec_op(&self) -> MlirOperation {
        self.0
    }

    fn operation_name() -> (r: &'static str) {
        "comb.or"
    }

    fn wrap_op(raw: MlirOperation) -> (r: OrOp) {
        OrOp(raw)
    }

    fn as_operation(&self) -> (r: Operation) {
        Operation(self.0)
    }
}

impl OrOp {
    /// The single result.
    pub fn result(&self, ctx: &Context) -> (r: Value)
        requires
            ctx.valid_op(self.0),
            ctx.ops@[self.0.ptr as int].results@.len() > 0,
        ensures
            r.0 == ctx.ops@[self.0.ptr as int].results@[0],
    {
        Value(ctx.ops[self.0.ptr].results[0])
    }
}

impl OrOp {
    /// Build the operation on `args`; the result has the type of the first.
    pub fn build(builder: &mut OpBuilder, args: &[Value]) -> (r: Option<OrOp>)
        requires
            old(builder).wf(),
        ensures
            builder_grew(final(builder), old(builder)),
            r is Some <==> (can_place(old(builder)) && all_valid_values(&old(builder).ctx, args@)),
            r matches Some(op) ==> op_shape(&final(builder).ctx, op.0, "comb.or"@, values_raw(args@),
                if args@.len() > 0 { seq![old(builder).ctx.type_of(args@[0].0)] } else { Seq::empty() })
                && placed(&final(builder).ctx, &old(builder).ctx, op.0, old(builder).insert_point),
            r is None ==> final(builder).ctx == old(builder).ctx,
    {
        build_variadic::<OrOp>(builder, args)
    }
}

/// Bitwise xor of any number of operands.
#[derive(Clone, Copy, Debug, PartialEq, Eq, Structural)]
pub struct XorOp(pub MlirOperation);

impl NamedOp for XorOp {
    open spec fn spec_name() -> Seq<char> {
        "comb.xor"@
    }

    open spec fn spec_op(&self) -> MlirOperation {
        self.0
    }

    fn operation_name() -> (r: &'static str) {
        "comb.xor"
    }

    fn wrap_op(raw: MlirOperation) -> (r: XorOp) {
        XorOp(raw)
    }

    fn as_operation(&self) -> (r: Operation) {
        Operation(self.0)
    }
}

impl XorOp {
    /// The single result.
    pub fn result(&self, ctx: &Context) -> (r: Value)
        requires
            ctx.valid_op(self.0),
            ctx.ops@[self.0.ptr as int].results@.len() > 0,
        ensures
            r.0 == ctx.ops@[self.0.ptr as int].results@[0],
    {
        Value(ctx.ops[self.0.ptr].results[0])
    }
}

impl XorOp {
    /// Build the operation on `args`; the result has the type of the first.
    pub fn build(builder: &mut OpBuilder, args: &[Value]) -> (r: Option<XorOp>)
        requires
            old(builder).wf(),
        ensures
            builder_grew(final(builder), old(builder)),
            r is Some <==> (can_place(old(builder)) && all_valid_values(&old(builder).ctx, args@)),
            r matches Some(op) ==> op_shape(&final(builder).ctx, op.0, "comb.xor"@, values_raw(args@),
                if args@.len() > 0 { seq![old(builder).ctx.type_of(args@[0].0)] } else { Seq::empty() })
                && placed(&final(builder).ctx, &old(builder).ctx, op.0, old(builder).insert_point),
            r is None ==> final(builder).ctx == old(builder).ctx,
    {
        build_variadic::<XorOp>(builder, args)
    }
}

/// Binary `comb.add`: the result has the type of the left operand.
#[derive(Clone, Copy, Debug, PartialEq, Eq, Structural)]
pub struct AddOp(pub MlirOperation);

impl NamedOp for AddOp {
    open spec fn spec_name() -> Seq<char> {
        "comb.add"@
    }

    open spec fn spec_op(&self) -> MlirOperation {
        self.0
    }

    fn operation_name() -> (r: &'static str) {
        "comb.add"
    }

    fn wrap_op(raw: MlirOperation) -> (r: AddOp) {
        AddOp(raw)
    }

    fn as_operation(&self) -> (r: Operation) {
        Operation(self.0)
    }
}

impl AddOp {
    /// The single result.
    pub fn result(&self, ctx: &Context) -> (r: Value)
        requires
            ctx.valid_op(self.0),
            ctx.ops@[self.0.ptr as int].results@.len() > 0,
        ensures
            r.0 == ctx.ops@[self.0.ptr as int].results@[0],
    {
        Value(ctx.ops[self.0.ptr].results[0])
    }
}

impl AddOp {
    pub fn build(builder: &mut OpBuilder, lhs: &Value, rhs: &Value) -> (r: Option<AddOp>)
        requires
            old(builder).wf(),
        ensures
            builder_grew(final(builder), old(builder)),
            r is Some <==> (can_place(old(builder)) && all_valid_values(&old(builder).ctx, seq![*lhs, *rhs])),
            r matches Some(op) ==> op_shape(&final(builder).ctx, op.0, "comb.add"@, seq![lhs.0, rhs.0], seq![old(builder).ctx.type_of(lhs.0)])
                && placed(&final(builder).ctx, &old(builder).ctx, op.0, old(builder).insert_point),
            r is None ==> final(builder).ctx == old(builder).ctx,
    {
        build_binary::<AddOp>(builder, lhs, rhs)
    }
}

/// Binary `comb.sub`: the result has the type of the left operand.
#[derive(Clone, Copy, Debug, PartialEq, Eq, Structural)]
pub struct SubOp(pub MlirOperation);

impl NamedOp for SubOp {
    open spec fn spec_name() -> Seq<char> {
        "comb.sub"@
    }

    open spec fn spec_op(&self) -> MlirOperation {
        self.0
    }

    fn operation_name() -> (r: &'static str) {
        "comb.sub"
    }

    fn wrap_op(raw: MlirOperation) -> (r: SubOp) {
        SubOp(raw)
    }

    fn as_operation(&self) -> (r: Operation) {
        Operation(self.0)
    }
}

impl SubOp {
    /// The single result.
    pub fn result(&self, ctx: &Context) -> (r: Value)
        requires
            ctx.valid_op(self.0),
            ctx.ops@[self.0.ptr as int].results@.len() > 0,
        ensures
            r.0 == ctx.ops@[self.0.ptr as int].results@[0],
    {
        Value(ctx.ops[self.0.ptr].results[0])
    }
}

impl SubOp {
    pub fn build(builder: &mut OpBuilder, lhs: &Value, rhs: &Value) -> (r: Option<SubOp>)
        requires
            old(builder).wf(),
        ensures
            builder_grew(final(builder), old(builder)),
            r is Some <==> (can_place(old(builder)) && all_valid_values(&old(builder).ctx, seq![*lhs, *rhs])),
            r matches Some(op) ==> op_shape(&final(builder).ctx, op.0, "comb.sub"@, seq![lhs.0, rhs.0], seq![old(builder).ctx.type_of(lhs.0)])
                && placed(&final(builder).ctx, &old(builder).ctx, op.0, old(builder).insert_point),
            r is None ==> final(builder).ctx == old(builder).ctx,
    {
        build_binary::<SubOp>(builder, lhs, rhs)
    }
}

/// Binary `comb.mul`: the result has the type of the left operand.
#[derive(Clone, Copy, Debug, PartialEq, Eq, Structural)]
pub struct MulOp(pub MlirOperation);

impl NamedOp for MulOp {
    open spec fn spec_name() -> Seq<char> {
        "comb.mul"@
    }

    open spec fn spec_op(&self) -> MlirOperation {
        self.0
    }

    fn operation_name() -> (r: &'static str) {
        "comb.mul"
    }

    fn wrap_op(raw: MlirOperation) -> (r: MulOp) {
        MulOp(raw)
    }

    fn as_operation(&self) -> (r: Operation) {
        Operation(self.0)
    }
}

impl MulOp {
    /// The single result.
    pub fn result(&self, ctx: &Context) -> (r: Value)
        requires
            ctx.valid_op(self.0),
            ctx.ops@[self.0.ptr as int].results@.len() > 0,
        ensures
            r.0 == ctx.ops@[self.0.ptr as int].results@[0],
    {
        Value(ctx.ops[self.0.ptr].results[0])
    }
}

impl MulOp {
    pub fn build(builder: &mut OpBuilder, lhs: &Value, rhs: &Value) -> (r: Option<MulOp>)
        requires
            old(builder).wf(),
        ensures
            builder_grew(final(builder), old(builder)),
            r is Some <==> (can_place(old(builder)) && all_valid_values(&old(builder).ctx, seq![*lhs, *rhs])),
            r matches Some(op) ==> op_shape(&final(builder).ctx, op.0, "comb.mul"@, seq![lhs.0, rhs.0], seq![old(builder).ctx.type_of(lhs.0)])
                && placed(&final(builder).ctx, &old(builder).ctx, op.0, old(builder).insert_point),
            r is None ==> final(builder).ctx == old(builder).ctx,
    {
        build_binary::<MulOp>(builder, lhs, rhs)
    }
}

/// Binary `comb.divu`: the result has the type of the left operand.
#[derive(Clone, Copy, Debug, PartialEq, Eq, Structural)]
pub struct DivUOp(pub MlirOperation);

impl NamedOp for DivUOp {
    open spec fn spec_name() -> Seq<char> {
        "comb.divu"@
    }

    open spec fn spec_op(&self) -> MlirOperation {
        self.0
    }

    fn operation_name() -> (r: &'static str) {
        "comb.divu"
    }

    fn wrap_op(raw: MlirOperation) -> (r: DivUOp) {
        DivUOp(raw)
    }

    fn as_operation(&self) -> (r: Operation) {
        Operation(self.0)
    }
}

impl DivUOp {
    /// The single result.
    pub fn result(&self, ctx: &Context) -> (r: Value)
        requires
            ctx.valid_op(self.0),
            ctx.ops@[self.0.ptr as int].results@.len() > 0,
        ensures
            r.0 == ctx.ops@[self.0.ptr as int].results@[0],
    {
        Value(ctx.ops[self.0.ptr].results[0])
    }
}

impl DivUOp {
    pub fn build(builder: &mut OpBuilder, lhs: &Value, rhs: &Value) -> (r: Option<DivUOp>)
        requires
            old(builder).wf(),
        ensures
            builder_grew(final(builder), old(builder)),
            r is Some <==> (can_place(old(builder)) && all_valid_values(&old(builder).ctx, seq![*lhs, *rhs])),
            r matches Some(op) ==> op_shape(&final(builder).ctx, op.0, "comb.divu"@, seq![lhs.0, rhs.0], seq![old(builder).ctx.type_of(lhs.0)])
                && placed(&final(builder).ctx, &old(builder).ctx, op.0, old(builder).insert_point),
            r is None ==> final(builder).ctx == old(builder).ctx,
    {
        build_binary::<DivUOp>(builder, lhs, rhs)
    }
}

/// Binary `comb.divs`: the result has the type of the left operand.
#[derive(Clone, Copy, Debug, PartialEq, Eq, Structural)]
pub struct DivSOp(pub MlirOperation);

impl NamedOp for DivSOp {
    open spec fn spec_name() -> Seq<char> {
        "comb.divs"@
    }

    open spec fn spec_op(&self) -> MlirOperation {
        self.0
    }

    fn operation_name() -> (r: &'static str) {
        "comb.divs"
    }

    fn wrap_op(raw: MlirOperation) -> (r: DivSOp) {
        DivSOp(raw)
    }

    fn as_operation(&self) -> (r: Operation) {
        Operation(self.0)
    }
}

impl DivSOp {
    /// The single result.
    pub fn result(&self, ctx: &Context) -> (r: Value)
        requires
            ctx.valid_op(self.0),
            ctx.ops@[self.0.ptr as int].results@.len() > 0,
        ensures
            r.0 == ctx.ops@[self.0.ptr as int].results@[0],
    {
        Value(ctx.ops[self.0.ptr].results[0])
    }
}

impl DivSOp {
    pub fn build(builder: &mut OpBuilder, lhs: &Value, rhs: &Value) -> (r: Option<DivSOp>)
        requires
            old(builder).wf(),
        ensures
            builder_grew(final(builder), old(builder)),
            r is Some <==> (can_place(old(builder)) && all_valid_values(&old(builder).ctx, seq![*lhs, *rhs])),
            r matches Some(op) ==> op_shape(&final(builder).ctx, op.0, "comb.divs"@, seq![lhs.0, rhs.0], seq![old(builder).ctx.type_of(lhs.0)])
                && placed(&final(builder).ctx, &old(builder).ctx, op.0, old(builder).insert_point),
            r is None ==> final(builder).ctx == old(builder).ctx,
    {
        build_binary::<DivSOp>(builder, lhs, rhs)
    }
}

/// Binary `comb.modu`: the result has the type of the left operand.
#[derive(Clone, Copy, Debug, PartialEq, Eq, Structural)]
pub struct ModUOp(pub MlirOperation);

impl NamedOp for ModUOp {
    open spec fn spec_name() -> Seq<char> {
        "comb.modu"@
    }

    open spec fn spec_op(&self) -> MlirOperation {
        self.0
    }

    fn operation_name() -> (r: &'static str) {
        "comb.modu"
    }

    fn wrap_op(raw: MlirOperation) -> (r: ModUOp) {
        ModUOp(raw)
    }

    fn as_operation(&self) -> (r: Operation) {
        Operation(self.0)
    }
}

impl ModUOp {
    /// The single result.
    pub fn result(&self, ctx: &Context) -> (r: Value)
        requires
            ctx.valid_op(self.0),
            ctx.ops@[self.0.ptr as int].results@.len() > 0,
        ensures
            r.0 == ctx.ops@[self.0.ptr as int].results@[0],
    {
        Value(ctx.ops[self.0.ptr].results[0])
    }
}

impl ModUOp {
    pub fn build(builder: &mut OpBuilder, lhs: &Value, rhs: &Value) -> (r: Option<ModUOp>)
        requires
            old(builder).wf(),
        ensures
            builder_grew(final(builder), old(builder)),
            r is Some <==> (can_place(old(builder)) && all_valid_values(&old(builder).ctx, seq![*lhs, *rhs])),
            r matches Some(op) ==> op_shape(&final(builder).ctx, op.0, "comb.modu"@, seq![lhs.0, rhs.0], seq![old(builder).ctx.type_of(lhs.0)])
                && placed(&final(builder).ctx, &old(builder).ctx, op.0, old(builder).insert_point),
            r is None ==> final(builder).ctx == old(builder).ctx,
    {
        build_binary::<ModUOp>(builder, lhs, rhs)
    }
}

/// Binary `comb.mods`: the result has the type of the left operand.
#[derive(Clone, Copy, Debug, PartialEq, Eq, Structural)]
pub struct ModSOp(pub MlirOperation);

impl NamedOp for ModSOp {
    open spec fn spec_name() -> Seq<char> {
        "comb.mods"@
    }

    open spec fn spec_op(&self) -> MlirOperation {
        self.0
    }

    fn operation_name() -> (r: &'static str) {
        "comb.mods"
    }

    fn wrap_op(raw: MlirOperation) -> (r: ModSOp) {
        ModSOp(raw)
    }

    fn as_operation(&self) -> (r: Operation) {
        Operation(self.0)
    }
}

impl ModSOp {
    /// The single result.
    pub fn result(&self, ctx: &Context) -> (r: Value)
        requires
            ctx.valid_op(self.0),
            ctx.ops@[self.0.ptr as int].results@.len() > 0,
        ensures
            r.0 == ctx.ops@[self.0.ptr as int].results@[0],
    {
        Value(ctx.ops[self.0.ptr].results[0])
    }
}

impl ModSOp {
    pub fn build(builder: &mut OpBuilder, lhs: &Value, rhs: &Value) -> (r: Option<ModSOp>)
        requires
            old(builder).wf(),
        ensures
            builder_grew(final(builder), old(builder)),
            r is Some <==> (can_place(old(builder)) && all_valid_values(&old(builder).ctx, seq![*lhs, *rhs])),
            r matches Some(op) ==> op_shape(&final(builder).ctx, op.0, "comb.mods"@, seq![lhs.0, rhs.0], seq![old(builder).ctx.type_of(lhs.0)])
                && placed(&final(builder).ctx, &old(builder).ctx, op.0, old(builder).insert_point),
            r is None ==> final(builder).ctx == old(builder).ctx,
    {
        build_binary::<ModSOp>(builder, lhs, rhs)
    }
}

/// Binary `comb.shl`: the result has the type of the left operand.
#[derive(Clone, Copy, Debug, PartialEq, Eq, Structural)]
pub struct ShlOp(pub MlirOperation);

impl NamedOp for ShlOp {
    open spec fn spec_name() -> Seq<char> {
        "comb.shl"@
    }

    open spec fn spec_op(&self) -> MlirOperation {
        self.0
    }

    fn operation_name() -> (r: &'static str) {
        "comb.shl"
    }

    fn wrap_op(raw: MlirOperation) -> (r: ShlOp) {
        ShlOp(raw)
    }

    fn as_operation(&self) -> (r: Operation) {
        Operation(self.0)
    }
}

impl ShlOp {
    /// The single result.
    pub fn result(&self, ctx: &Context) -> (r: Value)
        requires
            ctx.valid_op(self.0),
            ctx.ops@[self.0.ptr as int].results@.len() > 0,
        ensures
            r.0 == ctx.ops@[self.0.ptr as int].results@[0],
    {
        Value(ctx.ops[self.0.ptr].results[0])
    }
}

impl ShlOp {
    pub fn build(builder: &mut OpBuilder, lhs: &Value, rhs: &Value) -> (r: Option<ShlOp>)
        requires
            old(builder).wf(),
        ensures
            builder_grew(final(builder), old(builder)),
            r is Some <==> (can_place(old(builder)) && all_valid_values(&old(builder).ctx, seq![*lhs, *rhs])),
            r matches Some(op) ==> op_shape(&final(builder).ctx, op.0, "comb.shl"@, seq![lhs.0, rhs.0], seq![old(builder).ctx.type_of(lhs.0)])
                && placed(&final(builder).ctx, &old(builder).ctx, op.0, old(builder).insert_point),
            r is None ==> final(builder).ctx == old(builder).ctx,
    {
        build_binary::<ShlOp>(builder, lhs, rhs)
    }
}

/// Binary `comb.shru`: the result has the type of the left operand.
#[derive(Clone, Copy, Debug, PartialEq, Eq, Structural)]
pub struct ShrUOp(pub MlirOperation);

impl NamedOp for ShrUOp {
    open spec fn spec_name() -> Seq<char> {
        "comb.shru"@
    }

    open spec fn spec_op(&self) -> MlirOperation {
        self.0
    }

    fn operation_name() -> (r: &'static str) {
        "comb.shru"
    }

    fn wrap_op(raw: MlirOperation) -> (r: ShrUOp) {
        ShrUOp(raw)
    }

    fn as_operation(&self) -> (r: Operation) {
        Operation(self.0)
    }
}

impl ShrUOp {
    /// The single result.
    pub fn result(&self, ctx: &Context) -> (r: Value)
        requires
            ctx.valid_op(self.0),
            ctx.ops@[self.0.ptr as int].results@.len() > 0,
        ensures
            r.0 == ctx.ops@[self.0.ptr as int].results@[0],
    {
        Value(ctx.ops[self.0.ptr].results[0])
    }
}

impl ShrUOp {
    pub fn build(builder: &mut OpBuilder, lhs: &Value, rhs: &Value) -> (r: Option<ShrUOp>)
        requires
            old(builder).wf(),
        ensures
            builder_grew(final(builder), old(builder)),
            r is Some <==> (can_place(old(builder)) && all_valid_values(&old(builder).ctx, seq![*lhs, *rhs])),
            r matches Some(op) ==> op_shape(&final(builder).ctx, op.0, "comb.shru"@, seq![lhs.0, rhs.0], seq![old(builder).ctx.type_of(lhs.0)])
                && placed(&final(builder).ctx, &old(builder).ctx, op.0, old(builder).insert_point),
            r is None ==> final(builder).ctx == old(builder).ctx,
    {
        build_binary::<ShrUOp>(builder, lhs, rhs)
    }
}

/// Binary `comb.shrs`: the result has the type of the left operand.
#[derive(Clone, Copy, Debug, PartialEq, Eq, Structural)]
pub struct ShrSOp(pub MlirOperation);

impl NamedOp for ShrSOp {
    open spec fn spec_name() -> Seq<char> {
        "comb.shrs"@
    }

    open spec fn spec_op(&self) -> MlirOperation {
        self.0
    }

    fn operation_name() -> (r: &'static str) {
        "comb.shrs"
    }

    fn wrap_op(raw: MlirOperation) -> (r: ShrSOp) {
        ShrSOp(raw)
    }

    fn as_operation(&self) -> (r: Operation) {
        Operation(self.0)
    }
}

impl ShrSOp {
    /// The single result.
    pub fn result(&self, ctx: &Context) -> (r: Value)
        requires
            ctx.valid_op(self.0),
            ctx.ops@[self.0.ptr as int].results@.len() > 0,
        ensures
            r.0 == ctx.ops@[self.0.ptr as int].results@[0],
    {
        Value(ctx.ops[self.0.ptr].results[0])
    }
}

impl ShrSOp {
    pub fn build(builder: &mut OpBuilder, lhs: &Value, rhs: &Value) -> (r: Option<ShrSOp>)
        requires
            old(builder).wf(),
        ensures
            builder_grew(final(builder), old(builder)),
            r is Some <==> (can_place(old(builder)) && all_valid_values(&old(builder).ctx, seq![*lhs, *rhs])),
            r matches Some(op) ==> op_shape(&final(builder).ctx, op.0, "comb.shrs"@, seq![lhs.0, rhs.0], seq![old(builder).ctx.type_of(lhs.0)])
                && placed(&final(builder).ctx, &old(builder).ctx, op.0, old(builder).insert_point),
            r is None ==> final(builder).ctx == old(builder).ctx,
    {
        build_binary::<ShrSOp>(builder, lhs, rhs)
    }
}

/// An integer comparison; its result is an `i1`.
#[derive(Clone, Copy, Debug, PartialEq, Eq, Structural)]
pub struct ICmpOp(pub MlirOperation);

impl NamedOp for ICmpOp {
    open spec fn spec_name() -> Seq<char> {
        "comb.icmp"@
    }

    open spec fn spec_op(&self) -> MlirOperation {
        self.0
    }

    fn operation_name() -> (r: &'static str) {
        "comb.icmp"
    }

    fn wrap_op(raw: MlirOperation) -> (r: ICmpOp) {
        ICmpOp(raw)
    }

    fn as_operation(&self) -> (r: Operation) {
        Operation(self.0)
    }
}

impl ICmpOp {
    /// The single result.
    pub fn result(&self, ctx: &Context) -> (r: Value)
        requires
            ctx.valid_op(self.0),
            ctx.ops@[self.0.ptr as int].results@.len() > 0,
        ensures
            r.0 == ctx.ops@[self.0.ptr as int].results@[0],
    {
        Value(ctx.ops[self.0.ptr].results[0])
    }
}

impl ICmpOp {
    /// Compare `lhs` with `rhs` by `pred`.
    pub fn new(builder: &mut OpBuilder, pred: CmpPred, lhs: &Value, rhs: &Value) -> (r: Option<ICmpOp>)
        requires
            old(builder).wf(),
        ensures
            builder_grew(final(builder), old(builder)),
            r is Some <==> (can_place(old(builder)) && all_valid_values(&old(builder).ctx, seq![*lhs, *rhs])),
            r matches Some(op) ==> op_operands(&final(builder).ctx, op.0, "comb.icmp"@, seq![lhs.0, rhs.0], 1)
                && result_int(&final(builder).ctx, op.0, 0, 1)
                && has_int_attr_of_width(&final(builder).ctx, op.0, 0, "predicate"@, 64, pred.spec_value())
                && placed(&final(builder).ctx, &old(builder).ctx, op.0, old(builder).insert_point),
            r is None ==> final(builder).ctx == old(builder).ctx,
    {
        let mut operands: Vec<Value> = Vec::new();
        operands.push(*lhs);
        operands.push(*rhs);
        assert(operands@ =~= seq![*lhs, *rhs]);
        if !check_place(builder) || !check_value_vec(&builder.ctx, &operands) {
            return None;
        }
        let ghost old_b = *old(builder);
        let wide_ty = IntegerType::new(&mut builder.ctx, 64);
        let attr = IntegerAttr::new(&mut builder.ctx, &wide_ty.as_type(), pred.value());
        let flag_ty = IntegerType::new(&mut builder.ctx, 1);
        let mut attrs: Vec<NamedAttribute> = Vec::new();
        attrs.push(NamedAttribute::new("predicate", &attr.as_attribute()));
        let mut results: Vec<Type> = Vec::new();
        results.push(flag_ty.as_type());
        let ghost mid = *builder;
        proof {
            crate::dialect::lemma_grew_keeps(&mid, &old_b);
            assert(results@ =~= seq![Type(flag_ty.0)]);
            crate::dialect::lemma_one_type(&mid.ctx, results@, Type(flag_ty.0));
        }
        let r = build_valid::<ICmpOp>(builder, operands.as_slice(), results.as_slice(), attrs);
        proof {
            crate::dialect::lemma_grew_keeps_handles(builder, &mid);
            assert(values_raw(operands@) =~= seq![lhs.0, rhs.0]);
            assert(crate::ty::types_raw(results@) =~= seq![flag_ty.0]);
            if let Some(op) = r {
                assert(crate::operation::named_raw(attrs@)[0] == attrs@[0].0);
                assert(is_int_type(&builder.ctx, wide_ty.0, 64));
                assert(is_int_type(&builder.ctx, flag_ty.0, 1));
                assert(builder.ctx.attrs@[attr.0.ptr as int] == mid.ctx.attrs@[attr.0.ptr as int]);
            }
        }
        r
    }
}

/// A choice between two values by a condition.
#[derive(Clone, Copy, Debug, PartialEq, Eq, Structural)]
pub struct MuxOp(pub MlirOperation);

impl NamedOp for MuxOp {
    open spec fn spec_name() -> Seq<char> {
        "comb.mux"@
    }

    open spec fn spec_op(&self) -> MlirOperation {
        self.0
    }

    fn operation_name() -> (r: &'static str) {
        "comb.mux"
    }

    fn wrap_op(raw: MlirOperation) -> (r: MuxOp) {
        MuxOp(raw)
    }

    fn as_operation(&self) -> (r: Operation) {
        Operation(self.0)
    }
}

impl MuxOp {
    /// The single result.
    pub fn result(&self, ctx: &Context) -> (r: Value)
        requires
            ctx.valid_op(self.0),
            ctx.ops@[self.0.ptr as int].results@.len() > 0,
        ensures
            r.0 == ctx.ops@[self.0.ptr as int].results@[0],
    {
        Value(ctx.ops[self.0.ptr].results[0])
    }
}

impl MuxOp {
    /// Choose `true_value` when `cond` holds, else `false_value`.
    pub fn build(builder: &mut OpBuilder, cond: &Value, true_value: &Value, false_value: &Value) -> (r: Option<MuxOp>)
        requires
            old(builder).wf(),
        ensures
            builder_grew(final(builder), old(builder)),
            r is Some <==> (can_place(old(builder)) && all_valid_values(&old(builder).ctx, seq![*cond, *true_value, *false_value])),
            r matches Some(op) ==> op_shape(&final(builder).ctx, op.0, "comb.mux"@, seq![cond.0, true_value.0, false_value.0],
                seq![old(builder).ctx.type_of(true_value.0)])
                && placed(&final(builder).ctx, &old(builder).ctx, op.0, old(builder).insert_point),
            r is None ==> final(builder).ctx == old(builder).ctx,
    {
        let mut operands: Vec<Value> = Vec::new();
        operands.push(*cond);
        operands.push(*true_value);
        operands.push(*false_value);
        assert(operands@ =~= seq![*cond, *true_value, *false_value]);
        if !check_value_vec(&builder.ctx, &operands) {
            return None;
        }
        assert(operands@[1] == *true_value);
        let ty = true_value.ty(&builder.ctx);
        let mut results: Vec<Type> = Vec::new();
        results.push(ty);
        proof {
            assert(results@ =~= seq![ty]);
            crate::dialect::lemma_one_type(&builder.ctx, results@, ty);
        }
        let r = build_simple::<MuxOp>(builder, operands.as_slice(), results.as_slice(), Vec::new());
        proof {
            assert(values_raw(operands@) =~= seq![cond.0, true_value.0, false_value.0]);
            assert(crate::ty::types_raw(results@) =~= seq![ty.0]);
        }
        r
    }
}

/// A bit range of an integer, from a low bit.
#[derive(Clone, Copy, Debug, PartialEq, Eq, Structural)]
pub struct ExtractOp(pub MlirOperation);

impl NamedOp for ExtractOp {
    open spec fn spec_name() -> Seq<char> {
        "comb.extract"@
    }

    open spec fn spec_op(&self) -> MlirOperation {
        self.0
    }

    fn operation_name() -> (r: &'static str) {
        "comb.extract"
    }

    fn wrap_op(raw: MlirOperation) -> (r: ExtractOp) {
        ExtractOp(raw)
    }

    fn as_operation(&self) -> (r: Operation) {
        Operation(self.0)
    }
}

impl ExtractOp {
    /// The single result.
    pub fn result(&self, ctx: &Context) -> (r: Value)
        requires
            ctx.valid_op(self.0),
            ctx.ops@[self.0.ptr as int].results@.len() > 0,
        ensures
            r.0 == ctx.ops@[self.0.ptr as int].results@[0],
    {
        Value(ctx.ops[self.0.ptr].results[0])
    }
}

impl ExtractOp {
    /// Extract from `value`, starting at bit `offset`, a value of type `ty`. The offset is
    /// held as a 32-bit integer attribute; offsets beyond `i64::MAX` are refused.
    pub fn build(builder: &mut OpBuilder, ty: &Type, value: &Value, offset: usize) -> (r: Option<ExtractOp>)
        requires
            old(builder).wf(),
        ensures
            builder_grew(final(builder), old(builder)),
            r is Some <==> (can_place(old(builder)) && old(builder).ctx.valid_value(value.0)
                && old(builder).ctx.valid_type(ty.0) && offset <= i64::MAX),
            r matches Some(op) ==> op_shape(&final(builder).ctx, op.0, "comb.extract"@, seq![value.0], seq![ty.0])
                && has_int_attr_of_width(&final(builder).ctx, op.0, 0, "lowBit"@, 32, offset as i64)
                && placed(&final(builder).ctx, &old(builder).ctx, op.0, old(builder).insert_point),
            r is None ==> final(builder).ctx == old(builder).ctx,
    {
        if offset as u64 > i64::MAX as u64 || !check_place(builder) || !builder.ctx.is_valid_value(value)
            || ty.0.ptr == 0 || ty.0.ptr >= builder.ctx.types.len() {
            return None;
        }
        let ghost old_b = *old(builder);
        let i32t = IntegerType::new(&mut builder.ctx, 32);
        let attr = IntegerAttr::new(&mut builder.ctx, &i32t.as_type(), offset as i64);
        let mut attrs: Vec<NamedAttribute> = Vec::new();
        attrs.push(NamedAttribute::new("lowBit", &attr.as_attribute()));
        let mut operands: Vec<Value> = Vec::new();
        operands.push(*value);
        let mut results: Vec<Type> = Vec::new();
        results.push(*ty);
        let ghost mid = *builder;
        proof {
            crate::dialect::lemma_grew_keeps(&mid, &old_b);
            assert(results@ =~= seq![*ty]);
            crate::dialect::lemma_one_type(&mid.ctx, results@, *ty);
            assert(operands@ =~= seq![*value]);
            crate::dialect::lemma_one_value(&mid.ctx, operands@, *value);
        }
        let r = build_valid::<ExtractOp>(builder, operands.as_slice(), results.as_slice(), attrs);
        proof {
            crate::dialect::lemma_grew_keeps_handles(builder, &mid);
            assert(values_raw(operands@) =~= seq![value.0]);
            assert(crate::ty::types_raw(results@) =~= seq![ty.0]);
            if let Some(op) = r {
                assert(crate::operation::named_raw(attrs@)[0] == attrs@[0].0);
                assert(is_int_type(&builder.ctx, i32t.0, 32));
                assert(builder.ctx.attrs@[attr.0.ptr as int] == mid.ctx.attrs@[attr.0.ptr as int]);
            }
        }
        r
    }

    /// Extract `length` bits of `value` from bit `offset`: the result is an integer of
    /// width `length`.
    pub fn with_sizes(builder: &mut OpBuilder, value: &Value, offset: usize, length: usize) -> (r: Option<ExtractOp>)
        requires
            old(builder).wf(),
        ensures
            builder_grew(final(builder), old(builder)),
            r is Some <==> (can_place(old(builder)) && old(builder).ctx.valid_value(value.0)
                && length <= u32::MAX && offset <= i64::MAX),
            r matches Some(op) ==> op_operands(&final(builder).ctx, op.0, "comb.extract"@, seq![value.0], 1)
                && result_int(&final(builder).ctx, op.0, 0, length as int)
                && has_int_attr_of_width(&final(builder).ctx, op.0, 0, "lowBit"@, 32, offset as i64)
                && placed(&final(builder).ctx, &old(builder).ctx, op.0, old(builder).insert_point),
            r is None ==> final(builder).ctx == old(builder).ctx,
    {
        if length as u64 > u32::MAX as u64 || offset as u64 > i64::MAX as u64 || !check_place(builder)
            || !builder.ctx.is_valid_value(value) {
            return None;
        }
        let ghost old_b = *old(builder);
        let t = IntegerType::new(&mut builder.ctx, length as u32);
        let ghost mid = *builder;
        proof {
            crate::dialect::lemma_grew_keeps(&mid, &old_b);
        }
        let r = ExtractOp::build(builder, &t.as_type(), value, offset);
        proof {
            crate::dialect::lemma_grew_keeps_handles(builder, &mid);
            if let Some(op) = r {
                assert(is_int_type(&builder.ctx, t.0, length as int));
            }
        }
        r
    }
}

/// The concatenation of integers; its width is the sum of theirs.
#[derive(Clone, Copy, Debug, PartialEq, Eq, Structural)]
pub struct ConcatOp(pub MlirOperation);

impl NamedOp for ConcatOp {
    open spec fn spec_name() -> Seq<char> {
        "comb.concat"@
    }

    open spec fn spec_op(&self) -> MlirOperation {
        self.0
    }

    fn operation_name() -> (r: &'static str) {
        "comb.concat"
    }

    fn wrap_op(raw: MlirOperation) -> (r: ConcatOp) {
        ConcatOp(raw)
    }

    fn as_operation(&self) -> (r: Operation) {
        Operation(self.0)
    }
}

impl ConcatOp {
    /// The single result.
    pub fn result(&self, ctx: &Context) -> (r: Value)
        requires
            ctx.valid_op(self.0),
            ctx.ops@[self.0.ptr as int].results@.len() > 0,
        ensures
            r.0 == ctx.ops@[self.0.ptr as int].results@[0],
    {
        Value(ctx.ops[self.0.ptr].results[0])
    }
}

impl ConcatOp {
    /// Concatenate integer values: the result's width is the sum of their widths.
    pub fn build(builder: &mut OpBuilder, values: &[Value]) -> (r: Option<ConcatOp>)
        requires
            old(builder).wf(),
        ensures
            builder_grew(final(builder), old(builder)),
            r is Some <==> (can_place(old(builder)) && all_int(&old(builder).ctx, values@)
                && sum_widths(&old(builder).ctx, values@) <= u32::MAX),
            r matches Some(op) ==> op_operands(&final(builder).ctx, op.0, "comb.concat"@, values_raw(values@), 1)
                && result_int(&final(builder).ctx, op.0, 0, sum_widths(&old(builder).ctx, values@))
                && placed(&final(builder).ctx, &old(builder).ctx, op.0, old(builder).insert_point),
            r is None ==> final(builder).ctx == old(builder).ctx,
    {
        if !check_place(builder) {
            return None;
        }
        let w = match total_width(&builder.ctx, values) {
            Some(w) => w,
            None => {
                return None;
            },
        };
        let ghost old_b = *old(builder);
        let t = IntegerType::new(&mut builder.ctx, w);
        let mut results: Vec<Type> = Vec::new();
        results.push(t.as_type());
        let ghost mid = *builder;
        proof {
            crate::dialect::lemma_grew_keeps(&mid, &old_b);
            assert forall|k: int| 0 <= k < values@.len() implies mid.ctx.valid_value(#[trigger] values@[k].0) by {
                assert(value_width(&old_b.ctx, values@[k].0) is Some);
            }
            assert(results@ =~= seq![Type(t.0)]);
            crate::dialect::lemma_one_type(&mid.ctx, results@, Type(t.0));
        }
        let r = build_valid::<ConcatOp>(builder, values, results.as_slice(), Vec::new());
        proof {
            crate::dialect::lemma_grew_keeps_handles(builder, &mid);
            assert(crate::ty::types_raw(results@) =~= seq![t.0]);
            if let Some(op) = r {
                assert(is_int_type(&builder.ctx, t.0, w as int));
            }
        }
        r
    }
}

/// `index` can be brought to the width of `into_ty`: the type has a width for indexing
/// that fits 32 bits, and `index` is a live integer.
pub open spec fn tz_ok(ctx: &Context, index: MlirValue, into_ty: MlirType) -> bool {
    &&& spec_type_width(ctx, into_ty) is Some
    &&& spec_type_width(ctx, into_ty)->0 <= u32::MAX
    &&& value_width(ctx, index) is Some
}

/// Bring the integer `index` to the width of `into_ty` (an array's size or an integer's
/// width): truncate it with an extract, extend it with zeros by a concatenation, or keep
/// it when the widths agree.
pub fn trunc_or_zext(builder: &mut OpBuilder, index: &Value, into_ty: &Type) -> (r: Option<Value>)
    requires
        old(builder).wf(),
    ensures
        builder_grew(final(builder), old(builder)),
        r is Some <==> (tz_ok(&old(builder).ctx, index.0, into_ty.0) && (spec_type_width(&old(builder).ctx, into_ty.0)
            == value_width(&old(builder).ctx, index.0) || can_place(old(builder)))),
        r matches Some(v) ==> value_width(&final(builder).ctx, v.0) == spec_type_width(&old(builder).ctx, into_ty.0),
        can_place(old(builder)) ==> can_place(final(builder)),
        r is None ==> final(builder).ctx == old(builder).ctx,
{
    let target = match type_width(&builder.ctx, into_ty) {
        Ok(w) => w,
        Err(_) => {
            return None;
        },
    };
    if target as u64 > u32::MAX as u64 {
        return None;
    }
    let t = target as u32;
    let actual = match int_width_of(&builder.ctx, index) {
        Some(a) => a,
        None => {
            return None;
        },
    };
    let ghost b0 = *old(builder);
    if t < actual {
        let e = ExtractOp::with_sizes(builder, index, 0, t as usize);
        match e {
            Some(op) => {
                proof {
                    crate::dialect::lemma_placed_keeps(builder, &b0, op.0);
                }
                Some(op.result(&builder.ctx))
            },
            None => None,
        }
    } else if t > actual {
        let zero = ConstantOp::build(builder, t - actual, 0);
        match zero {
            None => None,
            Some(z) => {
                let ghost b1 = *builder;
                proof {
                    crate::dialect::lemma_placed_keeps(builder, &b0, z.0);
                    crate::dialect::lemma_grew_keeps_handles(builder, &b0);
                }
                let zv = z.result(&builder.ctx);
                let mut vals: Vec<Value> = Vec::new();
                vals.push(zv);
                vals.push(*index);
                proof {
                    let s = vals@;
                    assert(s =~= seq![zv, *index]);
                    assert(s.drop_last() =~= seq![zv]);
                    assert(seq![zv].drop_last() =~= Seq::<Value>::empty());
                    assert(value_width(&b1.ctx, zv.0) == Some((t - actual) as int));
                    assert(value_width(&b1.ctx, index.0) == Some(actual as int));
                    assert(seq![zv].last() == zv);
                    assert(sum_widths(&b1.ctx, Seq::<Value>::empty()) == 0);
                    assert(sum_widths(&b1.ctx, seq![zv]) == (t - actual) as int);
                    assert(s.last() == *index);
                    assert(sum_widths(&b1.ctx, s) == t as int);
                    assert(all_int(&b1.ctx, s)) by {
                        assert forall|k: int| 0 <= k < s.len() implies #[trigger] value_width(&b1.ctx, s[k].0) is Some by {
                            if k == 0 {
                                assert(s[0] == zv);
                            } else {
                                assert(s[1] == *index);
                            }
                        }
                    }
                }
                let c = ConcatOp::build(builder, vals.as_slice());
                match c {
                    Some(op) => {
                        proof {
                            crate::dialect::lemma_placed_keeps(builder, &b1, op.0);
                        }
                        Some(op.result(&builder.ctx))
                    },
                    None => None,
                }
            },
        }
    } else {
        Some(*index)
    }
}

/// Bring `index` to the width `max(clog2(width of into_ty), 1)`: wide enough to index
/// into `into_ty`.
pub(crate) fn trunc_or_zext_to_clog2(builder: &mut OpBuilder, index: &Value, into_ty: &Type) -> (r: Option<Value>)
    requires
        old(builder).wf(),
    ensures
        builder_grew(final(builder), old(builder)),
        (spec_type_width(&old(builder).ctx, into_ty.0) is Some && spec_type_width(&old(builder).ctx, into_ty.0)->0
            <= 0x8000_0000_0000_0000u64 && value_width(&old(builder).ctx, index.0) is Some
            && can_place(old(builder))) ==> r is Some,
        r matches Some(v) ==> value_width(&final(builder).ctx, v.0) is Some && spec_type_width(&old(builder).ctx, into_ty.0) is Some
            && index_width_ok(spec_type_width(&old(builder).ctx, into_ty.0)->0, value_width(&final(builder).ctx, v.0)->0),
        can_place(old(builder)) ==> can_place(final(builder)),
{
    let c = match type_clog2(&builder.ctx, into_ty) {
        Some(c) => c,
        None => {
            return None;
        },
    };
    let w: u32 = if c < 1 {
        1
    } else {
        assert(c < 64) by {
            lemma_pow2_bound((c - 1) as nat);
        }
        c as u32
    };
    let ghost b0 = *old(builder);
    if int_width_of(&builder.ctx, index).is_none() {
        return None;
    }
    let t = IntegerType::new(&mut builder.ctx, w);
    let ghost b1 = *builder;
    proof {
        crate::dialect::lemma_grew_keeps(&b1, &b0);
        assert(spec_type_width(&b1.ctx, t.0) == Some(w as int));
    }
    let r = trunc_or_zext(builder, index, &Type(t.0));
    proof {
        assert(is_clog2(spec_type_width(&b0.ctx, into_ty.0)->0, c as nat));
    }
    r
}

/// `c` is the ceiling of the base-2 logarithm of `n`.
pub open spec fn is_clog2(n: int, c: nat) -> bool {
    pow2(c) >= n && (c == 0 || pow2((c - 1) as nat) < n)
}

/// `w` is the width that indexes `n` elements: `max(1, clog2(n))`.
pub open spec fn index_width_ok(n: int, w: int) -> bool {
    exists|c: nat| #[trigger] is_clog2(n, c) && w == if c < 1 {
        1
    } else {
        c as int
    }
}

proof fn lemma_pow2_63()
    ensures
        pow2(63) == 0x8000_0000_0000_0000int,
{
    reveal_with_fuel(pow2, 64);
}

/// `2^k` is at least 1; past 63 it exceeds `2^63`.
proof fn lemma_pow2_bound(k: nat)
    ensures
        k >= 63 ==> pow2(k) >= 0x8000_0000_0000_0000u64,
        pow2(k) >= 1,
    decreases k,
{
    if k == 63 {
        lemma_pow2_63();
    } else if k > 0 {
        lemma_pow2_bound((k - 1) as nat);
        if k == 63 {
            lemma_pow2_63();
        }
    }
}

impl ShrUOp {
    /// Shift `value` by `amount`, first brought to the width of `value`'s type.
    pub fn with_sizes(builder: &mut OpBuilder, value: &Value, amount: &Value) -> (r: Option<ShrUOp>)
        requires
            old(builder).wf(),
        ensures
            builder_grew(final(builder), old(builder)),
            r is Some <==> (can_place(old(builder)) && old(builder).ctx.valid_value(value.0)
                && tz_ok(&old(builder).ctx, amount.0, old(builder).ctx.type_of(value.0))),
            r matches Some(op) ==> op_shape(&final(builder).ctx, op.0, "comb.shru"@,
                seq![value.0, final(builder).ctx.ops@[op.0.ptr as int].operands@[1]], seq![old(builder).ctx.type_of(value.0)])
                && value_width(&final(builder).ctx, final(builder).ctx.ops@[op.0.ptr as int].operands@[1])
                    == spec_type_width(&old(builder).ctx, old(builder).ctx.type_of(value.0)),
    {
        if !check_place(builder) || !builder.ctx.is_valid_value(value) {
            return None;
        }
        let ghost b0 = *old(builder);
        let ty = value.ty(&builder.ctx);
        let a = trunc_or_zext(builder, amount, &ty);
        match a {
            None => None,
            Some(a2) => {
                let ghost b1 = *builder;
                proof {
                    crate::dialect::lemma_grew_keeps_handles(&b1, &b0);
                    let s = seq![*value, a2];
                    assert forall|k: int| 0 <= k < s.len() implies b1.ctx.valid_value(#[trigger] s[k].0) by {
                        if k == 0 {
                            assert(s[0] == *value);
                        } else {
                            assert(s[1] == a2);
                        }
                    }
                }
                ShrUOp::build(builder, value, &a2)
            },
        }
    }
}

impl ShrSOp {
    /// Shift `value` by `amount`, first brought to the width of `value`'s type.
    pub fn with_sizes(builder: &mut OpBuilder, value: &Value, amount: &Value) -> (r: Option<ShrSOp>)
        requires
            old(builder).wf(),
        ensures
            builder_grew(final(builder), old(builder)),
            r is Some <==> (can_place(old(builder)) && old(builder).ctx.valid_value(value.0)
                && tz_ok(&old(builder).ctx, amount.0, old(builder).ctx.type_of(value.0))),
            r matches Some(op) ==> op_shape(&final(builder).ctx, op.0, "comb.shrs"@,
                seq![value.0, final(builder).ctx.ops@[op.0.ptr as int].operands@[1]], seq![old(builder).ctx.type_of(value.0)])
                && value_width(&final(builder).ctx, final(builder).ctx.ops@[op.0.ptr as int].operands@[1])
                    == spec_type_width(&old(builder).ctx, old(builder).ctx.type_of(value.0)),
    {
        if !check_place(builder) || !builder.ctx.is_valid_value(value) {
            return None;
        }
        let ghost b0 = *old(builder);
        let ty = value.ty(&builder.ctx);
        let a = trunc_or_zext(builder, amount, &ty);
        match a {
            None => None,
            Some(a2) => {
                let ghost b1 = *builder;
                proof {
                    crate::dialect::lemma_grew_keeps_handles(&b1, &b0);
                    let s = seq![*value, a2];
                    assert forall|k: int| 0 <= k < s.len() implies b1.ctx.valid_value(#[trigger] s[k].0) by {
                        if k == 0 {
                            assert(s[0] == *value);
                        } else {
                            assert(s[1] == a2);
                        }
                    }
                }
                ShrSOp::build(builder, value, &a2)
            },
        }
    }
}

impl ShlOp {
    /// Shift `value` by `amount`, first brought to the width of `value`'s type.
    pub fn with_sizes(builder: &mut OpBuilder, value: &Value, amount: &Value) -> (r: Option<ShlOp>)
        requires
            old(builder).wf(),
        ensures
            builder_grew(final(builder), old(builder)),
            r is Some <==> (can_place(old(builder)) && old(builder).ctx.valid_value(value.0)
                && tz_ok(&old(builder).ctx, amount.0, old(builder).ctx.type_of(value.0))),
            r matches Some(op) ==> op_shape(&final(builder).ctx, op.0, "comb.shl"@,
                seq![value.0, final(builder).ctx.ops@[op.0.ptr as int].operands@[1]], seq![old(builder).ctx.type_of(value.0)])
                && value_width(&final(builder).ctx, final(builder).ctx.ops@[op.0.ptr as int].operands@[1])
                    == spec_type_width(&old(builder).ctx, old(builder).ctx.type_of(value.0)),
    {
        if !check_place(builder) || !builder.ctx.is_valid_value(value) {
            return None;
        }
        let ghost b0 = *old(builder);
        let ty = value.ty(&builder.ctx);
        let a = trunc_or_zext(builder, amount, &ty);
        match a {
            None => None,
            Some(a2) => {
                let ghost b1 = *builder;
                proof {
                    crate::dialect::lemma_grew_keeps_handles(&b1, &b0);
                    let s = seq![*value, a2];
                    assert forall|k: int| 0 <= k < s.len() implies b1.ctx.valid_value(#[trigger] s[k].0) by {
                        if k == 0 {
                            assert(s[0] == *value);
                        } else {
                            assert(s[1] == a2);
                        }
                    }
                }
                ShlOp::build(builder, value, &a2)
            },
        }
    }
}

/// The `comb` dialect.
pub fn dialect() -> (r: crate::context::DialectHandle)
    ensures
        r.namespace@ == "comb"@,
{
    crate::context::DialectHandle::new("comb")
}

} // verus!

//! The `hw` dialect: hardware types, value operations, and modules with ports.
use vstd::prelude::*;
use crate::attr::{Attr, IntegerAttr, NamedAttribute, ParamDeclAttr, StringAttr};
use crate::builder::{placed, OpBuilder};
use crate::context::{AttrData, Context, StructField, TypeData};
use crate::dialect::{
    all_valid_types, all_valid_values, build_valid, builder_grew, can_place, check_place,
    check_value_vec, has_int_attr_of_width, has_string_attr, op_operands, op_shape, result_int,
};
use crate::error::Error;
use crate::operation::{NamedOp, Operation};
use crate::ty::{intern_flat, narrow_type, push_type, type_added, FlatType, IntegerType, Ty, TyIsa, Type};
use crate::value::{values_raw, Value};
use crate::wrap_raw::{MlirBlock, MlirOperation, MlirType, MlirValue};

verus! {

/// A hardware type kind.
pub trait HwTy: Ty {

}

/// A fixed-size array type `!hw.array<NxT>`.
#[derive(Clone, Copy, Debug, PartialEq, Eq, Structural)]
pub struct ArrayType(pub MlirType);

impl Ty for ArrayType {
    open spec fn spec_type(&self) -> MlirType {
        self.0
    }

    fn as_type(&self) -> (r: Type) {
        Type(self.0)
    }
}

impl TyIsa for ArrayType {
    open spec fn spec_isa(ctx: &Context, t: MlirType) -> bool {
        ctx.valid_type(t) && ctx.types@[t.ptr as int] is Array
    }

    open spec fn spec_kind_name() -> Seq<char> {
        "ArrayType"@
    }

    fn kind_name() -> (r: &'static str) {
        "ArrayType"
    }

    fn isa(ctx: &Context, ty: &Type) -> (r: bool) {
        if ty.0.ptr == 0 || ty.0.ptr >= ctx.types.len() {
            return false;
        }
        match &ctx.types[ty.0.ptr] {
            TypeData::Array { .. } => true,
            _ => false,
        }
    }

    fn wrap(t: Type) -> (r: ArrayType) {
        ArrayType(t.0)
    }
}

impl ArrayType {
    /// Narrow a type to this kind: succeeds exactly when it is one, with the same handle.
    pub fn try_from(ctx: &Context, ty: Type) -> (r: Result<ArrayType, Error>)
        requires
            ctx.wf(),
        ensures
            r is Ok <==> ArrayType::spec_isa(ctx, ty.0),
            r matches Ok(k) ==> k.0 == ty.0,
            r matches Err(e) ==> crate::error::is_kind_mismatch(e, ArrayType::spec_kind_name(), crate::ty::type_rendering(ctx, ty.0)),
    {
        narrow_type::<ArrayType>(ctx, ty)
    }
}

/// An inout type `!hw.inout<T>`.
#[derive(Clone, Copy, Debug, PartialEq, Eq, Structural)]
pub struct InOutType(pub MlirType);

impl Ty for InOutType {
    open spec fn spec_type(&self) -> MlirType {
        self.0
    }

    fn as_type(&self) -> (r: Type) {
        Type(self.0)
    }
}

impl TyIsa for InOutType {
    open spec fn spec_isa(ctx: &Context, t: MlirType) -> bool {
        ctx.valid_type(t) && ctx.types@[t.ptr as int] is InOut
    }

    open spec fn spec_kind_name() -> Seq<char> {
        "InOutType"@
    }

    fn kind_name() -> (r: &'static str) {
        "InOutType"
    }

    fn isa(ctx: &Context, ty: &Type) -> (r: bool) {
        if ty.0.ptr == 0 || ty.0.ptr >= ctx.types.len() {
            return false;
        }
        match &ctx.types[ty.0.ptr] {
            TypeData::InOut { .. } => true,
            _ => false,
        }
    }

    fn wrap(t: Type) -> (r: InOutType) {
        InOutType(t.0)
    }
}

impl InOutType {
    /// Narrow a type to this kind: succeeds exactly when it is one, with the same handle.
    pub fn try_from(ctx: &Context, ty: Type) -> (r: Result<InOutType, Error>)
        requires
            ctx.wf(),
        ensures
            r is Ok <==> InOutType::spec_isa(ctx, ty.0),
            r matches Ok(k) ==> k.0 == ty.0,
            r matches Err(e) ==> crate::error::is_kind_mismatch(e, InOutType::spec_kind_name(), crate::ty::type_rendering(ctx, ty.0)),
    {
        narrow_type::<InOutType>(ctx, ty)
    }
}

/// A struct type `!hw.struct<name: T, ...>`.
#[derive(Clone, Copy, Debug, PartialEq, Eq, Structural)]
pub struct StructType(pub MlirType);

impl Ty for StructType {
    open spec fn spec_type(&self) -> MlirType {
        self.0
    }

    fn as_type(&self) -> (r: Type) {
        Type(self.0)
    }
}

impl TyIsa for StructType {
    open spec fn spec_isa(ctx: &Context, t: MlirType) -> bool {
        ctx.valid_type(t) && ctx.types@[t.ptr as int] is Struct
    }

    open spec fn spec_kind_name() -> Seq<char> {
        "StructType"@
    }

    fn kind_name() -> (r: &'static str) {
        "StructType"
    }

    fn isa(ctx: &Context, ty: &Type) -> (r: bool) {
        if ty.0.ptr == 0 || ty.0.ptr >= ctx.types.len() {
            return false;
        }
        match &ctx.types[ty.0.ptr] {
            TypeData::Struct { .. } => true,
            _ => false,
        }
    }

    fn wrap(t: Type) -> (r: StructType) {
        StructType(t.0)
    }
}

impl StructType {
    /// Narrow a type to this kind: succeeds exactly when it is one, with the same handle.
    pub fn try_from(ctx: &Context, ty: Type) -> (r: Result<StructType, Error>)
        requires
            ctx.wf(),
        ensures
            r is Ok <==> StructType::spec_isa(ctx, ty.0),
            r matches Ok(k) ==> k.0 == ty.0,
            r matches Err(e) ==> crate::error::is_kind_mismatch(e, StructType::spec_kind_name(), crate::ty::type_rendering(ctx, ty.0)),
    {
        narrow_type::<StructType>(ctx, ty)
    }
}

/// A named alias of a type, `!hw.typealias<@scope::@name, T>`.
#[derive(Clone, Copy, Debug, PartialEq, Eq, Structural)]
pub struct AliasType(pub MlirType);

impl Ty for AliasType {
    open spec fn spec_type(&self) -> MlirType {
        self.0
    }

    fn as_type(&self) -> (r: Type) {
        Type(self.0)
    }
}

impl TyIsa for AliasType {
    open spec fn spec_isa(ctx: &Context, t: MlirType) -> bool {
        ctx.valid_type(t) && ctx.types@[t.ptr as int] is Alias
    }

    open spec fn spec_kind_name() -> Seq<char> {
        "AliasType"@
    }

    fn kind_name() -> (r: &'static str) {
        "AliasType"
    }

    fn isa(ctx: &Context, ty: &Type) -> (r: bool) {
        if ty.0.ptr == 0 || ty.0.ptr >= ctx.types.len() {
            return false;
        }
        match &ctx.types[ty.0.ptr] {
            TypeData::Alias { .. } => true,
            _ => false,
        }
    }

    fn wrap(t: Type) -> (r: AliasType) {
        AliasType(t.0)
    }
}

impl AliasType {
    /// Narrow a type to this kind: succeeds exactly when it is one, with the same handle.
    pub fn try_from(ctx: &Context, ty: Type) -> (r: Result<AliasType, Error>)
        requires
            ctx.wf(),
        ensures
            r is Ok <==> AliasType::spec_isa(ctx, ty.0),
            r matches Ok(k) ==> k.0 == ty.0,
            r matches Err(e) ==> crate::error::is_kind_mismatch(e, AliasType::spec_kind_name(), crate::ty::type_rendering(ctx, ty.0)),
    {
        narrow_type::<AliasType>(ctx, ty)
    }
}

impl HwTy for AliasType {

}

/// The type an alias chain ends in: `t` itself unless it is an alias.
pub open spec fn canonical_of(types: Seq<TypeData>, i: int) -> int
    decreases i,
{
    if 0 < i < types.len() {
        match types[i] {
            TypeData::Alias { scope, name, inner } => if 0 < inner.ptr < i {
                canonical_of(types, inner.ptr as int)
            } else {
                i
            },
            _ => i,
        }
    } else {
        i
    }
}

fn canonical(ctx: &Context, t: MlirType) -> (r: MlirType)
    requires
        ctx.wf(),
        ctx.valid_type(t),
    ensures
        r.ptr == canonical_of(ctx.types@, t.ptr as int),
    decreases t.ptr,
{
    assert(crate::context::type_data_ok(ctx.types@[t.ptr as int], t.ptr as int));
    match &ctx.types[t.ptr] {
        TypeData::Alias { scope, name, inner } => canonical(ctx, *inner),
        _ => t,
    }
}

impl AliasType {
    /// The alias `name` in `scope` of `inner_type`; `None` when that type is not live.
    pub fn new(ctx: &mut Context, scope: &str, name: &str, inner_type: Type) -> (r: Option<AliasType>)
        requires
            old(ctx).wf(),
        ensures
            r is Some <==> old(ctx).valid_type(inner_type.0),
            r matches Some(a) ==> type_added(final(ctx), old(ctx), a.0) && AliasType::spec_isa(final(ctx), a.0)
                && alias_parts(final(ctx), a.0, scope@, name@, inner_type.0),
            r is None ==> *final(ctx) == *old(ctx),
    {
        if inner_type.0.ptr == 0 || inner_type.0.ptr >= ctx.types.len() {
            return None;
        }
        Some(
            AliasType(
                push_type(
                    ctx,
                    TypeData::Alias {
                        scope: String::from_str(scope),
                        name: String::from_str(name),
                        inner: inner_type.0,
                    },
                ),
            ),
        )
    }

    /// The type at the end of the alias chain.
    pub fn canonical_type(&self, ctx: &Context) -> (r: Type)
        requires
            ctx.wf(),
            AliasType::spec_isa(ctx, self.0),
        ensures
            r.0.ptr == canonical_of(ctx.types@, self.0.ptr as int),
    {
        Type(canonical(ctx, self.0))
    }

    /// The aliased type.
    pub fn inner_type(&self, ctx: &Context) -> (r: Type)
        requires
            AliasType::spec_isa(ctx, self.0),
        ensures
            ctx.types@[self.0.ptr as int] matches TypeData::Alias { scope, name, inner } && inner == r.0,
    {
        match &ctx.types[self.0.ptr] {
            TypeData::Alias { scope, name, inner } => Type(*inner),
            _ => Type(MlirType { ptr: 0 }),
        }
    }

    pub fn name(&self, ctx: &Context) -> (r: String)
        requires
            AliasType::spec_isa(ctx, self.0),
        ensures
            ctx.types@[self.0.ptr as int] matches TypeData::Alias { scope, name, inner } && name@ == r@,
    {
        match &ctx.types[self.0.ptr] {
            TypeData::Alias { scope, name, inner } => name.clone(),
            _ => String::new(),
        }
    }

    pub fn scope(&self, ctx: &Context) -> (r: String)
        requires
            AliasType::spec_isa(ctx, self.0),
        ensures
            ctx.types@[self.0.ptr as int] matches TypeData::Alias { scope, name, inner } && scope@ == r@,
    {
        match &ctx.types[self.0.ptr] {
            TypeData::Alias { scope, name, inner } => scope.clone(),
            _ => String::new(),
        }
    }
}

/// Type `t` is the alias `name` in `scope` of `inner`.
pub open spec fn alias_parts(ctx: &Context, t: MlirType, scope: Seq<char>, name: Seq<char>, inner: MlirType) -> bool {
    match ctx.types@[t.ptr as int] {
        TypeData::Alias { scope: s, name: n, inner: i } => s@ == scope && n@ == name && i == inner,
        _ => false,
    }
}

impl HwTy for ArrayType {

}

impl HwTy for InOutType {

}

impl HwTy for StructType {

}

impl ArrayType {
    /// The array type of `size` elements of type `element_type`.
    pub fn new(ctx: &mut Context, element_type: &Type, size: usize) -> (r: ArrayType)
        requires
            old(ctx).wf(),
            old(ctx).valid_type(element_type.0),
        ensures
            type_added(final(ctx), old(ctx), r.0),
            final(ctx).types@[r.0.ptr as int] == (TypeData::Array { element: element_type.0, size }),
    {
        ArrayType(intern_flat(ctx, FlatType::Array(element_type.0, size)))
    }

    /// The number of elements.
    pub fn size(&self, ctx: &Context) -> (r: usize)
        requires
            ArrayType::spec_isa(ctx, self.0),
        ensures
            ctx.types@[self.0.ptr as int] matches TypeData::Array { element, size } && size == r,
    {
        match &ctx.types[self.0.ptr] {
            TypeData::Array { element, size } => *size,
            _ => 0,
        }
    }

    /// The element type.
    pub fn element_type(&self, ctx: &Context) -> (r: Option<Type>)
        requires
            ArrayType::spec_isa(ctx, self.0),
        ensures
            r matches Some(t) && ctx.types@[self.0.ptr as int] matches TypeData::Array { element, size } && element == t.0,
    {
        match &ctx.types[self.0.ptr] {
            TypeData::Array { element, size } => Some(Type(*element)),
            _ => None,
        }
    }
}

impl InOutType {
    /// The inout type of `element`.
    pub fn new(ctx: &mut Context, element: &Type) -> (r: InOutType)
        requires
            old(ctx).wf(),
            old(ctx).valid_type(element.0),
        ensures
            type_added(final(ctx), old(ctx), r.0),
            final(ctx).types@[r.0.ptr as int] == (TypeData::InOut { element: element.0 }),
    {
        InOutType(intern_flat(ctx, FlatType::InOut(element.0)))
    }

    /// The element type.
    pub fn element_type(&self, ctx: &Context) -> (r: Type)
        requires
            InOutType::spec_isa(ctx, self.0),
        ensures
            ctx.types@[self.0.ptr as int] == (TypeData::InOut { element: r.0 }),
    {
        match &ctx.types[self.0.ptr] {
            TypeData::InOut { element } => Type(*element),
            _ => Type(MlirType { ptr: 0 }),
        }
    }
}

pub open spec fn struct_fields(ctx: &Context, t: MlirType) -> Seq<StructField> {
    match ctx.types@[t.ptr as int] {
        TypeData::Struct { fields } => fields@,
        _ => Seq::empty(),
    }
}

impl StructType {
    /// The struct type with the given fields, in order.
    pub fn new(ctx: &mut Context, elements: &[(String, Type)]) -> (r: StructType)
        requires
            old(ctx).wf(),
            forall|k: int| 0 <= k < elements@.len() ==> old(ctx).valid_type((#[trigger] elements@[k].1).0),
        ensures
            type_added(final(ctx), old(ctx), r.0),
            StructType::spec_isa(final(ctx), r.0),
            struct_fields(final(ctx), r.0).len() == elements@.len(),
            forall|k: int| 0 <= k < elements@.len() ==> (#[trigger] struct_fields(final(ctx), r.0)[k]).name@
                == elements@[k].0@ && struct_fields(final(ctx), r.0)[k].ty == (elements@[k].1).0,
    {
        let mut fields: Vec<StructField> = Vec::new();
        let mut k: usize = 0;
        while k < elements.len()
            invariant
                k <= elements@.len(),
                fields@.len() == k,
                forall|j: int| 0 <= j < k ==> (#[trigger] fields@[j]).name@ == elements@[j].0@ && fields@[j].ty == (elements@[j].1).0,
            decreases elements@.len() - k,
        {
            fields.push(StructField { name: elements[k].0.clone(), ty: (elements[k].1).0 });
            k = k + 1;
        }
        StructType(push_type(ctx, TypeData::Struct { fields }))
    }

    pub fn num_fields(&self, ctx: &Context) -> (r: usize)
        requires
            StructType::spec_isa(ctx, self.0),
        ensures
            r == struct_fields(ctx, self.0).len(),
    {
        match &ctx.types[self.0.ptr] {
            TypeData::Struct { fields } => fields.len(),
            _ => 0,
        }
    }

    /// Field `pos`: its name and type, if there is one.
    pub fn field_at(&self, ctx: &Context, pos: usize) -> (r: Option<(String, Type)>)
        requires
            StructType::spec_isa(ctx, self.0),
        ensures
            r is Some <==> pos < struct_fields(ctx, self.0).len(),
            r matches Some(f) ==> f.0@ == struct_fields(ctx, self.0)[pos as int].name@ && (f.1).0 == struct_fields(ctx, self.0)[pos as int].ty,
    {
        match &ctx.types[self.0.ptr] {
            TypeData::Struct { fields } => {
                if pos < fields.len() {
                    Some((fields[pos].name.clone(), Type(fields[pos].ty)))
                } else {
                    None
                }
            },
            _ => None,
        }
    }

    /// The type of the first field named `field_name`, if there is one.
    pub fn field(&self, ctx: &Context, field_name: &str) -> (r: Option<Type>)
        requires
            StructType::spec_isa(ctx, self.0),
        ensures
            r is Some <==> exists|k: int| 0 <= k < struct_fields(ctx, self.0).len() && (#[trigger] struct_fields(ctx, self.0)[k]).name@ == field_name@,
            r matches Some(t) ==> exists|k: int| 0 <= k < struct_fields(ctx, self.0).len() && (#[trigger] struct_fields(ctx, self.0)[k]).name@ == field_name@ && struct_fields(ctx, self.0)[k].ty == t.0,
    {
        let n = self.num_fields(ctx);
        let mut k: usize = 0;
        while k < n
            invariant
                StructType::spec_isa(ctx, self.0),
                n == struct_fields(ctx, self.0).len(),
                k <= n,
                forall|j: int| 0 <= j < k ==> (#[trigger] struct_fields(ctx, self.0)[j]).name@ != field_name@,
            decreases n - k,
        {
            let f = self.field_at(ctx, k).unwrap();
            if crate::text::str_eq(f.0.as_str(), field_name) {
                return Some(f.1);
            }
            k = k + 1;
        }
        None
    }

    /// All fields, in order.
    pub fn fields(&self, ctx: &Context) -> (r: Vec<(String, Type)>)
        requires
            StructType::spec_isa(ctx, self.0),
        ensures
            r@.len() == struct_fields(ctx, self.0).len(),
            forall|k: int| 0 <= k < r@.len() ==> (#[trigger] r@[k]).0@ == struct_fields(ctx, self.0)[k].name@ && (r@[k].1).0 == struct_fields(ctx, self.0)[k].ty,
    {
        let n = self.num_fields(ctx);
        let mut r: Vec<(String, Type)> = Vec::new();
        let mut k: usize = 0;
        while k < n
            invariant
                StructType::spec_isa(ctx, self.0),
                n == struct_fields(ctx, self.0).len(),
                k <= n,
                r@.len() == k,
                forall|j: int| 0 <= j < k ==> (#[trigger] r@[j]).0@ == struct_fields(ctx, self.0)[j].name@ && (r@[j].1).0 == struct_fields(ctx, self.0)[j].ty,
            decreases n - k,
        {
            r.push(self.field_at(ctx, k).unwrap());
            k = k + 1;
        }
        r
    }
}

/// An integer constant.
#[derive(Clone, Copy, Debug, PartialEq, Eq, Structural)]
pub struct ConstantOp(pub MlirOperation);

impl NamedOp for ConstantOp {
    open spec fn spec_name() -> Seq<char> {
        "hw.constant"@
    }

    open spec fn spec_op(&self) -> MlirOperation {
        self.0
    }

    fn operation_name() -> (r: &'static str) {
        "hw.constant"
    }

    fn wrap_op(raw: MlirOperation) -> (r: ConstantOp) {
        ConstantOp(raw)
    }

    fn as_operation(&self) -> (r: Operation) {
        Operation(self.0)
    }
}

impl ConstantOp {
    /// The single result.
    pub fn result(&self, ctx: &Context) -> (r: Value)
        requires
            ctx.valid_op(self.0),
            ctx.ops@[self.0.ptr as int].results@.len() > 0,
        ensures
            r.0 == ctx.ops@[self.0.ptr as int].results@[0],
    {
        Value(ctx.ops[self.0.ptr].results[0])
    }
}

impl ConstantOp {
    /// Build the constant `value` of an integer type of width `width`.
    pub fn build(builder: &mut OpBuilder, width: u32, value: i64) -> (r: Option<ConstantOp>)
        requires
            old(builder).wf(),
        ensures
            builder_grew(final(builder), old(builder)),
            r is Some <==> can_place(old(builder)),
            r matches Some(op) ==> op_operands(&final(builder).ctx, op.0, "hw.constant"@, Seq::empty(), 1)
                && result_int(&final(builder).ctx, op.0, 0, width as int)
                && has_int_attr_of_width(&final(builder).ctx, op.0, 0, "value"@, width as int, value)
                && placed(&final(builder).ctx, &old(builder).ctx, op.0, old(builder).insert_point),
            r is None ==> final(builder).ctx == old(builder).ctx,
    {
        if !check_place(builder) {
            return None;
        }
        let ghost old_b = *old(builder);
        let ty = IntegerType::new(&mut builder.ctx, width);
        let attr = IntegerAttr::new(&mut builder.ctx, &ty.as_type(), value);
        let mut attrs: Vec<NamedAttribute> = Vec::new();
        attrs.push(NamedAttribute::new("value", &attr.as_attribute()));
        let mut results: Vec<Type> = Vec::new();
        results.push(ty.as_type());
        let operands: Vec<Value> = Vec::new();
        let ghost mid = *builder;
        proof {
            crate::dialect::lemma_grew_keeps(&mid, &old_b);
            assert(all_valid_values(&mid.ctx, operands@));
            assert(all_valid_types(&mid.ctx, results@));
        }
        let r = build_valid::<ConstantOp>(builder, operands.as_slice(), results.as_slice(), attrs);
        proof {
            crate::dialect::lemma_grew_keeps_handles(builder, &mid);
            assert(values_raw(operands@) =~= Seq::<MlirValue>::empty());
            assert(crate::ty::types_raw(results@) =~= seq![ty.0]);
            if let Some(op) = r {
                assert(op_shape(&builder.ctx, op.0, "hw.constant"@, Seq::empty(), seq![ty.0]));
                assert(op_operands(&builder.ctx, op.0, "hw.constant"@, Seq::empty(), 1));
                assert(result_int(&builder.ctx, op.0, 0, width as int));
                assert(attrs@[0].0.name@ == "value"@);
                assert(crate::operation::named_raw(attrs@)[0] == attrs@[0].0);
                assert(builder.ctx.attrs@[attr.0.ptr as int] == mid.ctx.attrs@[attr.0.ptr as int]);
                assert(crate::dialect::is_int_type(&builder.ctx, ty.0, width as int));
                assert(has_int_attr_of_width(&builder.ctx, op.0, 0, "value"@, width as int, value));
            }
        }
        r
    }
}

/// The terminator of a module body: the values of its output ports.
#[derive(Clone, Copy, Debug, PartialEq, Eq, Structural)]
pub struct OutputOp(pub MlirOperation);

impl NamedOp for OutputOp {
    open spec fn spec_name() -> Seq<char> {
        "hw.output"@
    }

    open spec fn spec_op(&self) -> MlirOperation {
        self.0
    }

    fn operation_name() -> (r: &'static str) {
        "hw.output"
    }

    fn wrap_op(raw: MlirOperation) -> (r: OutputOp) {
        OutputOp(raw)
    }

    fn as_operation(&self) -> (r: Operation) {
        Operation(self.0)
    }
}

impl OutputOp {
    /// Build an output operation with the given values, in port order.
    pub fn build(builder: &mut OpBuilder, outputs: &[Value]) -> (r: Option<OutputOp>)
        requires
            old(builder).wf(),
        ensures
            builder_grew(final(builder), old(builder)),
            r is Some <==> (can_place(old(builder)) && all_valid_values(&old(builder).ctx, outputs@)),
            r matches Some(op) ==> op_operands(&final(builder).ctx, op.0, "hw.output"@, values_raw(outputs@), 0)
                && placed(&final(builder).ctx, &old(builder).ctx, op.0, old(builder).insert_point),
            r is None ==> final(builder).ctx == old(builder).ctx,
    {
        let results: Vec<Type> = Vec::new();
        crate::dialect::build_simple::<OutputOp>(builder, outputs, results.as_slice(), Vec::new())
    }
}

/// An array value made of element values.
#[derive(Clone, Copy, Debug, PartialEq, Eq, Structural)]
pub struct ArrayCreateOp(pub MlirOperation);

impl NamedOp for ArrayCreateOp {
    open spec fn spec_name() -> Seq<char> {
        "hw.array_create"@
    }

    open spec fn spec_op(&self) -> MlirOperation {
        self.0
    }

    fn operation_name() -> (r: &'static str) {
        "hw.array_create"
    }

    fn wrap_op(raw: MlirOperation) -> (r: ArrayCreateOp) {
        ArrayCreateOp(raw)
    }

    fn as_operation(&self) -> (r: Operation) {
        Operation(self.0)
    }
}

impl ArrayCreateOp {
    /// The single result.
    pub fn result(&self, ctx: &Context) -> (r: Value)
        requires
            ctx.valid_op(self.0),
            ctx.ops@[self.0.ptr as int].results@.len() > 0,
        ensures
            r.0 == ctx.ops@[self.0.ptr as int].results@[0],
    {
        Value(ctx.ops[self.0.ptr].results[0])
    }
}

impl ArrayCreateOp {
    /// Build the operation from `values`; its result has type `ty`.
    pub fn new(builder: &mut OpBuilder, ty: &Type, values: &[Value]) -> (r: Option<ArrayCreateOp>)
        requires
            old(builder).wf(),
        ensures
            builder_grew(final(builder), old(builder)),
            r is Some <==> (can_place(old(builder)) && all_valid_values(&old(builder).ctx, values@)
                && old(builder).ctx.valid_type(ty.0)),
            r matches Some(op) ==> op_shape(&final(builder).ctx, op.0, "hw.array_create"@, values_raw(values@), seq![ty.0])
                && placed(&final(builder).ctx, &old(builder).ctx, op.0, old(builder).insert_point),
            r is None ==> final(builder).ctx == old(builder).ctx,
    {
        let mut results: Vec<Type> = Vec::new();
        results.push(*ty);
        let r = crate::dialect::build_simple::<ArrayCreateOp>(builder, values, results.as_slice(), Vec::new());
        proof {
            assert(crate::ty::types_raw(results@) =~= seq![ty.0]);
            assert(results@ =~= seq![*ty]);
            crate::dialect::lemma_one_type(&old(builder).ctx, results@, *ty);
        }
        r
    }
}

/// A struct value made of field values.
#[derive(Clone, Copy, Debug, PartialEq, Eq, Structural)]
pub struct StructCreateOp(pub MlirOperation);

impl NamedOp for StructCreateOp {
    open spec fn spec_name() -> Seq<char> {
        "hw.struct_create"@
    }

    open spec fn spec_op(&self) -> MlirOperation {
        self.0
    }

    fn operation_name() -> (r: &'static str) {
        "hw.struct_create"
    }

    fn wrap_op(raw: MlirOperation) -> (r: StructCreateOp) {
        StructCreateOp(raw)
    }

    fn as_operation(&self) -> (r: Operation) {
        Operation(self.0)
    }
}

impl StructCreateOp {
    /// The single result.
    pub fn result(&self, ctx: &Context) -> (r: Value)
        requires
            ctx.valid_op(self.0),
            ctx.ops@[self.0.ptr as int].results@.len() > 0,
        ensures
            r.0 == ctx.ops@[self.0.ptr as int].results@[0],
    {
        Value(ctx.ops[self.0.ptr].results[0])
    }
}

impl StructCreateOp {
    /// Build the operation from `values`; its result has type `ty`.
    pub fn build(builder: &mut OpBuilder, ty: &Type, values: &[Value]) -> (r: Option<StructCreateOp>)
        requires
            old(builder).wf(),
        ensures
            builder_grew(final(builder), old(builder)),
            r is Some <==> (can_place(old(builder)) && all_valid_values(&old(builder).ctx, values@)
                && old(builder).ctx.valid_type(ty.0)),
            r matches Some(op) ==> op_shape(&final(builder).ctx, op.0, "hw.struct_create"@, values_raw(values@), seq![ty.0])
                && placed(&final(builder).ctx, &old(builder).ctx, op.0, old(builder).insert_point),
            r is None ==> final(builder).ctx == old(builder).ctx,
    {
        let mut results: Vec<Type> = Vec::new();
        results.push(*ty);
        let r = crate::dialect::build_simple::<StructCreateOp>(builder, values, results.as_slice(), Vec::new());
        proof {
            assert(crate::ty::types_raw(results@) =~= seq![ty.0]);
            assert(results@ =~= seq![*ty]);
            crate::dialect::lemma_one_type(&old(builder).ctx, results@, *ty);
        }
        r
    }
}

/// A reinterpretation of a value's bits as another type.
#[derive(Clone, Copy, Debug, PartialEq, Eq, Structural)]
pub struct BitcastOp(pub MlirOperation);

impl NamedOp for BitcastOp {
    open spec fn spec_name() -> Seq<char> {
        "hw.bitcast"@
    }

    open spec fn spec_op(&self) -> MlirOperation {
        self.0
    }

    fn operation_name() -> (r: &'static str) {
        "hw.bitcast"
    }

    fn wrap_op(raw: MlirOperation) -> (r: BitcastOp) {
        BitcastOp(raw)
    }

    fn as_operation(&self) -> (r: Operation) {
        Operation(self.0)
    }
}

impl BitcastOp {
    /// The single result.
    pub fn result(&self, ctx: &Context) -> (r: Value)
        requires
            ctx.valid_op(self.0),
            ctx.ops@[self.0.ptr as int].results@.len() > 0,
        ensures
            r.0 == ctx.ops@[self.0.ptr as int].results@[0],
    {
        Value(ctx.ops[self.0.ptr].results[0])
    }
}

impl BitcastOp {
    /// Reinterpret `value` as type `ty`.
    pub fn new(builder: &mut OpBuilder, ty: &Type, value: &Value) -> (r: Option<BitcastOp>)
        requires
            old(builder).wf(),
        ensures
            builder_grew(final(builder), old(builder)),
            r is Some <==> (can_place(old(builder)) && old(builder).ctx.valid_value(value.0)
                && old(builder).ctx.valid_type(ty.0)),
            r matches Some(op) ==> op_shape(&final(builder).ctx, op.0, "hw.bitcast"@, seq![value.0], seq![ty.0])
                && placed(&final(builder).ctx, &old(builder).ctx, op.0, old(builder).insert_point),
            r is None ==> final(builder).ctx == old(builder).ctx,
    {
        let mut values: Vec<Value> = Vec::new();
        values.push(*value);
        let mut results: Vec<Type> = Vec::new();
        results.push(*ty);
        let r = crate::dialect::build_simple::<BitcastOp>(builder, values.as_slice(), results.as_slice(), Vec::new());
        proof {
            assert(crate::ty::types_raw(results@) =~= seq![ty.0]);
            assert(values_raw(values@) =~= seq![value.0]);
            assert(results@ =~= seq![*ty]);
            crate::dialect::lemma_one_type(&old(builder).ctx, results@, *ty);
            assert(values@ =~= seq![*value]);
            crate::dialect::lemma_one_value(&old(builder).ctx, values@, *value);
        }
        r
    }
}

/// A slice of an array, from a dynamic offset.
#[derive(Clone, Copy, Debug, PartialEq, Eq, Structural)]
pub struct ArraySliceOp(pub MlirOperation);

impl NamedOp for ArraySliceOp {
    open spec fn spec_name() -> Seq<char> {
        "hw.array_slice"@
    }

    open spec fn spec_op(&self) -> MlirOperation {
        self.0
    }

    fn operation_name() -> (r: &'static str) {
        "hw.array_slice"
    }

    fn wrap_op(raw: MlirOperation) -> (r: ArraySliceOp) {
        ArraySliceOp(raw)
    }

    fn as_operation(&self) -> (r: Operation) {
        Operation(self.0)
    }
}

impl ArraySliceOp {
    /// The single result.
    pub fn result(&self, ctx: &Context) -> (r: Value)
        requires
            ctx.valid_op(self.0),
            ctx.ops@[self.0.ptr as int].results@.len() > 0,
        ensures
            r.0 == ctx.ops@[self.0.ptr as int].results@[0],
    {
        Value(ctx.ops[self.0.ptr].results[0])
    }
}

impl ArraySliceOp {
    /// Slice `lhs` at offset `rhs`, giving a value of type `ty`.
    pub fn build(builder: &mut OpBuilder, ty: &Type, lhs: &Value, rhs: &Value) -> (r: Option<ArraySliceOp>)
        requires
            old(builder).wf(),
        ensures
            builder_grew(final(builder), old(builder)),
            r is Some <==> (can_place(old(builder)) && all_valid_values(&old(builder).ctx, seq![*lhs, *rhs])
                && old(builder).ctx.valid_type(ty.0)),
            r matches Some(op) ==> op_shape(&final(builder).ctx, op.0, "hw.array_slice"@, seq![lhs.0, rhs.0], seq![ty.0])
                && placed(&final(builder).ctx, &old(builder).ctx, op.0, old(builder).insert_point),
            r is None ==> final(builder).ctx == old(builder).ctx,
    {
        let mut values: Vec<Value> = Vec::new();
        values.push(*lhs);
        values.push(*rhs);
        let mut results: Vec<Type> = Vec::new();
        results.push(*ty);
        assert(values@ =~= seq![*lhs, *rhs]);
        let r = crate::dialect::build_simple::<ArraySliceOp>(builder, values.as_slice(), results.as_slice(), Vec::new());
        proof {
            assert(crate::ty::types_raw(results@) =~= seq![ty.0]);
            assert(values_raw(values@) =~= seq![lhs.0, rhs.0]);
            assert(results@ =~= seq![*ty]);
            crate::dialect::lemma_one_type(&old(builder).ctx, results@, *ty);
        }
        r
    }
}

/// The concatenation of arrays.
#[derive(Clone, Copy, Debug, PartialEq, Eq, Structural)]
pub struct ArrayConcatOp(pub MlirOperation);

impl NamedOp for ArrayConcatOp {
    open spec fn spec_name() -> Seq<char> {
        "hw.array_concat"@
    }

    open spec fn spec_op(&self) -> MlirOperation {
        self.0
    }

    fn operation_name() -> (r: &'static str) {
        "hw.array_concat"
    }

    fn wrap_op(raw: MlirOperation) -> (r: ArrayConcatOp) {
        ArrayConcatOp(raw)
    }

    fn as_operation(&self) -> (r: Operation) {
        Operation(self.0)
    }
}

impl ArrayConcatOp {
    /// The single result.
    pub fn result(&self, ctx: &Context) -> (r: Value)
        requires
            ctx.valid_op(self.0),
            ctx.ops@[self.0.ptr as int].results@.len() > 0,
        ensures
            r.0 == ctx.ops@[self.0.ptr as int].results@[0],
    {
        Value(ctx.ops[self.0.ptr].results[0])
    }
}

/// One element of an array, at a dynamic index.
#[derive(Clone, Copy, Debug, PartialEq, Eq, Structural)]
pub struct ArrayGetOp(pub MlirOperation);

impl NamedOp for ArrayGetOp {
    open spec fn spec_name() -> Seq<char> {
        "hw.array_get"@
    }

    open spec fn spec_op(&self) -> MlirOperation {
        self.0
    }

    fn operation_name() -> (r: &'static str) {
        "hw.array_get"
    }

    fn wrap_op(raw: MlirOperation) -> (r: ArrayGetOp) {
        ArrayGetOp(raw)
    }

    fn as_operation(&self) -> (r: Operation) {
        Operation(self.0)
    }
}

impl ArrayGetOp {
    /// The single result.
    pub fn result(&self, ctx: &Context) -> (r: Value)
        requires
            ctx.valid_op(self.0),
            ctx.ops@[self.0.ptr as int].results@.len() > 0,
        ensures
            r.0 == ctx.ops@[self.0.ptr as int].results@[0],
    {
        Value(ctx.ops[self.0.ptr].results[0])
    }
}

/// One field of a struct value.
#[derive(Clone, Copy, Debug, PartialEq, Eq, Structural)]
pub struct StructExtractOp(pub MlirOperation);

impl NamedOp for StructExtractOp {
    open spec fn spec_name() -> Seq<char> {
        "hw.struct_extract"@
    }

    open spec fn spec_op(&self) -> MlirOperation {
        self.0
    }

    fn operation_name() -> (r: &'static str) {
        "hw.struct_extract"
    }

    fn wrap_op(raw: MlirOperation) -> (r: StructExtractOp) {
        StructExtractOp(raw)
    }

    fn as_operation(&self) -> (r: Operation) {
        Operation(self.0)
    }
}

impl StructExtractOp {
    /// The single result.
    pub fn result(&self, ctx: &Context) -> (r: Value)
        requires
            ctx.valid_op(self.0),
            ctx.ops@[self.0.ptr as int].results@.len() > 0,
        ensures
            r.0 == ctx.ops@[self.0.ptr as int].results@[0],
    {
        Value(ctx.ops[self.0.ptr].results[0])
    }
}

/// A struct value with one field replaced.
#[derive(Clone, Copy, Debug, PartialEq, Eq, Structural)]
pub struct StructInjectOp(pub MlirOperation);

impl NamedOp for StructInjectOp {
    open spec fn spec_name() -> Seq<char> {
        "hw.struct_inject"@
    }

    open spec fn spec_op(&self) -> MlirOperation {
        self.0
    }

    fn operation_name() -> (r: &'static str) {
        "hw.struct_inject"
    }

    fn wrap_op(raw: MlirOperation) -> (r: StructInjectOp) {
        StructInjectOp(raw)
    }

    fn as_operation(&self) -> (r: Operation) {
        Operation(self.0)
    }
}

impl StructInjectOp {
    /// The single result.
    pub fn result(&self, ctx: &Context) -> (r: Value)
        requires
            ctx.valid_op(self.0),
            ctx.ops@[self.0.ptr as int].results@.len() > 0,
        ensures
            r.0 == ctx.ops@[self.0.ptr as int].results@[0],
    {
        Value(ctx.ops[self.0.ptr].results[0])
    }
}

/// An instance of a module.
#[derive(Clone, Copy, Debug, PartialEq, Eq, Structural)]
pub struct InstanceOp(pub MlirOperation);

impl NamedOp for InstanceOp {
    open spec fn spec_name() -> Seq<char> {
        "hw.instance"@
    }

    open spec fn spec_op(&self) -> MlirOperation {
        self.0
    }

    fn operation_name() -> (r: &'static str) {
        "hw.instance"
    }

    fn wrap_op(raw: MlirOperation) -> (r: InstanceOp) {
        InstanceOp(raw)
    }

    fn as_operation(&self) -> (r: Operation) {
        Operation(self.0)
    }
}

/// A hardware module: ports and a body.
#[derive(Clone, Copy, Debug, PartialEq, Eq, Structural)]
pub struct HwModuleOp(pub MlirOperation);

impl NamedOp for HwModuleOp {
    open spec fn spec_name() -> Seq<char> {
        "hw.module"@
    }

    open spec fn spec_op(&self) -> MlirOperation {
        self.0
    }

    fn operation_name() -> (r: &'static str) {
        "hw.module"
    }

    fn wrap_op(raw: MlirOperation) -> (r: HwModuleOp) {
        HwModuleOp(raw)
    }

    fn as_operation(&self) -> (r: Operation) {
        Operation(self.0)
    }
}

/// The element type and size of `v`'s type, when `v` is a live value of an array type.
pub open spec fn array_of(ctx: &Context, v: MlirValue) -> Option<(MlirType, usize)> {
    if ctx.valid_value(v) {
        match ctx.types@[ctx.type_of(v).ptr as int] {
            TypeData::Array { element, size } => Some((element, size)),
            _ => None,
        }
    } else {
        None
    }
}

/// The fields of `v`'s type, when `v` is a live value of a struct type.
pub open spec fn struct_of(ctx: &Context, v: MlirValue) -> Option<Seq<StructField>> {
    if ctx.valid_value(v) {
        match ctx.types@[ctx.type_of(v).ptr as int] {
            TypeData::Struct { fields } => Some(fields@),
            _ => None,
        }
    } else {
        None
    }
}

pub open spec fn array_elem(ctx: &Context, v: MlirValue) -> MlirType {
    match array_of(ctx, v) {
        Some(p) => p.0,
        None => MlirType { ptr: 0 },
    }
}

pub open spec fn array_size(ctx: &Context, v: MlirValue) -> int {
    match array_of(ctx, v) {
        Some(p) => p.1 as int,
        None => 0,
    }
}

/// Operand 1 of `op` is an integer as wide as it takes to index `n` elements.
pub open spec fn index_operand_ok(ctx: &Context, op: MlirOperation, n: int) -> bool {
    &&& ctx.ops@[op.ptr as int].operands@.len() > 1
    &&& crate::comb::value_width(ctx, ctx.ops@[op.ptr as int].operands@[1]) is Some
    &&& crate::comb::index_width_ok(n, crate::comb::value_width(ctx, ctx.ops@[op.ptr as int].operands@[1])->0)
}

fn array_of_value(ctx: &Context, v: &Value) -> (r: Option<(Type, usize)>)
    requires
        ctx.wf(),
    ensures
        r is Some <==> array_of(ctx, v.0) is Some,
        r matches Some(p) ==> array_of(ctx, v.0) == Some(((p.0).0, p.1)) && ctx.valid_type((p.0).0)
            && ctx.valid_type(ctx.type_of(v.0)),
{
    if !ctx.is_valid_value(v) {
        return None;
    }
    let t = ctx.values[v.0.ptr].ty;
    assert(crate::context::type_data_ok(ctx.types@[t.ptr as int], t.ptr as int));
    match &ctx.types[t.ptr] {
        TypeData::Array { element, size } => Some((Type(*element), *size)),
        _ => None,
    }
}

impl ArraySliceOp {
    /// Slice `length` elements of the array `value` from the dynamic `offset`, which is
    /// first brought to the width that indexes the array.
    pub fn with_sizes(builder: &mut OpBuilder, value: &Value, offset: &Value, length: usize) -> (r: Option<ArraySliceOp>)
        requires
            old(builder).wf(),
        ensures
            builder_grew(final(builder), old(builder)),
            (can_place(old(builder)) && array_of(&old(builder).ctx, value.0) is Some
                && array_size(&old(builder).ctx, value.0) <= 0x8000_0000_0000_0000u64
                && crate::comb::value_width(&old(builder).ctx, offset.0) is Some) ==> r is Some,
            r matches Some(op) ==> array_of(&old(builder).ctx, value.0) is Some
                && final(builder).ctx.valid_op(op.0)
                && final(builder).ctx.ops@[op.0.ptr as int].name@ == "hw.array_slice"@
                && final(builder).ctx.ops@[op.0.ptr as int].operands@.len() == 2
                && final(builder).ctx.ops@[op.0.ptr as int].operands@[0] == value.0
                && final(builder).ctx.ops@[op.0.ptr as int].results@.len() == 1
                && final(builder).ctx.types@[final(builder).ctx.type_of(final(builder).ctx.ops@[op.0.ptr as int].results@[0]).ptr as int]
                    == (TypeData::Array { element: array_elem(&old(builder).ctx, value.0), size: length })
                && index_operand_ok(&final(builder).ctx, op.0, array_size(&old(builder).ctx, value.0)),
    {
        let ghost b0 = *old(builder);
        let (elem, _size) = match array_of_value(&builder.ctx, value) {
            Some(p) => p,
            None => {
                return None;
            },
        };
        let aty = Type(builder.ctx.values[value.0.ptr].ty);
        let off = match crate::comb::trunc_or_zext_to_clog2(builder, offset, &aty) {
            Some(o) => o,
            None => {
                return None;
            },
        };
        let ghost b1 = *builder;
        proof {
            crate::dialect::lemma_grew_keeps_handles(&b1, &b0);
        }
        let rty = ArrayType::new(&mut builder.ctx, &elem, length);
        let ghost b2 = *builder;
        proof {
            crate::dialect::lemma_grew_keeps(&b2, &b1);
            let s = seq![*value, off];
            assert forall|k: int| 0 <= k < s.len() implies b2.ctx.valid_value(#[trigger] s[k].0) by {
                if k == 0 {
                    assert(s[0] == *value);
                } else {
                    assert(s[1] == off);
                }
            }
        }
        let r = ArraySliceOp::build(builder, &Type(rty.0), value, &off);
        proof {
            crate::dialect::lemma_grew_keeps_handles(builder, &b2);
        }
        r
    }

    /// Slice `length` elements of the array `value` from the constant `offset`.
    pub fn with_const_offset(builder: &mut OpBuilder, value: &Value, offset: usize, length: usize) -> (r: Option<ArraySliceOp>)
        requires
            old(builder).wf(),
        ensures
            builder_grew(final(builder), old(builder)),
            (can_place(old(builder)) && array_of(&old(builder).ctx, value.0) is Some
                && array_size(&old(builder).ctx, value.0) <= 0x8000_0000_0000_0000u64 && offset <= i64::MAX) ==> r is Some,
            r matches Some(op) ==> array_of(&old(builder).ctx, value.0) is Some
                && final(builder).ctx.valid_op(op.0)
                && final(builder).ctx.ops@[op.0.ptr as int].name@ == "hw.array_slice"@
                && final(builder).ctx.ops@[op.0.ptr as int].operands@.len() == 2
                && final(builder).ctx.ops@[op.0.ptr as int].operands@[0] == value.0
                && final(builder).ctx.ops@[op.0.ptr as int].results@.len() == 1
                && final(builder).ctx.types@[final(builder).ctx.type_of(final(builder).ctx.ops@[op.0.ptr as int].results@[0]).ptr as int]
                    == (TypeData::Array { element: array_elem(&old(builder).ctx, value.0), size: length })
                && index_operand_ok(&final(builder).ctx, op.0, array_size(&old(builder).ctx, value.0)),
    {
        if offset as u64 > i64::MAX as u64 || array_of_value(&builder.ctx, value).is_none() {
            return None;
        }
        let ghost b0 = *old(builder);
        let c = match ConstantOp::build(builder, 64, offset as i64) {
            Some(c) => c,
            None => {
                return None;
            },
        };
        proof {
            crate::dialect::lemma_placed_keeps(builder, &b0, c.0);
            crate::dialect::lemma_grew_keeps_handles(builder, &b0);
        }
        let cv = c.result(&builder.ctx);
        let ghost b1 = *builder;
        let r = ArraySliceOp::with_sizes(builder, value, &cv, length);
        proof {
            crate::dialect::lemma_grew_keeps_handles(builder, &b1);
        }
        r
    }
}

impl ArrayGetOp {
    /// Get the element of the array `value` at the dynamic `offset`, which is first brought
    /// to the width that indexes the array.
    pub fn build(builder: &mut OpBuilder, value: &Value, offset: &Value) -> (r: Option<ArrayGetOp>)
        requires
            old(builder).wf(),
        ensures
            builder_grew(final(builder), old(builder)),
            (can_place(old(builder)) && array_of(&old(builder).ctx, value.0) is Some
                && array_size(&old(builder).ctx, value.0) <= 0x8000_0000_0000_0000u64
                && crate::comb::value_width(&old(builder).ctx, offset.0) is Some) ==> r is Some,
            r matches Some(op) ==> array_of(&old(builder).ctx, value.0) is Some
                && op_shape(&final(builder).ctx, op.0, "hw.array_get"@,
                    seq![value.0, final(builder).ctx.ops@[op.0.ptr as int].operands@[1]],
                    seq![array_elem(&old(builder).ctx, value.0)])
                && index_operand_ok(&final(builder).ctx, op.0, array_size(&old(builder).ctx, value.0)),
    {
        let ghost b0 = *old(builder);
        let (elem, _size) = match array_of_value(&builder.ctx, value) {
            Some(p) => p,
            None => {
                return None;
            },
        };
        let aty = Type(builder.ctx.values[value.0.ptr].ty);
        let off = match crate::comb::trunc_or_zext_to_clog2(builder, offset, &aty) {
            Some(o) => o,
            None => {
                return None;
            },
        };
        let ghost b1 = *builder;
        proof {
            crate::dialect::lemma_grew_keeps_handles(&b1, &b0);
        }
        let mut operands: Vec<Value> = Vec::new();
        operands.push(*value);
        operands.push(off);
        let mut results: Vec<Type> = Vec::new();
        results.push(elem);
        proof {
            assert(operands@ =~= seq![*value, off]);
            assert forall|k: int| 0 <= k < operands@.len() implies b1.ctx.valid_value(#[trigger] operands@[k].0) by {
                if k == 0 {
                    assert(operands@[0] == *value);
                } else {
                    assert(operands@[1] == off);
                }
            }
            assert(results@ =~= seq![elem]);
            crate::dialect::lemma_one_type(&b1.ctx, results@, elem);
        }
        let r = crate::dialect::build_simple::<ArrayGetOp>(builder, operands.as_slice(), results.as_slice(), Vec::new());
        proof {
            assert(values_raw(operands@) =~= seq![value.0, off.0]);
            assert(crate::ty::types_raw(results@) =~= seq![elem.0]);
        }
        r
    }

    /// Get the element of the array `value` at the constant `offset`.
    pub fn with_const_offset(builder: &mut OpBuilder, value: &Value, offset: usize) -> (r: Option<ArrayGetOp>)
        requires
            old(builder).wf(),
        ensures
            builder_grew(final(builder), old(builder)),
            (can_place(old(builder)) && array_of(&old(builder).ctx, value.0) is Some
                && array_size(&old(builder).ctx, value.0) <= 0x8000_0000_0000_0000u64 && offset <= i64::MAX) ==> r is Some,
            r matches Some(op) ==> array_of(&old(builder).ctx, value.0) is Some
                && final(builder).ctx.valid_op(op.0)
                && op_shape(&final(builder).ctx, op.0, "hw.array_get"@,
                    seq![value.0, final(builder).ctx.ops@[op.0.ptr as int].operands@[1]],
                    seq![array_elem(&old(builder).ctx, value.0)])
                && index_operand_ok(&final(builder).ctx, op.0, array_size(&old(builder).ctx, value.0)),
    {
        if offset as u64 > i64::MAX as u64 || array_of_value(&builder.ctx, value).is_none() {
            return None;
        }
        let ghost b0 = *old(builder);
        let c = match ConstantOp::build(builder, 64, offset as i64) {
            Some(c) => c,
            None => {
                return None;
            },
        };
        proof {
            crate::dialect::lemma_placed_keeps(builder, &b0, c.0);
            crate::dialect::lemma_grew_keeps_handles(builder, &b0);
        }
        let cv = c.result(&builder.ctx);
        let ghost b1 = *builder;
        let r = ArrayGetOp::build(builder, value, &cv);
        proof {
            crate::dialect::lemma_grew_keeps_handles(builder, &b1);
        }
        r
    }
}

/// The sum of the sizes of array values.
pub open spec fn sum_sizes(ctx: &Context, vs: Seq<Value>) -> int
    decreases vs.len(),
{
    if vs.len() == 0 {
        0
    } else {
        sum_sizes(ctx, vs.drop_last()) + match array_of(ctx, vs.last().0) {
            Some(p) => p.1 as int,
            None => 0,
        }
    }
}

/// Arrays that can be concatenated: at least one, all live arrays of one element type,
/// with sizes that sum to a `usize`.
pub open spec fn concat_ok(ctx: &Context, vs: Seq<Value>) -> bool {
    &&& vs.len() > 0
    &&& forall|j: int| 0 <= j < vs.len() ==> #[trigger] array_of(ctx, vs[j].0) is Some
    &&& forall|j: int| 0 <= j < vs.len() ==> #[trigger] array_elem(ctx, vs[j].0) == array_elem(ctx, vs[0].0)
    &&& sum_sizes(ctx, vs) <= usize::MAX
}

proof fn lemma_sum_sizes_grows(ctx: &Context, vs: Seq<Value>, k: int)
    requires
        0 <= k <= vs.len(),
    ensures
        sum_sizes(ctx, vs.take(k)) <= sum_sizes(ctx, vs),
    decreases vs.len(),
{
    if k < vs.len() {
        assert(vs.drop_last().take(k) =~= vs.take(k));
        lemma_sum_sizes_grows(ctx, vs.drop_last(), k);
    } else {
        assert(vs.take(k) =~= vs);
    }
}

impl ArrayConcatOp {
    /// Concatenate arrays of one element type: the result has that element type and the
    /// sum of their sizes.
    pub fn new(builder: &mut OpBuilder, values: &[Value]) -> (r: Option<ArrayConcatOp>)
        requires
            old(builder).wf(),
        ensures
            builder_grew(final(builder), old(builder)),
            r is Some <==> (can_place(old(builder)) && concat_ok(&old(builder).ctx, values@)),
            r matches Some(op) ==> values@.len() > 0 && array_of(&old(builder).ctx, values@.last().0) is Some
                && placed(&final(builder).ctx, &old(builder).ctx, op.0, old(builder).insert_point)
                && op_shape(&final(builder).ctx, op.0, "hw.array_concat"@, values_raw(values@),
                    seq![final(builder).ctx.type_of(final(builder).ctx.ops@[op.0.ptr as int].results@[0])])
                && final(builder).ctx.types@[final(builder).ctx.type_of(final(builder).ctx.ops@[op.0.ptr as int].results@[0]).ptr as int]
                    == (TypeData::Array { element: array_elem(&old(builder).ctx, values@.last().0), size: sum_sizes(&old(builder).ctx, values@) as usize }),
            r is None ==> final(builder).ctx == old(builder).ctx,
    {
        if values.len() == 0 || !check_place(builder) {
            return None;
        }
        let mut total: usize = 0;
        let mut elem = Type(MlirType { ptr: 0 });
        let mut k: usize = 0;
        assert(values@.take(0) =~= Seq::<Value>::empty());
        while k < values.len()
            invariant
                builder.wf(),
                *builder == *old(builder),
                k <= values@.len(),
                total == sum_sizes(&builder.ctx, values@.take(k as int)),
                forall|j: int| 0 <= j < k ==> #[trigger] array_of(&builder.ctx, values@[j].0) is Some,
                forall|j: int| 0 <= j < k ==> #[trigger] array_elem(&builder.ctx, values@[j].0) == array_elem(&builder.ctx, values@[0].0),
                k > 0 ==> elem.0 == array_elem(&builder.ctx, values@[k - 1].0) && builder.ctx.valid_type(elem.0),
                can_place(builder),
            decreases values@.len() - k,
        {
            assert(values@.take(k + 1).drop_last() =~= values@.take(k as int));
            assert(values@.take(k + 1).last() == values@[k as int]);
            match array_of_value(&builder.ctx, &values[k]) {
                Some((e, s)) => {
                    if k > 0 && e.0.ptr != elem.0.ptr {
                        proof {
                            assert(array_elem(&builder.ctx, values@[k as int].0) == e.0);
                            assert(array_elem(&builder.ctx, values@[k - 1].0) == array_elem(&builder.ctx, values@[0].0));
                            assert(array_elem(&builder.ctx, values@[k as int].0) != array_elem(&builder.ctx, values@[0].0));
                        }
                        return None;
                    }
                    if s > usize::MAX - total {
                        proof {
                            lemma_sum_sizes_grows(&builder.ctx, values@, k + 1);
                        }
                        return None;
                    }
                    total = total + s;
                    elem = e;
                },
                None => {
                    return None;
                },
            }
            k = k + 1;
        }
        assert(values@.take(values@.len() as int) =~= values@);
        let ghost b0 = *builder;
        let rty = ArrayType::new(&mut builder.ctx, &elem, total);
        proof {
            assert(array_elem(&b0.ctx, values@.last().0) == array_elem(&b0.ctx, values@[values@.len() - 1].0));
        }
        let ghost b1 = *builder;
        proof {
            crate::dialect::lemma_grew_keeps(&b1, &b0);
            assert forall|j: int| 0 <= j < values@.len() implies b1.ctx.valid_value(#[trigger] values@[j].0) by {
                assert(array_of(&b0.ctx, values@[j].0) is Some);
            }
        }
        let mut results: Vec<Type> = Vec::new();
        results.push(Type(rty.0));
        proof {
            assert(results@ =~= seq![Type(rty.0)]);
            crate::dialect::lemma_one_type(&b1.ctx, results@, Type(rty.0));
        }
        let r = build_valid::<ArrayConcatOp>(builder, values, results.as_slice(), Vec::new());
        proof {
            crate::dialect::lemma_grew_keeps_handles(builder, &b1);
            assert(crate::ty::types_raw(results@) =~= seq![rty.0]);
            assert(values@.last() == values@[values@.len() - 1]);
        }
        r
    }
}

fn struct_field_of(ctx: &Context, v: &Value, offset: usize) -> (r: Option<(String, Type)>)
    requires
        ctx.wf(),
    ensures
        r is Some <==> (struct_of(ctx, v.0) is Some && offset < struct_of(ctx, v.0)->0.len()),
        r matches Some(f) ==> f.0@ == struct_of(ctx, v.0)->0[offset as int].name@
            && (f.1).0 == struct_of(ctx, v.0)->0[offset as int].ty && ctx.valid_type((f.1).0)
            && ctx.valid_type(ctx.type_of(v.0)),
{
    if !ctx.is_valid_value(v) {
        return None;
    }
    let t = ctx.values[v.0.ptr].ty;
    assert(crate::context::type_data_ok(ctx.types@[t.ptr as int], t.ptr as int));
    match &ctx.types[t.ptr] {
        TypeData::Struct { fields } => {
            if offset < fields.len() {
                Some((fields[offset].name.clone(), Type(fields[offset].ty)))
            } else {
                None
            }
        },
        _ => None,
    }
}

impl StructExtractOp {
    /// Extract field `offset` of the struct `value`.
    pub fn build(builder: &mut OpBuilder, value: &Value, offset: usize) -> (r: Option<StructExtractOp>)
        requires
            old(builder).wf(),
        ensures
            builder_grew(final(builder), old(builder)),
            r is Some <==> (can_place(old(builder)) && struct_of(&old(builder).ctx, value.0) is Some
                && offset < struct_of(&old(builder).ctx, value.0)->0.len()),
            r matches Some(op) ==> op_shape(&final(builder).ctx, op.0, "hw.struct_extract"@, seq![value.0],
                seq![struct_of(&old(builder).ctx, value.0)->0[offset as int].ty])
                && has_string_attr(&final(builder).ctx, op.0, 0, "field"@, struct_of(&old(builder).ctx, value.0)->0[offset as int].name@)
                && placed(&final(builder).ctx, &old(builder).ctx, op.0, old(builder).insert_point),
            r is None ==> final(builder).ctx == old(builder).ctx,
    {
        if !check_place(builder) {
            return None;
        }
        let (name, fty) = match struct_field_of(&builder.ctx, value, offset) {
            Some(f) => f,
            None => {
                return None;
            },
        };
        let ghost b0 = *old(builder);
        let attr = StringAttr::new(&mut builder.ctx, name.as_str());
        let mut attrs: Vec<NamedAttribute> = Vec::new();
        attrs.push(NamedAttribute::new("field", &attr.as_attribute()));
        let mut operands: Vec<Value> = Vec::new();
        operands.push(*value);
        let mut results: Vec<Type> = Vec::new();
        results.push(fty);
        let ghost b1 = *builder;
        proof {
            crate::dialect::lemma_grew_keeps(&b1, &b0);
            assert(operands@ =~= seq![*value]);
            crate::dialect::lemma_one_value(&b1.ctx, operands@, *value);
            assert(results@ =~= seq![fty]);
            crate::dialect::lemma_one_type(&b1.ctx, results@, fty);
        }
        let r = build_valid::<StructExtractOp>(builder, operands.as_slice(), results.as_slice(), attrs);
        proof {
            crate::dialect::lemma_grew_keeps_handles(builder, &b1);
            assert(values_raw(operands@) =~= seq![value.0]);
            assert(crate::ty::types_raw(results@) =~= seq![fty.0]);
            if let Some(op) = r {
                assert(crate::operation::named_raw(attrs@)[0] == attrs@[0].0);
                assert(builder.ctx.attrs@[attr.0.ptr as int] == b1.ctx.attrs@[attr.0.ptr as int]);
            }
        }
        r
    }
}

impl StructInjectOp {
    /// The struct `value` with field `offset` replaced by `field_value`.
    pub fn new(builder: &mut OpBuilder, value: &Value, field_value: &Value, offset: usize) -> (r: Option<StructInjectOp>)
        requires
            old(builder).wf(),
        ensures
            builder_grew(final(builder), old(builder)),
            r is Some <==> (can_place(old(builder)) && struct_of(&old(builder).ctx, value.0) is Some
                && offset < struct_of(&old(builder).ctx, value.0)->0.len() && old(builder).ctx.valid_value(field_value.0)),
            r matches Some(op) ==> op_shape(&final(builder).ctx, op.0, "hw.struct_inject"@, seq![value.0, field_value.0],
                seq![old(builder).ctx.type_of(value.0)])
                && has_string_attr(&final(builder).ctx, op.0, 0, "field"@, struct_of(&old(builder).ctx, value.0)->0[offset as int].name@)
                && placed(&final(builder).ctx, &old(builder).ctx, op.0, old(builder).insert_point),
            r is None ==> final(builder).ctx == old(builder).ctx,
    {
        if !check_place(builder) || !builder.ctx.is_valid_value(field_value) {
            return None;
        }
        let (name, _fty) = match struct_field_of(&builder.ctx, value, offset) {
            Some(f) => f,
            None => {
                return None;
            },
        };
        let sty = value.ty(&builder.ctx);
        let ghost b0 = *old(builder);
        let attr = StringAttr::new(&mut builder.ctx, name.as_str());
        let mut attrs: Vec<NamedAttribute> = Vec::new();
        attrs.push(NamedAttribute::new("field", &attr.as_attribute()));
        let mut operands: Vec<Value> = Vec::new();
        operands.push(*value);
        operands.push(*field_value);
        let mut results: Vec<Type> = Vec::new();
        results.push(sty);
        let ghost b1 = *builder;
        proof {
            crate::dialect::lemma_grew_keeps(&b1, &b0);
            assert(operands@ =~= seq![*value, *field_value]);
            assert forall|k: int| 0 <= k < operands@.len() implies b1.ctx.valid_value(#[trigger] operands@[k].0) by {
                if k == 0 {
                    assert(operands@[0] == *value);
                } else {
                    assert(operands@[1] == *field_value);
                }
            }
            assert(results@ =~= seq![sty]);
            crate::dialect::lemma_one_type(&b1.ctx, results@, sty);
        }
        let r = build_valid::<StructInjectOp>(builder, operands.as_slice(), results.as_slice(), attrs);
        proof {
            crate::dialect::lemma_grew_keeps_handles(builder, &b1);
            assert(values_raw(operands@) =~= seq![value.0, field_value.0]);
            assert(crate::ty::types_raw(results@) =~= seq![sty.0]);
            if let Some(op) = r {
                assert(crate::operation::named_raw(attrs@)[0] == attrs@[0].0);
                assert(builder.ctx.attrs@[attr.0.ptr as int] == b1.ctx.attrs@[attr.0.ptr as int]);
            }
        }
        r
    }
}

/// The direction of a module port.
#[derive(Clone, Copy, Debug, PartialEq, Eq, Structural)]
pub enum PortDirection {
    Input,
    Output,
    InOut,
}

impl PortDirection {
    /// The direction seen from the other side: inputs and outputs swap.
    pub fn flip(self) -> (r: PortDirection)
        ensures
            r == match self {
                PortDirection::Input => PortDirection::Output,
                PortDirection::Output => PortDirection::Input,
                PortDirection::InOut => PortDirection::InOut,
            },
    {
        match self {
            PortDirection::Input => PortDirection::Output,
            PortDirection::Output => PortDirection::Input,
            PortDirection::InOut => PortDirection::InOut,
        }
    }
}

/// A module port: its name, direction and type.
pub struct PortInfo {
    pub name: String,
    pub direction: PortDirection,
    pub ty: Type,
}

impl PortInfo {
    pub fn new(direction: PortDirection, name: &str, ty: &Type) -> (r: PortInfo)
        ensures
            r.name@ == name@,
            r.direction == direction,
            r.ty == *ty,
    {
        PortInfo { name: String::from_str(name), direction, ty: *ty }
    }

    pub fn input(name: &str, ty: &Type) -> (r: PortInfo)
        ensures
            r.name@ == name@,
            r.direction == PortDirection::Input,
            r.ty == *ty,
    {
        PortInfo::new(PortDirection::Input, name, ty)
    }

    pub fn output(name: &str, ty: &Type) -> (r: PortInfo)
        ensures
            r.name@ == name@,
            r.direction == PortDirection::Output,
            r.ty == *ty,
    {
        PortInfo::new(PortDirection::Output, name, ty)
    }

    pub fn is_output(&self) -> (r: bool)
        ensures
            r == (self.direction == PortDirection::Output),
    {
        match self.direction {
            PortDirection::Output => true,
            _ => false,
        }
    }

    fn copy(&self) -> (r: PortInfo)
        ensures
            r == *self,
    {
        PortInfo { name: self.name.clone(), direction: self.direction, ty: self.ty }
    }
}

/// The ports of a module: inputs (and inouts) and outputs, each in order.
pub struct ModulePortInfo {
    pub inputs: Vec<PortInfo>,
    pub outputs: Vec<PortInfo>,
}

pub open spec fn port_types_of(ps: Seq<PortInfo>) -> Seq<MlirType> {
    ps.map_values(|p: PortInfo| p.ty.0)
}

pub open spec fn port_names_of(ps: Seq<PortInfo>) -> Seq<Seq<char>> {
    ps.map_values(|p: PortInfo| p.name@)
}

/// The ports that are not outputs, in order.
pub open spec fn non_outputs(ps: Seq<PortInfo>) -> Seq<PortInfo>
    decreases ps.len(),
{
    if ps.len() == 0 {
        Seq::empty()
    } else if ps.last().direction == PortDirection::Output {
        non_outputs(ps.drop_last())
    } else {
        non_outputs(ps.drop_last()).push(ps.last())
    }
}

/// The output ports, in order.
pub open spec fn only_outputs(ps: Seq<PortInfo>) -> Seq<PortInfo>
    decreases ps.len(),
{
    if ps.len() == 0 {
        Seq::empty()
    } else if ps.last().direction == PortDirection::Output {
        only_outputs(ps.drop_last()).push(ps.last())
    } else {
        only_outputs(ps.drop_last())
    }
}

impl ModulePortInfo {
    /// No ports.
    pub fn new() -> (r: ModulePortInfo)
        ensures
            r.inputs@.len() == 0,
            r.outputs@.len() == 0,
    {
        ModulePortInfo { inputs: Vec::new(), outputs: Vec::new() }
    }

    /// Split a list of ports into outputs and the rest, keeping the order of each.
    pub fn from_merged(merged_ports: Vec<PortInfo>) -> (r: ModulePortInfo)
        ensures
            r.inputs@ == non_outputs(merged_ports@),
            r.outputs@ == only_outputs(merged_ports@),
    {
        let ghost all = merged_ports@;
        let mut rest = merged_ports;
        let mut back: Vec<PortInfo> = Vec::new();
        while rest.len() > 0
            invariant
                all.len() == back@.len() + rest@.len(),
                forall|k: int| 0 <= k < rest@.len() ==> (#[trigger] rest@[k]) == all[k],
                forall|k: int| 0 <= k < back@.len() ==> (#[trigger] back@[k]) == all[all.len() - 1 - k],
            decreases rest@.len(),
        {
            let p = rest.pop().unwrap();
            back.push(p);
        }
        let mut inputs: Vec<PortInfo> = Vec::new();
        let mut outputs: Vec<PortInfo> = Vec::new();
        let mut k: usize = back.len();
        assert(all.take(0) =~= Seq::<PortInfo>::empty());
        while k > 0
            invariant
                k <= back@.len(),
                all.len() == back@.len(),
                forall|j: int| 0 <= j < back@.len() ==> (#[trigger] back@[j]) == all[all.len() - 1 - j],
                inputs@ == non_outputs(all.take(all.len() - k)),
                outputs@ == only_outputs(all.take(all.len() - k)),
            decreases k,
        {
            k = k - 1;
            let ghost i = all.len() - 1 - k;
            assert(all.take(i + 1).drop_last() =~= all.take(i));
            assert(all.take(i + 1).last() == all[i]);
            assert(back@[k as int] == all[i]);
            let p = back[k].copy();
            if back[k].is_output() {
                outputs.push(p);
            } else {
                inputs.push(p);
            }
        }
        assert(all.take(all.len() as int) =~= all);
        ModulePortInfo { inputs, outputs }
    }

    pub fn add_input(&mut self, name: &str, ty: &Type)
        ensures
            final(self).inputs@.len() == old(self).inputs@.len() + 1,
            forall|k: int| 0 <= k < old(self).inputs@.len() ==> final(self).inputs@[k] == old(self).inputs@[k],
            final(self).inputs@.last().name@ == name@,
            final(self).inputs@.last().direction == PortDirection::Input,
            final(self).inputs@.last().ty == *ty,
            final(self).outputs == old(self).outputs,
    {
        self.inputs.push(PortInfo::input(name, ty));
    }

    pub fn add_output(&mut self, name: &str, ty: &Type)
        ensures
            final(self).outputs@.len() == old(self).outputs@.len() + 1,
            forall|k: int| 0 <= k < old(self).outputs@.len() ==> final(self).outputs@[k] == old(self).outputs@[k],
            final(self).outputs@.last().name@ == name@,
            final(self).outputs@.last().direction == PortDirection::Output,
            final(self).outputs@.last().ty == *ty,
            final(self).inputs == old(self).inputs,
    {
        self.outputs.push(PortInfo::output(name, ty));
    }
}

/// String attributes of the port names, in order.
pub fn port_names(ctx: &mut Context, ports: &[PortInfo]) -> (r: Vec<StringAttr>)
    requires
        old(ctx).wf(),
    ensures
        final(ctx).wf(),
        final(ctx).extends(old(ctx)),
        final(ctx).types@ == old(ctx).types@,
        final(ctx).locations@ == old(ctx).locations@,
        final(ctx).same_structure(old(ctx)),
        final(ctx).same_values(old(ctx)),
        final(ctx).same_passes(old(ctx)),
        r@.len() == ports@.len(),
        forall|k: int| 0 <= k < r@.len() ==> crate::attr::string_attr_holds(final(ctx), (#[trigger] r@[k]).0, ports@[k].name@)
            && r@[k].0.ptr < final(ctx).attrs@.len(),
{
    let mut r: Vec<StringAttr> = Vec::new();
    let mut k: usize = 0;
    while k < ports.len()
        invariant
            k <= ports@.len(),
            ctx.wf(),
            ctx.extends(old(ctx)),
            ctx.types@ == old(ctx).types@,
            ctx.locations@ == old(ctx).locations@,
            ctx.same_structure(old(ctx)),
            ctx.same_values(old(ctx)),
            ctx.same_passes(old(ctx)),
            r@.len() == k,
            forall|j: int| 0 <= j < k ==> (#[trigger] r@[j]).0.ptr < ctx.attrs@.len() && crate::attr::string_attr_holds(ctx, r@[j].0, ports@[j].name@),
        decreases ports@.len() - k,
    {
        let a = StringAttr::new(ctx, ports[k].name.as_str());
        r.push(a);
        k = k + 1;
    }
    r
}

/// The port types, in order.
pub fn port_types(ports: &[PortInfo]) -> (r: Vec<Type>)
    ensures
        crate::ty::types_raw(r@) == port_types_of(ports@),
{
    let mut r: Vec<Type> = Vec::new();
    let mut k: usize = 0;
    while k < ports.len()
        invariant
            k <= ports@.len(),
            r@.len() == k,
            forall|j: int| 0 <= j < k ==> (#[trigger] r@[j]) == ports@[j].ty,
        decreases ports@.len() - k,
    {
        r.push(ports[k].ty);
        k = k + 1;
    }
    assert(crate::ty::types_raw(r@) =~= port_types_of(ports@));
    r
}

/// The first block of the first region of `op`, if there is one.
pub open spec fn module_body(ctx: &Context, op: MlirOperation) -> Option<MlirBlock> {
    let d = ctx.ops@[op.ptr as int];
    if d.regions@.len() > 0 && 1 <= d.regions@[0].ptr < ctx.regions@.len()
        && ctx.regions@[d.regions@[0].ptr as int].blocks@.len() > 0 {
        Some(ctx.regions@[d.regions@[0].ptr as int].blocks@[0])
    } else {
        None
    }
}

pub open spec fn ports_valid(ctx: &Context, ps: Seq<PortInfo>) -> bool {
    forall|k: int| 0 <= k < ps.len() ==> ctx.valid_type(#[trigger] ps[k].ty.0)
}

fn check_ports(ctx: &Context, ps: &[PortInfo]) -> (r: bool)
    ensures
        r == ports_valid(ctx, ps@),
{
    let mut k: usize = 0;
    while k < ps.len()
        invariant
            k <= ps@.len(),
            forall|j: int| 0 <= j < k ==> ctx.valid_type(#[trigger] ps@[j].ty.0),
        decreases ps@.len() - k,
    {
        let t = ps[k].ty.0;
        if t.ptr == 0 || t.ptr >= ctx.types.len() {
            return false;
        }
        k = k + 1;
    }
    true
}

/// `new` only grew from `old`: existing operations, blocks and regions are as they were.
pub open spec fn kept_structure(new: &Context, old: &Context) -> bool {
    &&& new.wf()
    &&& new.extends(old)
    &&& new.ops@ == old.ops@
    &&& new.blocks@.len() >= old.blocks@.len()
    &&& forall|i: int| 0 <= i < old.blocks@.len() ==> new.blocks@[i] == #[trigger] old.blocks@[i]
    &&& new.regions@.len() >= old.regions@.len()
    &&& forall|i: int| 0 <= i < old.regions@.len() ==> new.regions@[i] == #[trigger] old.regions@[i]
}

pub(crate) proof fn lemma_kept_place(new: &OpBuilder, old: &OpBuilder)
    requires
        kept_structure(&new.ctx, &old.ctx),
        new.loc == old.loc,
        new.insert_point == old.insert_point,
        can_place(old),
    ensures
        can_place(new),
{
    if let Some(p) = old.insert_point {
        let b = p.spec_block();
        assert(new.ctx.blocks@[b.ptr as int] == old.ctx.blocks@[b.ptr as int]);
    }
}

fn attrs_of_strings(v: &Vec<StringAttr>) -> (r: Vec<crate::attr::Attribute>)
    ensures
        r@.len() == v@.len(),
        forall|k: int| 0 <= k < r@.len() ==> (#[trigger] r@[k]).0 == v@[k].0,
{
    let mut r: Vec<crate::attr::Attribute> = Vec::new();
    let mut k: usize = 0;
    while k < v.len()
        invariant
            k <= v@.len(),
            r@.len() == k,
            forall|j: int| 0 <= j < k ==> (#[trigger] r@[j]).0 == v@[j].0,
        decreases v@.len() - k,
    {
        r.push(crate::attr::Attribute(v[k].0));
        k = k + 1;
    }
    r
}

fn attrs_of_params(v: &[ParamDeclAttr]) -> (r: Vec<crate::attr::Attribute>)
    ensures
        r@.len() == v@.len(),
        forall|k: int| 0 <= k < r@.len() ==> (#[trigger] r@[k]).0 == v@[k].0,
{
    let mut r: Vec<crate::attr::Attribute> = Vec::new();
    let mut k: usize = 0;
    while k < v.len()
        invariant
            k <= v@.len(),
            r@.len() == k,
            forall|j: int| 0 <= j < k ==> (#[trigger] r@[j]).0 == v@[j].0,
        decreases v@.len() - k,
    {
        r.push(crate::attr::Attribute(v[k].0));
        k = k + 1;
    }
    r
}

/// Attribute `k` of `op` is named `name` and is an array of string attributes holding
/// the names of `ports`, in order.
pub open spec fn has_names_attr(ctx: &Context, op: MlirOperation, k: int, name: Seq<char>, ports: Seq<PortInfo>) -> bool {
    let a = ctx.ops@[op.ptr as int].attributes@[k];
    &&& 0 <= k < ctx.ops@[op.ptr as int].attributes@.len()
    &&& a.name@ == name
    &&& match ctx.attrs@[a.attribute.ptr as int] {
        AttrData::Array { elements } => elements@.len() == ports.len() && forall|j: int|
            0 <= j < ports.len() ==> crate::attr::string_attr_holds(ctx, #[trigger] elements@[j], ports[j].name@),
        _ => false,
    }
}

/// Attribute `k` of `op` is named `name` and holds the function type from `ins` to `outs`.
pub open spec fn has_function_type_attr(ctx: &Context, op: MlirOperation, k: int, name: Seq<char>, ins: Seq<MlirType>, outs: Seq<MlirType>) -> bool {
    let a = ctx.ops@[op.ptr as int].attributes@[k];
    &&& 0 <= k < ctx.ops@[op.ptr as int].attributes@.len()
    &&& a.name@ == name
    &&& match ctx.attrs@[a.attribute.ptr as int] {
        AttrData::Type { ty } => match ctx.types@[ty.ptr as int] {
            TypeData::Function { inputs, results } => inputs@ == ins && results@ == outs,
            _ => false,
        },
        _ => false,
    }
}

/// The attributes of a built module: `sym_name`, `argNames`, `resultNames`,
/// `parameters`, `function_type` and `comment`, in that order.
pub open spec fn module_attrs(ctx: &Context, op: MlirOperation, inputs: Seq<PortInfo>, outputs: Seq<PortInfo>, comment: Seq<char>) -> bool {
    &&& ctx.ops@[op.ptr as int].attributes@.len() == 6
    &&& has_names_attr(ctx, op, 1, "argNames"@, inputs)
    &&& has_names_attr(ctx, op, 2, "resultNames"@, outputs)
    &&& ctx.ops@[op.ptr as int].attributes@[3].name@ == "parameters"@
    &&& has_function_type_attr(ctx, op, 4, "function_type"@, port_types_of(inputs), port_types_of(outputs))
    &&& has_string_attr(ctx, op, 5, "comment"@, comment)
}

/// What a built module holds: its name, one region whose first block takes the input
/// ports as arguments, and the builder placing next operations at the end of that block.
pub open spec fn module_built(b: &OpBuilder, op: MlirOperation, name: Seq<char>, inputs: Seq<PortInfo>) -> bool {
    &&& b.ctx.valid_op(op)
    &&& b.ctx.ops@[op.ptr as int].name@ == "hw.module"@
    &&& has_string_attr(&b.ctx, op, 0, "sym_name"@, name)
    &&& module_body(&b.ctx, op) is Some
    &&& b.insert_point == Some(crate::builder::InsertPoint::BlockEnd(crate::block::Block(module_body(&b.ctx, op)->0)))
    &&& b.ctx.blocks@[module_body(&b.ctx, op)->0.ptr as int].arguments@.len() == inputs.len()
    &&& forall|k: int| 0 <= k < inputs.len() ==> b.ctx.type_of(#[trigger] b.ctx.blocks@[module_body(&b.ctx, op)->0.ptr as int].arguments@[k]) == inputs[k].ty.0
}

impl HwModuleOp {
    /// Build a module named `name` with the given ports, parameters and comment at the
    /// builder's insertion point, and point the builder at the end of its body.
    pub fn build(
        builder: &mut OpBuilder,
        name: &str,
        inputs: &[PortInfo],
        outputs: &[PortInfo],
        parameters: &[ParamDeclAttr],
        comment: &str,
    ) -> (r: Result<HwModuleOp, Error>)
        requires
            old(builder).wf(),
        ensures
            final(builder).wf(),
            final(builder).ctx.extends(&old(builder).ctx),
            final(builder).loc == old(builder).loc,
            r is Ok <==> (can_place(old(builder)) && ports_valid(&old(builder).ctx, inputs@)
                && ports_valid(&old(builder).ctx, outputs@)),
            r matches Ok(op) ==> module_built(final(builder), op.0, name@, inputs@)
                && module_attrs(&final(builder).ctx, op.0, inputs@, outputs@, comment@)
                && final(builder).ctx.ops@[op.0.ptr as int].loc == old(builder).loc.0
                && crate::builder::placed_grown(&final(builder).ctx, &old(builder).ctx, op.0, old(builder).insert_point),
            r is Err ==> *final(builder) == *old(builder),
    {
        if !check_place(builder) || !check_ports(&builder.ctx, inputs) || !check_ports(&builder.ctx, outputs) {
            return Err(Error::IsNone);
        }
        let ghost b0 = *old(builder);
        let loc = builder.loc;
        let mut args: Vec<(Type, crate::location::Location)> = Vec::new();
        let mut k: usize = 0;
        while k < inputs.len()
            invariant
                k <= inputs@.len(),
                args@.len() == k,
                forall|j: int| 0 <= j < k ==> ((#[trigger] args@[j]).0).0 == inputs@[j].ty.0,
            decreases inputs@.len() - k,
        {
            args.push((inputs[k].ty, loc));
            k = k + 1;
        }
        let block = crate::block::Block::create(&mut builder.ctx, args.as_slice());
        let blk = *block.get();
        let ghost bc = builder.ctx;
        let region = crate::block::Region::new(&mut builder.ctx);
        let reg = *region.get();
        reg.append_block(&mut builder.ctx, block);
        let ghost b1 = *builder;
        assert(kept_structure(&b1.ctx, &b0.ctx));
        let sym = StringAttr::new(&mut builder.ctx, name);
        let in_names = port_names(&mut builder.ctx, inputs);
        let in_attrs = attrs_of_strings(&in_names);
        let arg_names = crate::attr::ArrayAttr::new(&mut builder.ctx, in_attrs.as_slice());
        let out_names = port_names(&mut builder.ctx, outputs);
        let out_attrs = attrs_of_strings(&out_names);
        let result_names = crate::attr::ArrayAttr::new(&mut builder.ctx, out_attrs.as_slice());
        let param_attrs = attrs_of_params(parameters);
        let params = crate::attr::ArrayAttr::new(&mut builder.ctx, param_attrs.as_slice());
        let in_tys = port_types(inputs);
        let out_tys = port_types(outputs);
        let ghost b2 = *builder;
        proof {
            assert(b2.ctx.types@ == b0.ctx.types@);
            assert(crate::ty::types_raw(in_tys@).len() == in_tys@.len());
            assert(port_types_of(inputs@).len() == inputs@.len());
            assert(crate::ty::types_raw(out_tys@).len() == out_tys@.len());
            assert(port_types_of(outputs@).len() == outputs@.len());
            assert forall|j: int| 0 <= j < in_tys@.len() implies b2.ctx.valid_type(#[trigger] in_tys@[j].0) by {
                assert(crate::ty::types_raw(in_tys@)[j] == in_tys@[j].0);
                assert(port_types_of(inputs@)[j] == inputs@[j].ty.0);
                assert(b0.ctx.valid_type(inputs@[j].ty.0));
            }
            assert forall|j: int| 0 <= j < out_tys@.len() implies b2.ctx.valid_type(#[trigger] out_tys@[j].0) by {
                assert(crate::ty::types_raw(out_tys@)[j] == out_tys@[j].0);
                assert(port_types_of(outputs@)[j] == outputs@[j].ty.0);
                assert(b0.ctx.valid_type(outputs@[j].ty.0));
            }
        }
        let fty = crate::ty::FunctionType::new(&mut builder.ctx, in_tys.as_slice(), out_tys.as_slice());
        let fattr = crate::attr::TypeAttr::new(&mut builder.ctx, &Type(fty.0));
        let cattr = StringAttr::new(&mut builder.ctx, comment);
        let ghost b3 = *builder;
        let mut state = crate::operation::OperationState::new(HwModuleOp::operation_name(), &loc);
        state.add_region(region);
        state.add_attribute(crate::symbol::SymbolTable::symbol_attr_name(), &sym);
        state.add_attribute("argNames", &arg_names);
        state.add_attribute("resultNames", &result_names);
        state.add_attribute("parameters", &params);
        state.add_attribute("function_type", &fattr);
        state.add_attribute("comment", &cattr);
        proof {
            assert(kept_structure(&b3.ctx, &b0.ctx));
            lemma_kept_place(&b3, &b0);
            assert(state.regions@[0] == reg);
            assert(crate::operation::state_ok(&b3.ctx, &state));
        }
        let ghost st = state;
        let op = match builder.create::<HwModuleOp>(state) {
            Some(op) => op,
            None => {
                return Err(Error::IsNone);
            },
        };
        proof {
            assert(crate::operation::regions_raw(st.regions@)[0] == reg.0);
            assert(builder.ctx.regions@[reg.0.ptr as int].blocks == b3.ctx.regions@[reg.0.ptr as int].blocks);
            assert(module_body(&builder.ctx, op.0) == Some(blk.0));
            assert(st.attributes@[0].0.name@ == "sym_name"@);
            assert(crate::operation::named_raw(st.attributes@)[0] == st.attributes@[0].0);
            assert(builder.ctx.attrs@[sym.0.ptr as int] == b3.ctx.attrs@[sym.0.ptr as int]);
            let nr = crate::operation::named_raw(st.attributes@);
            assert(nr[1] == st.attributes@[1].0);
            assert(nr[2] == st.attributes@[2].0);
            assert(nr[3] == st.attributes@[3].0);
            assert(nr[4] == st.attributes@[4].0);
            assert(nr[5] == st.attributes@[5].0);
            assert(builder.ctx.attrs@[arg_names.0.ptr as int] == b3.ctx.attrs@[arg_names.0.ptr as int]);
            assert(builder.ctx.attrs@[result_names.0.ptr as int] == b3.ctx.attrs@[result_names.0.ptr as int]);
            assert(builder.ctx.attrs@[fattr.0.ptr as int] == b3.ctx.attrs@[fattr.0.ptr as int]);
            assert(builder.ctx.attrs@[cattr.0.ptr as int] == b3.ctx.attrs@[cattr.0.ptr as int]);
            assert(builder.ctx.types@[fty.0.ptr as int] == b3.ctx.types@[fty.0.ptr as int]);
            assert(crate::ty::types_raw(in_tys@) == port_types_of(inputs@));
            assert forall|j: int| 0 <= j < inputs@.len() implies crate::attr::string_attr_holds(&builder.ctx, #[trigger] crate::attr::attrs_raw(in_attrs@)[j], inputs@[j].name@) by {
                assert(crate::attr::attrs_raw(in_attrs@)[j] == in_attrs@[j].0);
                assert(builder.ctx.attrs@[in_names@[j].0.ptr as int] == b3.ctx.attrs@[in_names@[j].0.ptr as int]);
            }
            assert forall|j: int| 0 <= j < outputs@.len() implies crate::attr::string_attr_holds(&builder.ctx, #[trigger] crate::attr::attrs_raw(out_attrs@)[j], outputs@[j].name@) by {
                assert(crate::attr::attrs_raw(out_attrs@)[j] == out_attrs@[j].0);
                assert(builder.ctx.attrs@[out_names@[j].0.ptr as int] == b3.ctx.attrs@[out_names@[j].0.ptr as int]);
            }
            if let Some(p) = b0.insert_point {
                assert(b3.ctx.blocks@[p.spec_block().ptr as int] == b0.ctx.blocks@[p.spec_block().ptr as int]);
            }
        }
        builder.set_insertion_point(Some(crate::builder::InsertPoint::BlockEnd(blk)));
        proof {
            assert(builder.ctx.valid_op(op.0));
            assert(builder.ctx.ops@[op.0.ptr as int].name@ == "hw.module"@);
            assert(has_string_attr(&builder.ctx, op.0, 0, "sym_name"@, name@));
            assert(module_body(&builder.ctx, op.0) is Some);
            assert(builder.ctx.blocks@[blk.0.ptr as int].arguments == b1.ctx.blocks@[blk.0.ptr as int].arguments);
            assert(builder.ctx.blocks@[blk.0.ptr as int].arguments@.len() == inputs@.len());
            assert(module_body(&builder.ctx, op.0)->0 == blk.0);
            assert forall|k: int| 0 <= k < inputs@.len() implies builder.ctx.type_of(
                #[trigger] builder.ctx.blocks@[blk.0.ptr as int].arguments@[k],
            ) == inputs@[k].ty.0 by {
                let a = bc.blocks@[blk.0.ptr as int].arguments@[k];
                assert(bc.type_of(a) == (args@[k].0).0);
                assert(bc.valid_value(a));
                assert(b1.ctx.values@ == bc.values@);
                assert(b1.ctx.blocks@[blk.0.ptr as int].arguments@[k] == a);
            }
        }
        Ok(op)
    }

    /// Build a module at the end of `module`'s body.
    pub fn build_in_module(
        builder: &mut OpBuilder,
        module: &crate::module::Module,
        name: &str,
        ports: &ModulePortInfo,
        parameters: &[ParamDeclAttr],
        comment: &str,
    ) -> (r: Result<HwModuleOp, Error>)
        requires
            old(builder).wf(),
        ensures
            final(builder).wf(),
            final(builder).ctx.extends(&old(builder).ctx),
            final(builder).loc == old(builder).loc,
            r is Ok <==> (old(builder).ctx.valid_op(module.0) && module_body(&old(builder).ctx, module.0) is Some
                && old(builder).ctx.valid_block(module_body(&old(builder).ctx, module.0)->0)
                && old(builder).ctx.valid_location(old(builder).loc.0)
                && ports_valid(&old(builder).ctx, ports.inputs@) && ports_valid(&old(builder).ctx, ports.outputs@)),
            r matches Ok(op) ==> module_built(final(builder), op.0, name@, ports.inputs@)
                && module_attrs(&final(builder).ctx, op.0, ports.inputs@, ports.outputs@, comment@)
                && final(builder).ctx.ops@[op.0.ptr as int].parent == module_body(&old(builder).ctx, module.0)->0
                && final(builder).ctx.blocks@[module_body(&old(builder).ctx, module.0)->0.ptr as int].ops@
                    == old(builder).ctx.blocks@[module_body(&old(builder).ctx, module.0)->0.ptr as int].ops@.push(op.0),
    {
        if module.0.ptr == 0 || module.0.ptr >= builder.ctx.ops.len() || builder.ctx.ops[module.0.ptr].destroyed {
            return Err(Error::IsNone);
        }
        let body = match Operation(module.0).first_block(&builder.ctx) {
            Some(b) => b,
            None => {
                return Err(Error::IsNone);
            },
        };
        builder.set_insertion_point(Some(crate::builder::InsertPoint::BlockEnd(body)));
        let r = HwModuleOp::build(builder, name, ports.inputs.as_slice(), ports.outputs.as_slice(), parameters, comment);
        proof {
            if let Ok(op) = r {
                let os = old(builder).ctx.blocks@[body.0.ptr as int].ops@;
                assert(os.insert(os.len() as int, op.0) =~= os.push(op.0));
            }
        }
        r
    }
}

/// The value named `name` in `outs`: the first entry with that name.
pub open spec fn lookup_output(outs: Seq<(String, Value)>, name: Seq<char>) -> Option<Value>
    decreases outs.len(),
{
    if outs.len() == 0 {
        None
    } else if outs[0].0@ == name {
        Some(outs[0].1)
    } else {
        lookup_output(outs.drop_first(), name)
    }
}

/// Every output port has a value in `outs`.
pub open spec fn all_outputs_named(outs: Seq<(String, Value)>, ports: Seq<PortInfo>) -> bool {
    forall|j: int| 0 <= j < ports.len() ==> #[trigger] lookup_output(outs, ports[j].name@) is Some
}

/// The values of the output ports, in port order.
pub open spec fn outputs_of(outs: Seq<(String, Value)>, ports: Seq<PortInfo>) -> Seq<MlirValue> {
    ports.map_values(|p: PortInfo| match lookup_output(outs, p.name@) {
        Some(v) => v.0,
        None => MlirValue { ptr: 0 },
    })
}

/// `ins` pairs each input port's name with the body argument at its position.
pub open spec fn inputs_keyed(ctx: &Context, body: crate::block::Block, ins: Seq<(String, Value)>, ports: Seq<PortInfo>) -> bool {
    &&& ins.len() == ports.len()
    &&& forall|i: int| 0 <= i < ins.len() ==> (#[trigger] ins[i]).0@ == ports[i].name@
        && ins[i].1.0 == ctx.blocks@[body.0.ptr as int].arguments@[i]
}

/// The body block ends with an `hw.output`; unless `before`, the store as the body's
/// filler left it, already ended the block with one, its operands are `vals`.
pub open spec fn ends_with_output(ctx: &Context, before: &Context, body: MlirBlock, vals: Seq<MlirValue>) -> bool {
    let ops = ctx.blocks@[body.ptr as int].ops@;
    let had = before.blocks@[body.ptr as int].ops@.len() > 0 && crate::operation::spec_op_isa::<OutputOp>(
        before,
        before.blocks@[body.ptr as int].ops@.last(),
    );
    &&& ops.len() > 0
    &&& crate::operation::spec_op_isa::<OutputOp>(ctx, ops.last())
    &&& !had ==> ctx.ops@[ops.last().ptr as int].operands@ == vals
}

fn find_output(outs: &Vec<(String, Value)>, name: &str) -> (r: Option<Value>)
    ensures
        r == lookup_output(outs@, name@),
{
    let mut k: usize = 0;
    assert(outs@.skip(0) =~= outs@);
    while k < outs.len()
        invariant
            k <= outs@.len(),
            lookup_output(outs@, name@) == lookup_output(outs@.skip(k as int), name@),
        decreases outs@.len() - k,
    {
        assert(outs@.skip(k as int).drop_first() =~= outs@.skip(k + 1));
        assert(outs@.skip(k as int)[0] == outs@[k as int]);
        if crate::text::str_eq(outs[k].0.as_str(), name) {
            return Some(outs[k].1);
        }
        k = k + 1;
    }
    assert(outs@.skip(k as int).len() == 0);
    None
}

impl HwModuleOp {
    /// Build a module in `module`, let `with_fn` fill its body, then end the body with an
    /// output operation holding, for each output port in order, the value that `with_fn`
    /// named after it. `with_fn` receives the builder, the body block, and the input port
    /// names with their block arguments; it hands the builder back with the named values.
    /// A missing output value gives `SimpleError`; other failures give `IsNone`.
    pub fn build_with<F: FnOnce(OpBuilder, crate::block::Block, Vec<(String, Value)>) -> (OpBuilder, Vec<(String, Value)>)>(
        builder: &mut OpBuilder,
        module: &crate::module::Module,
        name: &str,
        ports: &ModulePortInfo,
        parameters: &[ParamDeclAttr],
        comment: &str,
        with_fn: F,
    ) -> (r: Result<HwModuleOp, Error>)
        requires
            old(builder).wf(),
            forall|b: OpBuilder, blk: crate::block::Block, ins: Vec<(String, Value)>|
                b.wf() ==> #[trigger] with_fn.requires((b, blk, ins)),
            forall|args: (OpBuilder, crate::block::Block, Vec<(String, Value)>), ret: (OpBuilder, Vec<(String, Value)>)|
                #[trigger] with_fn.ensures(args, ret) ==> ret.0.wf(),
        ensures
            final(builder).wf(),
            (r is Ok || r matches Err(Error::SimpleError(_))) ==> exists|
                args: (OpBuilder, crate::block::Block, Vec<(String, Value)>),
                ret: (OpBuilder, Vec<(String, Value)>),
            |
                #[trigger] with_fn.ensures(args, ret) && inputs_keyed(&args.0.ctx, args.1, args.2@, ports.inputs@)
                    && ((r matches Err(Error::SimpleError(_))) <==> !all_outputs_named(ret.1@, ports.outputs@))
                    && (r matches Ok(op) ==> crate::operation::spec_op_isa::<HwModuleOp>(&final(builder).ctx, op.0)
                        && module_body(&final(builder).ctx, op.0) == Some(args.1.0)
                        && ends_with_output(&final(builder).ctx, &ret.0.ctx, args.1.0, outputs_of(ret.1@, ports.outputs@))),
    {
        let m = match HwModuleOp::build_in_module(builder, module, name, ports, parameters, comment) {
            Ok(m) => m,
            Err(_) => {
                return Err(Error::IsNone);
            },
        };
        let body = match Operation(m.0).first_block(&builder.ctx) {
            Some(b) => b,
            None => {
                return Err(Error::IsNone);
            },
        };
        if body.0.ptr == 0 || body.0.ptr >= builder.ctx.blocks.len() || builder.ctx.blocks[body.0.ptr].destroyed {
            return Err(Error::IsNone);
        }
        let args = body.arguments(&builder.ctx);
        let mut inputs: Vec<(String, Value)> = Vec::new();
        let mut k: usize = 0;
        while k < ports.inputs.len() && k < args.len()
            invariant
                k <= args@.len(),
                k <= ports.inputs@.len(),
                inputs@.len() == k,
                forall|i: int| 0 <= i < k ==> (#[trigger] inputs@[i]).0@ == ports.inputs@[i].name@ && inputs@[i].1 == args@[i],
            decreases args@.len() - k,
        {
            inputs.push((ports.inputs[k].name.clone(), args[k]));
            k = k + 1;
        }
        let ghost b1 = *builder;
        proof {
            assert(args@.len() == ports.inputs@.len()) by {
                assert(crate::value::values_raw(args@).len() == args@.len());
            }
            assert forall|i: int| 0 <= i < inputs@.len() implies (#[trigger] inputs@[i]).1.0 == b1.ctx.blocks@[body.0.ptr as int].arguments@[i] by {
                assert(crate::value::values_raw(args@)[i] == args@[i].0);
            }
        }
        let ghost ins = inputs;
        let mut tmp = OpBuilder::new_with_loc(Context::new(), builder.loc);
        std::mem::swap(builder, &mut tmp);
        assert(tmp == b1);
        let ghost args_t = (tmp, body, inputs);
        let (b2, outs) = with_fn(tmp, body, inputs);
        let ghost ret_t = (b2, outs);
        proof {
            assert(inputs_keyed(&b1.ctx, body, args_t.2@, ports.inputs@));
        }
        *builder = b2;
        let ghost b2c = builder.ctx;
        let mut output_vals: Vec<Value> = Vec::new();
        let mut j: usize = 0;
        while j < ports.outputs.len()
            invariant
                builder.wf(),
                builder.ctx == b2c,
                with_fn.ensures(args_t, ret_t),
                args_t.0 == b1,
                args_t.1 == body,
                ret_t.1 == outs,
                inputs_keyed(&b1.ctx, body, args_t.2@, ports.inputs@),
                j <= ports.outputs@.len(),
                crate::value::values_raw(output_vals@) == outputs_of(outs@, ports.outputs@).take(j as int),
                forall|i: int| 0 <= i < j ==> #[trigger] lookup_output(outs@, ports.outputs@[i].name@) is Some,
            decreases ports.outputs@.len() - j,
        {
            match find_output(&outs, ports.outputs[j].name.as_str()) {
                Some(v) => {
                    let ghost before = output_vals@;
                    assert(outputs_of(outs@, ports.outputs@)[j as int] == v.0);
                    output_vals.push(v);
                    assert(crate::value::values_raw(output_vals@) =~= crate::value::values_raw(before).push(v.0));
                    assert(outputs_of(outs@, ports.outputs@).take(j + 1) =~= outputs_of(outs@, ports.outputs@).take(j as int).push(v.0));
                },
                None => {
                    proof {
                        assert(with_fn.ensures(args_t, ret_t));
                        assert(args_t.0 == b1);
                        assert(lookup_output(outs@, ports.outputs@[j as int].name@) is None);
                    }
                    let mut msg = String::from_str("Value for output port: ");
                    msg.append(ports.outputs[j].name.as_str());
                    msg.append(" is missing!");
                    return Err(Error::SimpleError(msg));
                },
            }
            j = j + 1;
        }
        assert(outputs_of(outs@, ports.outputs@).take(ports.outputs@.len() as int) =~= outputs_of(outs@, ports.outputs@));
        if body.0.ptr == 0 || body.0.ptr >= builder.ctx.blocks.len() || builder.ctx.blocks[body.0.ptr].destroyed {
            return Err(Error::IsNone);
        }
        let has_output = match body.terminator(&builder.ctx) {
            Some(t) => crate::operation::op_isa::<OutputOp>(&builder.ctx, &t),
            None => false,
        };
        if !has_output {
            builder.set_insertion_point(Some(crate::builder::InsertPoint::BlockEnd(body)));
            let ghost b3 = *builder;
            match OutputOp::build(builder, output_vals.as_slice()) {
                None => {
                    return Err(Error::IsNone);
                },
                Some(o) => {
                    proof {
                        let os = b3.ctx.blocks@[body.0.ptr as int].ops@;
                        assert(os.insert(os.len() as int, o.0) =~= os.push(o.0));
                    }
                },
            }
        }
        if crate::operation::op_isa::<HwModuleOp>(&builder.ctx, &Operation(m.0)) && Operation(m.0).first_block(&builder.ctx).is_some()
            && Operation(m.0).first_block(&builder.ctx).unwrap().0.ptr == body.0.ptr {
            proof {
                assert(with_fn.ensures(args_t, ret_t));
                assert(args_t.0 == b1);
            }
            Ok(m)
        } else {
            Err(Error::IsNone)
        }
    }
}

/// A type handle satisfies at most one kind predicate: narrowing an instance of one kind
/// to another kind always fails.
pub proof fn lemma_type_kinds_disjoint(ctx: &Context, t: MlirType)
    ensures
        IntegerType::spec_isa(ctx, t) ==> !crate::ty::IndexType::spec_isa(ctx, t) && !crate::ty::FunctionType::spec_isa(ctx, t)
            && !ArrayType::spec_isa(ctx, t) && !InOutType::spec_isa(ctx, t) && !StructType::spec_isa(ctx, t),
        crate::ty::IndexType::spec_isa(ctx, t) ==> !crate::ty::FunctionType::spec_isa(ctx, t) && !ArrayType::spec_isa(ctx, t)
            && !InOutType::spec_isa(ctx, t) && !StructType::spec_isa(ctx, t),
        crate::ty::FunctionType::spec_isa(ctx, t) ==> !ArrayType::spec_isa(ctx, t) && !InOutType::spec_isa(ctx, t)
            && !StructType::spec_isa(ctx, t),
        ArrayType::spec_isa(ctx, t) ==> !InOutType::spec_isa(ctx, t) && !StructType::spec_isa(ctx, t),
        InOutType::spec_isa(ctx, t) ==> !StructType::spec_isa(ctx, t),
        AliasType::spec_isa(ctx, t) ==> !IntegerType::spec_isa(ctx, t) && !crate::ty::IndexType::spec_isa(ctx, t)
            && !crate::ty::FunctionType::spec_isa(ctx, t) && !ArrayType::spec_isa(ctx, t) && !InOutType::spec_isa(ctx, t)
            && !StructType::spec_isa(ctx, t),
{
}

/// A kind, once it holds of a type handle, keeps holding as the store grows: every
/// instance constructed earlier still narrows to its kind.
pub proof fn lemma_type_kinds_stable(new: &Context, old: &Context, t: MlirType)
    requires
        new.extends(old),
        old.valid_type(t),
    ensures
        IntegerType::spec_isa(old, t) ==> IntegerType::spec_isa(new, t),
        crate::ty::IndexType::spec_isa(old, t) ==> crate::ty::IndexType::spec_isa(new, t),
        crate::ty::FunctionType::spec_isa(old, t) ==> crate::ty::FunctionType::spec_isa(new, t),
        ArrayType::spec_isa(old, t) ==> ArrayType::spec_isa(new, t),
        InOutType::spec_isa(old, t) ==> InOutType::spec_isa(new, t),
        StructType::spec_isa(old, t) ==> StructType::spec_isa(new, t),
        AliasType::spec_isa(old, t) ==> AliasType::spec_isa(new, t),
{
    assert(new.types@[t.ptr as int] == old.types@[t.ptr as int]);
}

fn fields_valid(ctx: &Context, fields: &[(String, Type)]) -> (r: bool)
    ensures
        r == forall|k: int| 0 <= k < fields@.len() ==> ctx.valid_type((#[trigger] fields@[k].1).0),
{
    let mut k: usize = 0;
    while k < fields.len()
        invariant
            k <= fields@.len(),
            forall|j: int| 0 <= j < k ==> ctx.valid_type((#[trigger] fields@[j].1).0),
        decreases fields@.len() - k,
    {
        let t = (fields[k].1).0;
        if t.ptr == 0 || t.ptr >= ctx.types.len() {
            return false;
        }
        k = k + 1;
    }
    true
}

impl Context {
    /// The integer type of width `bitwidth`.
    pub fn get_integer_type(&mut self, bitwidth: u32) -> (r: Option<Type>)
        requires
            old(self).wf(),
        ensures
            r matches Some(t) && type_added(final(self), old(self), t.0)
                && final(self).types@[t.0.ptr as int] == (TypeData::Integer { width: bitwidth }),
    {
        Some(IntegerType::new(self, bitwidth).as_type())
    }

    /// The function type from `inputs` to `results`; `None` when a type is not live.
    pub fn get_function_type(&mut self, inputs: &[Type], results: &[Type]) -> (r: Option<Type>)
        requires
            old(self).wf(),
        ensures
            final(self).wf(),
            final(self).extends(old(self)),
            r is Some <==> (all_valid_types(old(self), inputs@) && all_valid_types(old(self), results@)),
            r matches Some(t) ==> crate::ty::FunctionType::spec_isa(final(self), t.0),
            r is None ==> *final(self) == *old(self),
    {
        if !crate::func::check_types_slice(self, inputs) || !crate::func::check_types_slice(self, results) {
            return None;
        }
        Some(crate::ty::FunctionType::new(self, inputs, results).as_type())
    }

    /// The struct type with the given fields; `None` when a type is not live.
    pub fn get_struct_type(&mut self, fields: &[(String, Type)]) -> (r: Option<Type>)
        requires
            old(self).wf(),
        ensures
            final(self).wf(),
            final(self).extends(old(self)),
            r is Some <==> forall|k: int| 0 <= k < fields@.len() ==> old(self).valid_type((#[trigger] fields@[k].1).0),
            r matches Some(t) ==> StructType::spec_isa(final(self), t.0) && struct_fields(final(self), t.0).len() == fields@.len(),
            r is None ==> *final(self) == *old(self),
    {
        if !fields_valid(self, fields) {
            return None;
        }
        Some(StructType::new(self, fields).as_type())
    }
}

/// The `hw` dialect.
pub fn dialect() -> (r: crate::context::DialectHandle)
    ensures
        r.namespace@ == "hw"@,
{
    crate::context::DialectHandle::new("hw")
}

/// Register the hardware passes of the `hw` and `sv` dialects that pipelines name.
pub fn register_hw_passes(ctx: &mut Context)
    requires
        old(ctx).wf(),
    ensures
        crate::passes::registry_grew(final(ctx), old(ctx)),
        final(ctx).is_registered("hw-cleanup"@),
        final(ctx).is_registered("prettify-verilog"@),
        final(ctx).is_registered("hw-print-module-graph"@),
        final(ctx).is_registered("hw-print-instance-graph"@),
{
    ctx.register_pass("hw-cleanup");
    ctx.register_pass("prettify-verilog");
    ctx.register_pass("hw-print-module-graph");
    ctx.register_pass("hw-print-instance-graph");
}

/// Register the lowering of `hwarith` to `hw`, `lower-hwarith-to-hw`.
pub fn register_arith_passes(ctx: &mut Context)
    requires
        old(ctx).wf(),
    ensures
        crate::passes::registry_grew(final(ctx), old(ctx)),
        final(ctx).is_registered("lower-hwarith-to-hw"@),
{
    ctx.register_pass("lower-hwarith-to-hw");
}

} // verus!

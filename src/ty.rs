//! Types: the generic `Type` handle, its kinds, and their textual form.
//!
//! Types without component lists (integers, `index`, arrays, inouts) are interned: the
//! same description always yields the same handle.
use vstd::prelude::*;
use crate::context::{same_flat, Context, StructField, TypeData};
use crate::error::{is_kind_mismatch, Error};
use crate::text::{append_decimal, decimal};
use crate::wrap_raw::{HasRaw, MlirType, WrapRawPtr};

verus! {

/// A type of any kind.
#[derive(Clone, Copy, Debug, PartialEq, Eq, Structural)]
pub struct Type(pub MlirType);

impl HasRaw for Type {
    type RawType = MlirType;

    open spec fn spec_raw(&self) -> MlirType {
        self.0
    }

    fn raw(&self) -> (r: MlirType) {
        self.0
    }

    fn take_raw(self) -> (r: MlirType) {
        self.0
    }
}

impl WrapRawPtr for Type {
    open spec fn spec_is_null(raw: MlirType) -> bool {
        raw.ptr == 0
    }

    fn try_from_raw(raw: MlirType) -> (r: Option<Type>) {
        if raw.ptr == 0 {
            None
        } else {
            Some(Type(raw))
        }
    }

    fn from_raw(raw: MlirType) -> (r: Type) {
        Type(raw)
    }
}

/// Anything that is a type: it widens to `Type` without a check.
pub trait Ty: Sized {
    spec fn spec_type(&self) -> MlirType;

    fn as_type(&self) -> (r: Type)
        ensures
            r.0 == self.spec_type(),
    ;
}

/// A kind of type, recognised at run time by a predicate on the store.
pub trait TyIsa: Ty {
    spec fn spec_isa(ctx: &Context, t: MlirType) -> bool;

    spec fn spec_kind_name() -> Seq<char>;

    /// The kind's name, for error messages.
    fn kind_name() -> (r: &'static str)
        ensures
            r@ == Self::spec_kind_name(),
    ;

    fn isa(ctx: &Context, ty: &Type) -> (r: bool)
        requires
            ctx.wf(),
        ensures
            r == Self::spec_isa(ctx, ty.0),
    ;

    /// Re-wrap a handle as this kind, without a check.
    fn wrap(t: Type) -> (r: Self)
        ensures
            r.spec_type() == t.0,
    ;
}

impl Ty for Type {
    open spec fn spec_type(&self) -> MlirType {
        self.0
    }

    fn as_type(&self) -> (r: Type) {
        *self
    }
}

impl TyIsa for Type {
    open spec fn spec_isa(ctx: &Context, t: MlirType) -> bool {
        true
    }

    open spec fn spec_kind_name() -> Seq<char> {
        "Type"@
    }

    fn kind_name() -> (r: &'static str) {
        "Type"
    }

    fn isa(ctx: &Context, ty: &Type) -> (r: bool) {
        true
    }

    fn wrap(t: Type) -> (r: Type) {
        t
    }
}

/// Narrow a type to kind `K`: succeeds exactly when the handle is of that kind, and then
/// keeps the same handle.
pub fn narrow_type<K: TyIsa>(ctx: &Context, ty: Type) -> (r: Result<K, Error>)
    requires
        ctx.wf(),
    ensures
        r is Ok <==> K::spec_isa(ctx, ty.0),
        r matches Ok(k) ==> k.spec_type() == ty.0,
        r matches Err(e) ==> is_kind_mismatch(e, K::spec_kind_name(), type_rendering(ctx, ty.0)),
{
    if K::isa(ctx, &ty) {
        Ok(K::wrap(ty))
    } else {
        let actual = if 1 <= ty.0.ptr && ty.0.ptr < ctx.types.len() {
            ty.to_string(ctx)
        } else {
            String::new()
        };
        Err(Error::KindMismatch { expected: String::from_str(K::kind_name()), actual })
    }
}

/// The text of a type in errors: its textual form when it is live, else nothing.
pub open spec fn type_rendering(ctx: &Context, t: MlirType) -> Seq<char> {
    if ctx.valid_type(t) {
        type_text(ctx.types@, t.ptr as int)
    } else {
        Seq::empty()
    }
}

pub open spec fn is_integer(d: TypeData) -> bool {
    d is Integer
}

pub open spec fn kind_at(ctx: &Context, t: MlirType) -> TypeData {
    ctx.types@[t.ptr as int]
}

/// The flat type descriptions, which are interned.
pub enum FlatType {
    Integer(u32),
    Index,
    Array(MlirType, usize),
    InOut(MlirType),
}

pub open spec fn flat_matches(d: TypeData, k: FlatType) -> bool {
    match k {
        FlatType::Integer(w) => d matches TypeData::Integer { width } && width == w,
        FlatType::Index => d is Index,
        FlatType::Array(e, n) => d matches TypeData::Array { element, size } && element == e && size
            == n,
        FlatType::InOut(e) => d matches TypeData::InOut { element } && element == e,
    }
}

fn flat_eq(d: &TypeData, k: &FlatType) -> (r: bool)
    ensures
        r == flat_matches(*d, *k),
{
    match (d, k) {
        (TypeData::Integer { width }, FlatType::Integer(w)) => *width == *w,
        (TypeData::Index, FlatType::Index) => true,
        (TypeData::Array { element, size }, FlatType::Array(e, n)) => element.ptr == e.ptr && *size
            == *n,
        (TypeData::InOut { element }, FlatType::InOut(e)) => element.ptr == e.ptr,
        _ => false,
    }
}

/// What a type-creating call may change: only the type table grows.
pub open spec fn type_added(new: &Context, old: &Context, r: MlirType) -> bool {
    &&& new.wf()
    &&& new.extends(old)
    &&& new.attrs@ == old.attrs@
    &&& new.locations@ == old.locations@
    &&& new.same_structure(old)
    &&& new.same_values(old)
    &&& new.same_passes(old)
    &&& new.valid_type(r)
    &&& old.types@.len() <= new.types@.len() <= old.types@.len() + 1
    &&& (new.types@.len() == old.types@.len() + 1 ==> r.ptr == old.types@.len())
}

fn find_flat(ctx: &Context, k: &FlatType) -> (r: Option<usize>)
    ensures
        r matches Some(i) ==> 1 <= i < ctx.types@.len() && flat_matches(ctx.types@[i as int], *k),
        r is None ==> forall|j: int| 1 <= j < ctx.types@.len() ==> !flat_matches(#[trigger] ctx.types@[j], *k),
{
    let mut i: usize = 1;
    while i < ctx.types.len()
        invariant
            1 <= i,
            forall|j: int| 1 <= j < i ==> !flat_matches(#[trigger] ctx.types@[j], *k),
        decreases ctx.types@.len() - i,
    {
        if flat_eq(&ctx.types[i], k) {
            return Some(i);
        }
        i = i + 1;
    }
    None
}

/// Find the flat type `k`, or add it.
pub(crate) fn intern_flat(ctx: &mut Context, k: FlatType) -> (r: MlirType)
    requires
        old(ctx).wf(),
        k matches FlatType::Array(e, _) ==> old(ctx).valid_type(e),
        k matches FlatType::InOut(e) ==> old(ctx).valid_type(e),
    ensures
        type_added(final(ctx), old(ctx), r),
        flat_matches(final(ctx).types@[r.ptr as int], k),
        forall|j: int| 1 <= j < old(ctx).types@.len() && flat_matches(#[trigger] old(ctx).types@[j], k) ==> r.ptr == j
            && final(ctx).types@ == old(ctx).types@,
{
    if let Some(i) = find_flat(ctx, &k) {
        proof {
            assert forall|j: int| 1 <= j < old(ctx).types@.len() && flat_matches(#[trigger] old(ctx).types@[j], k) implies i == j by {
                if i != j {
                    assert(!same_flat(ctx.types@[i as int], ctx.types@[j]));
                }
            }
        }
        return MlirType { ptr: i };
    }
    let n = ctx.types.len();
    let d = match k {
        FlatType::Integer(w) => TypeData::Integer { width: w },
        FlatType::Index => TypeData::Index,
        FlatType::Array(e, s) => TypeData::Array { element: e, size: s },
        FlatType::InOut(e) => TypeData::InOut { element: e },
    };
    ctx.types.push(d);
    assert(forall|j: int| 0 <= j < n ==> ctx.types@[j] == old(ctx).types@[j]);
    MlirType { ptr: n }
}

/// Add a type with component lists.
pub(crate) fn push_type(ctx: &mut Context, d: TypeData) -> (r: MlirType)
    requires
        old(ctx).wf(),
        type_data_ok(d, old(ctx).types@.len() as int),
        d is Function || d is Struct || d is Alias,
    ensures
        type_added(final(ctx), old(ctx), r),
        r.ptr == old(ctx).types@.len(),
        final(ctx).types@ == old(ctx).types@.push(d),
{
    let n = ctx.types.len();
    ctx.types.push(d);
    MlirType { ptr: n }
}

use crate::context::type_data_ok;

/// A signless integer type of a given width, `iN`.
#[derive(Clone, Copy, Debug, PartialEq, Eq, Structural)]
pub struct IntegerType(pub MlirType);

impl Ty for IntegerType {
    open spec fn spec_type(&self) -> MlirType {
        self.0
    }

    fn as_type(&self) -> (r: Type) {
        Type(self.0)
    }
}

impl TyIsa for IntegerType {
    open spec fn spec_isa(ctx: &Context, t: MlirType) -> bool {
        ctx.valid_type(t) && ctx.types@[t.ptr as int] is Integer
    }

    open spec fn spec_kind_name() -> Seq<char> {
        "IntegerType"@
    }

    fn kind_name() -> (r: &'static str) {
        "IntegerType"
    }

    fn isa(ctx: &Context, ty: &Type) -> (r: bool) {
        if ty.0.ptr == 0 || ty.0.ptr >= ctx.types.len() {
            return false;
        }
        match &ctx.types[ty.0.ptr] {
            TypeData::Integer { .. } => true,
            _ => false,
        }
    }

    fn wrap(t: Type) -> (r: IntegerType) {
        IntegerType(t.0)
    }
}

impl IntegerType {
    /// Narrow a type to this kind: succeeds exactly when it is one, with the same handle.
    pub fn try_from(ctx: &Context, ty: Type) -> (r: Result<IntegerType, Error>)
        requires
            ctx.wf(),
        ensures
            r is Ok <==> IntegerType::spec_isa(ctx, ty.0),
            r matches Ok(k) ==> k.0 == ty.0,
            r matches Err(e) ==> crate::error::is_kind_mismatch(e, IntegerType::spec_kind_name(), crate::ty::type_rendering(ctx, ty.0)),
    {
        narrow_type::<IntegerType>(ctx, ty)
    }
}

/// The `index` type.
#[derive(Clone, Copy, Debug, PartialEq, Eq, Structural)]
pub struct IndexType(pub MlirType);

impl Ty for IndexType {
    open spec fn spec_type(&self) -> MlirType {
        self.0
    }

    fn as_type(&self) -> (r: Type) {
        Type(self.0)
    }
}

impl TyIsa for IndexType {
    open spec fn spec_isa(ctx: &Context, t: MlirType) -> bool {
        ctx.valid_type(t) && ctx.types@[t.ptr as int] is Index
    }

    open spec fn spec_kind_name() -> Seq<char> {
        "IndexType"@
    }

    fn kind_name() -> (r: &'static str) {
        "IndexType"
    }

    fn isa(ctx: &Context, ty: &Type) -> (r: bool) {
        if ty.0.ptr == 0 || ty.0.ptr >= ctx.types.len() {
            return false;
        }
        match &ctx.types[ty.0.ptr] {
            TypeData::Index { .. } => true,
            _ => false,
        }
    }

    fn wrap(t: Type) -> (r: IndexType) {
        IndexType(t.0)
    }
}

impl IndexType {
    /// Narrow a type to this kind: succeeds exactly when it is one, with the same handle.
    pub fn try_from(ctx: &Context, ty: Type) -> (r: Result<IndexType, Error>)
        requires
            ctx.wf(),
        ensures
            r is Ok <==> IndexType::spec_isa(ctx, ty.0),
            r matches Ok(k) ==> k.0 == ty.0,
            r matches Err(e) ==> crate::error::is_kind_mismatch(e, IndexType::spec_kind_name(), crate::ty::type_rendering(ctx, ty.0)),
    {
        narrow_type::<IndexType>(ctx, ty)
    }
}

/// A function type `(inputs) -> results`.
#[derive(Clone, Copy, Debug, PartialEq, Eq, Structural)]
pub struct FunctionType(pub MlirType);

impl Ty for FunctionType {
    open spec fn spec_type(&self) -> MlirType {
        self.0
    }

    fn as_type(&self) -> (r: Type) {
        Type(self.0)
    }
}

impl TyIsa for FunctionType {
    open spec fn spec_isa(ctx: &Context, t: MlirType) -> bool {
        ctx.valid_type(t) && ctx.types@[t.ptr as int] is Function
    }

    open spec fn spec_kind_name() -> Seq<char> {
        "FunctionType"@
    }

    fn kind_name() -> (r: &'static str) {
        "FunctionType"
    }

    fn isa(ctx: &Context, ty: &Type) -> (r: bool) {
        if ty.0.ptr == 0 || ty.0.ptr >= ctx.types.len() {
            return false;
        }
        match &ctx.types[ty.0.ptr] {
            TypeData::Function { .. } => true,
            _ => false,
        }
    }

    fn wrap(t: Type) -> (r: FunctionType) {
        FunctionType(t.0)
    }
}

impl FunctionType {
    /// Narrow a type to this kind: succeeds exactly when it is one, with the same handle.
    pub fn try_from(ctx: &Context, ty: Type) -> (r: Result<FunctionType, Error>)
        requires
            ctx.wf(),
        ensures
            r is Ok <==> FunctionType::spec_isa(ctx, ty.0),
            r matches Ok(k) ==> k.0 == ty.0,
            r matches Err(e) ==> crate::error::is_kind_mismatch(e, FunctionType::spec_kind_name(), crate::ty::type_rendering(ctx, ty.0)),
    {
        narrow_type::<FunctionType>(ctx, ty)
    }
}

/// The raw handles of a list of types.
pub open spec fn types_raw(ts: Seq<Type>) -> Seq<MlirType> {
    ts.map_values(|t: Type| t.0)
}

impl IntegerType {
    pub fn new(ctx: &mut Context, width: u32) -> (r: IntegerType)
        requires
            old(ctx).wf(),
        ensures
            type_added(final(ctx), old(ctx), r.0),
            final(ctx).types@[r.0.ptr as int] == (TypeData::Integer { width }),
            IntegerType::spec_isa(final(ctx), r.0),
            forall|j: int| 1 <= j < old(ctx).types@.len() && #[trigger] old(ctx).types@[j] == (TypeData::Integer { width })
                ==> r.0.ptr == j && final(ctx).types@ == old(ctx).types@,
    {
        IntegerType(intern_flat(ctx, FlatType::Integer(width)))
    }

    /// The bit width.
    pub fn width(&self, ctx: &Context) -> (r: u32)
        requires
            ctx.wf(),
            IntegerType::spec_isa(ctx, self.0),
        ensures
            ctx.types@[self.0.ptr as int] == (TypeData::Integer { width: r }),
    {
        match &ctx.types[self.0.ptr] {
            TypeData::Integer { width } => *width,
            _ => 0,
        }
    }
}

impl IndexType {
    pub fn new(ctx: &mut Context) -> (r: IndexType)
        requires
            old(ctx).wf(),
        ensures
            type_added(final(ctx), old(ctx), r.0),
            IndexType::spec_isa(final(ctx), r.0),
    {
        IndexType(intern_flat(ctx, FlatType::Index))
    }
}

impl FunctionType {
    /// A new function type from input and result types.
    pub fn new(ctx: &mut Context, inputs: &[Type], results: &[Type]) -> (r: FunctionType)
        requires
            old(ctx).wf(),
            forall|k: int| 0 <= k < inputs@.len() ==> old(ctx).valid_type(#[trigger] inputs@[k].0),
            forall|k: int| 0 <= k < results@.len() ==> old(ctx).valid_type(#[trigger] results@[k].0),
        ensures
            type_added(final(ctx), old(ctx), r.0),
            final(ctx).types@[r.0.ptr as int] matches TypeData::Function { inputs: i, results: o }
                && i@ == types_raw(inputs@) && o@ == types_raw(results@),
            FunctionType::spec_isa(final(ctx), r.0),
    {
        let i = raw_types(inputs);
        let o = raw_types(results);
        FunctionType(push_type(ctx, TypeData::Function { inputs: i, results: o }))
    }

    /// A function type from raw input and result handles; `None` when one is not live.
    pub fn new_from_raw(ctx: &mut Context, inputs: &[MlirType], results: &[MlirType]) -> (r: Option<FunctionType>)
        requires
            old(ctx).wf(),
        ensures
            r is Some <==> (forall|k: int| 0 <= k < inputs@.len() ==> old(ctx).valid_type(#[trigger] inputs@[k]))
                && (forall|k: int| 0 <= k < results@.len() ==> old(ctx).valid_type(#[trigger] results@[k])),
            r matches Some(f) ==> type_added(final(ctx), old(ctx), f.0) && f.spec_inputs(final(ctx)) == inputs@
                && f.spec_results(final(ctx)) == results@,
            r is None ==> *final(ctx) == *old(ctx),
    {
        if !raw_types_valid(ctx, inputs) || !raw_types_valid(ctx, results) {
            return None;
        }
        let ins = wrap_types_slice(inputs);
        let outs = wrap_types_slice(results);
        proof {
            assert forall|j: int| 0 <= j < ins@.len() implies ctx.valid_type(#[trigger] ins@[j].0) by {
                assert(types_raw(ins@)[j] == ins@[j].0);
            }
            assert forall|j: int| 0 <= j < outs@.len() implies ctx.valid_type(#[trigger] outs@[j].0) by {
                assert(types_raw(outs@)[j] == outs@[j].0);
            }
        }
        Some(FunctionType::new(ctx, ins.as_slice(), outs.as_slice()))
    }

    /// Input type `pos`, if there is one.
    pub fn input(&self, ctx: &Context, pos: usize) -> (r: Option<Type>)
        requires
            FunctionType::spec_isa(ctx, self.0),
        ensures
            r is Some <==> pos < self.spec_inputs(ctx).len(),
            r matches Some(t) ==> t.0 == self.spec_inputs(ctx)[pos as int],
    {
        match &ctx.types[self.0.ptr] {
            TypeData::Function { inputs, results } => if pos < inputs.len() {
                Some(Type(inputs[pos]))
            } else {
                None
            },
            _ => None,
        }
    }

    /// Result type `pos`, if there is one.
    pub fn result(&self, ctx: &Context, pos: usize) -> (r: Option<Type>)
        requires
            FunctionType::spec_isa(ctx, self.0),
        ensures
            r is Some <==> pos < self.spec_results(ctx).len(),
            r matches Some(t) ==> t.0 == self.spec_results(ctx)[pos as int],
    {
        match &ctx.types[self.0.ptr] {
            TypeData::Function { inputs, results } => if pos < results.len() {
                Some(Type(results[pos]))
            } else {
                None
            },
            _ => None,
        }
    }

    pub open spec fn spec_inputs(&self, ctx: &Context) -> Seq<MlirType> {
        match ctx.types@[self.0.ptr as int] {
            TypeData::Function { inputs, results } => inputs@,
            _ => Seq::empty(),
        }
    }

    pub open spec fn spec_results(&self, ctx: &Context) -> Seq<MlirType> {
        match ctx.types@[self.0.ptr as int] {
            TypeData::Function { inputs, results } => results@,
            _ => Seq::empty(),
        }
    }

    pub fn num_inputs(&self, ctx: &Context) -> (r: usize)
        requires
            ctx.wf(),
            FunctionType::spec_isa(ctx, self.0),
        ensures
            r == self.spec_inputs(ctx).len(),
    {
        match &ctx.types[self.0.ptr] {
            TypeData::Function { inputs, results } => inputs.len(),
            _ => 0,
        }
    }

    pub fn num_results(&self, ctx: &Context) -> (r: usize)
        requires
            ctx.wf(),
            FunctionType::spec_isa(ctx, self.0),
        ensures
            r == self.spec_results(ctx).len(),
    {
        match &ctx.types[self.0.ptr] {
            TypeData::Function { inputs, results } => results.len(),
            _ => 0,
        }
    }

    /// The input types, in order.
    pub fn inputs(&self, ctx: &Context) -> (r: Vec<Type>)
        requires
            ctx.wf(),
            FunctionType::spec_isa(ctx, self.0),
        ensures
            types_raw(r@) == self.spec_inputs(ctx),
    {
        match &ctx.types[self.0.ptr] {
            TypeData::Function { inputs, results } => wrap_types(inputs),
            _ => Vec::new(),
        }
    }

    /// The result types, in order.
    pub fn results(&self, ctx: &Context) -> (r: Vec<Type>)
        requires
            ctx.wf(),
            FunctionType::spec_isa(ctx, self.0),
        ensures
            types_raw(r@) == self.spec_results(ctx),
    {
        match &ctx.types[self.0.ptr] {
            TypeData::Function { inputs, results } => wrap_types(results),
            _ => Vec::new(),
        }
    }
}

/// Whether every raw handle names a type of the store.
fn raw_types_valid(ctx: &Context, l: &[MlirType]) -> (r: bool)
    ensures
        r == forall|k: int| 0 <= k < l@.len() ==> ctx.valid_type(#[trigger] l@[k]),
{
    let mut k: usize = 0;
    while k < l.len()
        invariant
            k <= l@.len(),
            forall|j: int| 0 <= j < k ==> ctx.valid_type(#[trigger] l@[j]),
        decreases l@.len() - k,
    {
        if l[k].ptr == 0 || l[k].ptr >= ctx.types.len() {
            return false;
        }
        k = k + 1;
    }
    true
}

fn wrap_types_slice(l: &[MlirType]) -> (r: Vec<Type>)
    ensures
        types_raw(r@) == l@,
{
    let mut r: Vec<Type> = Vec::new();
    let mut k: usize = 0;
    while k < l.len()
        invariant
            k <= l@.len(),
            r@.len() == k,
            forall|j: int| 0 <= j < k ==> (#[trigger] r@[j]).0 == l@[j],
        decreases l@.len() - k,
    {
        r.push(Type(l[k]));
        k = k + 1;
    }
    assert(types_raw(r@) =~= l@);
    r
}

/// Wrap each raw type handle.
pub fn wrap_types(l: &Vec<MlirType>) -> (r: Vec<Type>)
    ensures
        types_raw(r@) == l@,
{
    let mut r: Vec<Type> = Vec::new();
    let mut k: usize = 0;
    while k < l.len()
        invariant
            k <= l@.len(),
            r@.len() == k,
            forall|j: int| 0 <= j < k ==> (#[trigger] r@[j]).0 == l@[j],
        decreases l@.len() - k,
    {
        r.push(Type(l[k]));
        k = k + 1;
    }
    assert(types_raw(r@) =~= l@);
    r
}

/// The raw handles of a list of types.
pub fn raw_types(l: &[Type]) -> (r: Vec<MlirType>)
    ensures
        r@ == types_raw(l@),
{
    let mut r: Vec<MlirType> = Vec::new();
    let mut k: usize = 0;
    while k < l.len()
        invariant
            k <= l@.len(),
            r@.len() == k,
            forall|j: int| 0 <= j < k ==> #[trigger] r@[j] == l@[j].0,
        decreases l@.len() - k,
    {
        r.push(l[k].0);
        k = k + 1;
    }
    assert(r@ =~= types_raw(l@));
    r
}

/// Narrowing undoes widening: an instance of kind `K` widens to a type handle on which
/// `K`'s predicate holds, so narrowing it to `K` succeeds and yields the same handle.
pub proof fn lemma_narrow_round_trip<K: TyIsa>(ctx: &Context, k: K)
    requires
        K::spec_isa(ctx, k.spec_type()),
    ensures
        K::spec_isa(ctx, Type(k.spec_type()).0),
        Type(k.spec_type()).0 == k.spec_type(),
{
}

/// Narrowing rejects other kinds: when no handle satisfies both `K1` and `K2`, an
/// instance of `K1`, widened, is not of kind `K2`, so narrowing it to `K2` fails.
pub proof fn lemma_narrow_rejects<K1: TyIsa, K2: TyIsa>(ctx: &Context, k1: K1)
    requires
        K1::spec_isa(ctx, k1.spec_type()),
        forall|u: MlirType| !(#[trigger] K1::spec_isa(ctx, u) && K2::spec_isa(ctx, u)),
    ensures
        !K2::spec_isa(ctx, k1.spec_type()),
{
}

// ---- textual form ----

pub open spec fn chars_index() -> Seq<char> {
    seq!['i', 'n', 'd', 'e', 'x']
}

pub open spec fn chars_arrow() -> Seq<char> {
    seq![' ', '-', '>', ' ']
}

pub open spec fn chars_comma() -> Seq<char> {
    seq![',', ' ']
}

pub open spec fn chars_array() -> Seq<char> {
    seq!['!', 'h', 'w', '.', 'a', 'r', 'r', 'a', 'y', '<']
}

pub open spec fn chars_inout() -> Seq<char> {
    seq!['!', 'h', 'w', '.', 'i', 'n', 'o', 'u', 't', '<']
}

pub open spec fn chars_alias() -> Seq<char> {
    seq!['!', 'h', 'w', '.', 't', 'y', 'p', 'e', 'a', 'l', 'i', 'a', 's', '<', '@']
}

pub open spec fn chars_struct() -> Seq<char> {
    seq!['!', 'h', 'w', '.', 's', 't', 'r', 'u', 'c', 't', '<']
}

/// The text of type `i` of the table.
pub open spec fn type_text(types: Seq<TypeData>, i: int) -> Seq<char>
    decreases i, 1int, 0int,
{
    if i <= 0 || i >= types.len() {
        seq!['?']
    } else {
        match types[i] {
            TypeData::Integer { width } => seq!['i'] + decimal(width as nat),
            TypeData::Index => chars_index(),
            TypeData::Function { inputs, results } => seq!['('] + list_text(types, inputs@, i)
                + seq![')'] + chars_arrow() + results_text(types, results@, i),
            TypeData::Array { element, size } => chars_array() + decimal(size as nat) + seq!['x']
                + if 0 < element.ptr < i {
                type_text(types, element.ptr as int)
            } else {
                seq!['?']
            } + seq!['>'],
            TypeData::InOut { element } => chars_inout() + if 0 < element.ptr < i {
                type_text(types, element.ptr as int)
            } else {
                seq!['?']
            } + seq!['>'],
            TypeData::Struct { fields } => chars_struct() + fields_text(types, fields@, i) + seq![
                '>',
            ],
            TypeData::Alias { scope, name, inner } => chars_alias() + scope@ + seq![':', ':', '@'] + name@
                + chars_comma() + if 0 < inner.ptr < i {
                type_text(types, inner.ptr as int)
            } else {
                seq!['?']
            } + seq!['>'],
            TypeData::Placeholder => seq!['?'],
        }
    }
}

/// The texts of a list of types below `bound`, separated by `, `.
pub open spec fn list_text(types: Seq<TypeData>, l: Seq<MlirType>, bound: int) -> Seq<char>
    decreases bound, 0int, l.len(),
{
    if l.len() == 0 {
        Seq::empty()
    } else {
        let t = l.last();
        let piece = if 0 < t.ptr < bound {
            type_text(types, t.ptr as int)
        } else {
            seq!['?']
        };
        if l.len() == 1 {
            piece
        } else {
            list_text(types, l.drop_last(), bound) + chars_comma() + piece
        }
    }
}

/// Function results: one result bare, otherwise in parentheses.
pub open spec fn results_text(types: Seq<TypeData>, l: Seq<MlirType>, bound: int) -> Seq<char>
    decreases bound, 0int, l.len() + 1,
{
    if l.len() == 1 {
        list_text(types, l, bound)
    } else {
        seq!['('] + list_text(types, l, bound) + seq![')']
    }
}

/// Struct fields: `name: type`, separated by `, `.
pub open spec fn fields_text(types: Seq<TypeData>, l: Seq<StructField>, bound: int) -> Seq<char>
    decreases bound, 0int, l.len(),
{
    if l.len() == 0 {
        Seq::empty()
    } else {
        let f = l.last();
        let piece = f.name@ + seq![':', ' '] + if 0 < f.ty.ptr < bound {
            type_text(types, f.ty.ptr as int)
        } else {
            seq!['?']
        };
        if l.len() == 1 {
            piece
        } else {
            fields_text(types, l.drop_last(), bound) + chars_comma() + piece
        }
    }
}

impl Type {
    pub open spec fn spec_text(&self, ctx: &Context) -> Seq<char> {
        type_text(ctx.types@, self.0.ptr as int)
    }

    /// The textual form of the type, such as `i8`, `index` or `(i1, i2) -> i3`.
    pub fn to_string(&self, ctx: &Context) -> (r: String)
        requires
            ctx.wf(),
            ctx.valid_type(self.0),
        ensures
            r@ == self.spec_text(ctx),
    {
        let mut out = String::new();
        append_type(ctx, self.0, &mut out);
        assert(out@ =~= self.spec_text(ctx));
        out
    }

    /// Two handles of one store name the same type.
    pub fn equal_to(&self, other: &Type) -> (r: bool)
        ensures
            r == (self.0 == other.0),
    {
        self.0.ptr == other.0.ptr
    }
}

/// Append the text of type `t`.
pub fn append_type(ctx: &Context, t: MlirType, out: &mut String)
    requires
        ctx.wf(),
        ctx.valid_type(t),
    ensures
        final(out)@ == old(out)@ + type_text(ctx.types@, t.ptr as int),
    decreases t.ptr, 1int, 0int,
{
    proof {
        reveal_strlit("index");
        reveal_strlit(" -> ");
        reveal_strlit("!hw.array<");
        reveal_strlit("!hw.inout<");
        reveal_strlit("!hw.struct<");
        reveal_strlit("i");
        reveal_strlit("(");
        reveal_strlit(")");
        reveal_strlit("x");
        reveal_strlit(">");
    }
    let ghost o = out@;
    let ghost i = t.ptr as int;
    assert(type_data_ok(ctx.types@[i], i));
    match &ctx.types[t.ptr] {
        TypeData::Integer { width } => {
            out.append("i");
            append_decimal(out, *width as u64);
            assert(out@ =~= o + type_text(ctx.types@, i));
        },
        TypeData::Index => {
            out.append("index");
            assert(out@ =~= o + type_text(ctx.types@, i));
        },
        TypeData::Function { inputs, results } => {
            out.append("(");
            append_type_list(ctx, inputs, t.ptr, out);
            out.append(")");
            out.append(" -> ");
            let ghost mid = out@;
            assert(mid =~= o + seq!['('] + list_text(ctx.types@, inputs@, i) + seq![')'] + chars_arrow());
            if results.len() == 1 {
                append_type_list(ctx, results, t.ptr, out);
            } else {
                out.append("(");
                append_type_list(ctx, results, t.ptr, out);
                out.append(")");
            }
            assert(out@ =~= mid + results_text(ctx.types@, results@, i));
            assert(out@ =~= o + type_text(ctx.types@, i));
        },
        TypeData::Array { element, size } => {
            out.append("!hw.array<");
            append_decimal(out, *size as u64);
            out.append("x");
            append_type(ctx, *element, out);
            out.append(">");
            assert(out@ =~= o + type_text(ctx.types@, i));
        },
        TypeData::InOut { element } => {
            out.append("!hw.inout<");
            append_type(ctx, *element, out);
            out.append(">");
            assert(out@ =~= o + type_text(ctx.types@, i));
        },
        TypeData::Struct { fields } => {
            out.append("!hw.struct<");
            append_fields(ctx, fields, t.ptr, out);
            out.append(">");
            assert(out@ =~= o + type_text(ctx.types@, i));
        },
        TypeData::Alias { scope, name, inner } => {
            proof {
                reveal_strlit("!hw.typealias<@");
                reveal_strlit("::@");
                reveal_strlit(", ");
            }
            out.append("!hw.typealias<@");
            out.append(scope.as_str());
            out.append("::@");
            out.append(name.as_str());
            out.append(", ");
            append_type(ctx, *inner, out);
            out.append(">");
            assert(out@ =~= o + type_text(ctx.types@, i));
        },
        TypeData::Placeholder => {
            out.append("?");
            proof {
                reveal_strlit("?");
            }
            assert(out@ =~= o + type_text(ctx.types@, i));
        },
    }
}

/// Append the texts of types below `bound`, separated by `, `.
pub fn append_type_list(ctx: &Context, l: &Vec<MlirType>, bound: usize, out: &mut String)
    requires
        ctx.wf(),
        bound <= ctx.types@.len(),
        forall|k: int| 0 <= k < l@.len() ==> 1 <= #[trigger] l@[k].ptr < bound,
    ensures
        final(out)@ == old(out)@ + list_text(ctx.types@, l@, bound as int),
    decreases bound, 0int, 0int,
{
    proof {
        reveal_strlit(", ");
    }
    let ghost o = out@;
    let mut k: usize = 0;
    assert(l@.take(0) =~= Seq::<MlirType>::empty());
    while k < l.len()
        invariant
            k <= l@.len(),
            ctx.wf(),
            bound <= ctx.types@.len(),
            forall|j: int| 0 <= j < l@.len() ==> 1 <= #[trigger] l@[j].ptr < bound,
            out@ == o + list_text(ctx.types@, l@.take(k as int), bound as int),
            ", "@ == chars_comma(),
        decreases l@.len() - k,
    {
        let ghost before = out@;
        assert(l@.take(k + 1).drop_last() =~= l@.take(k as int));
        assert(l@.take(k + 1).last() == l@[k as int]);
        if k > 0 {
            out.append(", ");
        }
        let t = l[k];
        assert(1 <= t.ptr < bound);
        append_type(ctx, t, out);
        assert(out@ =~= o + list_text(ctx.types@, l@.take(k + 1), bound as int));
        k = k + 1;
    }
    assert(l@.take(l@.len() as int) =~= l@);
}

/// Append the struct fields `name: type`, separated by `, `.
pub fn append_fields(ctx: &Context, l: &Vec<StructField>, bound: usize, out: &mut String)
    requires
        ctx.wf(),
        bound < ctx.types@.len(),
        forall|k: int| 0 <= k < l@.len() ==> 1 <= #[trigger] l@[k].ty.ptr < bound,
    ensures
        final(out)@ == old(out)@ + fields_text(ctx.types@, l@, bound as int),
    decreases bound, 0int, 0int,
{
    proof {
        reveal_strlit(", ");
        reveal_strlit(": ");
    }
    let ghost o = out@;
    let mut k: usize = 0;
    assert(l@.take(0) =~= Seq::<StructField>::empty());
    while k < l.len()
        invariant
            k <= l@.len(),
            ctx.wf(),
            bound < ctx.types@.len(),
            forall|j: int| 0 <= j < l@.len() ==> 1 <= #[trigger] l@[j].ty.ptr < bound,
            out@ == o + fields_text(ctx.types@, l@.take(k as int), bound as int),
            ", "@ == chars_comma(),
            ": "@ == seq![':', ' '],
        decreases l@.len() - k,
    {
        assert(l@.take(k + 1).drop_last() =~= l@.take(k as int));
        assert(l@.take(k + 1).last() == l@[k as int]);
        if k > 0 {
            out.append(", ");
        }
        let f = &l[k];
        out.append(f.name.as_str());
        out.append(": ");
        assert(1 <= f.ty.ptr < bound);
        append_type(ctx, f.ty, out);
        assert(out@ =~= o + fields_text(ctx.types@, l@.take(k + 1), bound as int));
        k = k + 1;
    }
    assert(l@.take(l@.len() as int) =~= l@);
}

} // verus!

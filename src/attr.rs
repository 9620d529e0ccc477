//! Attributes: the generic `Attribute` handle, its kinds, and named attributes.
use vstd::prelude::*;
use crate::context::{AttrData, Context, MlirNamedAttribute};
use crate::error::Error;
use crate::ty::Type;
use crate::wrap_raw::{HasRaw, MlirAttribute, MlirType, WrapRaw, WrapRawPtr};

verus! {

/// An attribute of any kind.
#[derive(Clone, Copy, Debug, PartialEq, Eq, Structural)]
pub struct Attribute(pub MlirAttribute);

impl HasRaw for Attribute {
    type RawType = MlirAttribute;

    open spec fn spec_raw(&self) -> MlirAttribute {
        self.0
    }

    fn raw(&self) -> (r: MlirAttribute) {
        self.0
    }

    fn take_raw(self) -> (r: MlirAttribute) {
        self.0
    }
}

impl WrapRawPtr for Attribute {
    open spec fn spec_is_null(raw: MlirAttribute) -> bool {
        raw.ptr == 0
    }

    fn try_from_raw(raw: MlirAttribute) -> (r: Option<Attribute>) {
        if raw.ptr == 0 {
            None
        } else {
            Some(Attribute(raw))
        }
    }

    fn from_raw(raw: MlirAttribute) -> (r: Attribute) {
        Attribute(raw)
    }
}

/// Anything that is an attribute: it widens to `Attribute` without a check.
pub trait Attr: Sized {
    spec fn spec_attr(&self) -> MlirAttribute;

    fn as_attribute(&self) -> (r: Attribute)
        ensures
            r.0 == self.spec_attr(),
    ;
}

/// A kind of attribute, recognised at run time by a predicate on the store.
pub trait AttrIsa: Attr {
    spec fn spec_isa(ctx: &Context, a: MlirAttribute) -> bool;

    spec fn spec_kind_name() -> Seq<char>;

    /// The kind's name, for error messages.
    fn kind_name() -> (r: &'static str)
        ensures
            r@ == Self::spec_kind_name(),
    ;

    fn isa(ctx: &Context, attr: &Attribute) -> (r: bool)
        ensures
            r == Self::spec_isa(ctx, attr.0),
    ;

    /// Re-wrap a handle as this kind, without a check.
    fn wrap(a: Attribute) -> (r: Self)
        ensures
            r.spec_attr() == a.0,
    ;
}

impl Attr for Attribute {
    open spec fn spec_attr(&self) -> MlirAttribute {
        self.0
    }

    fn as_attribute(&self) -> (r: Attribute) {
        *self
    }
}

impl AttrIsa for Attribute {
    open spec fn spec_isa(ctx: &Context, a: MlirAttribute) -> bool {
        true
    }

    open spec fn spec_kind_name() -> Seq<char> {
        "Attribute"@
    }

    fn kind_name() -> (r: &'static str) {
        "Attribute"
    }

    fn isa(ctx: &Context, attr: &Attribute) -> (r: bool) {
        true
    }

    fn wrap(a: Attribute) -> (r: Attribute) {
        a
    }
}

/// Narrow an attribute to kind `K`: succeeds exactly when the handle is of that kind,
/// and then keeps the same handle.
pub fn narrow_attr<K: AttrIsa>(ctx: &Context, attr: Attribute) -> (r: Result<K, Error>)
    ensures
        r is Ok <==> K::spec_isa(ctx, attr.0),
        r matches Ok(k) ==> k.spec_attr() == attr.0,
        r matches Err(e) ==> crate::error::is_kind_mismatch(e, K::spec_kind_name(), "Attribute"@),
{
    if K::isa(ctx, &attr) {
        Ok(K::wrap(attr))
    } else {
        Err(
            Error::KindMismatch {
                expected: String::from_str(K::kind_name()),
                actual: String::from_str("Attribute"),
            },
        )
    }
}

/// Attribute `a` is a string attribute holding `s`.
pub open spec fn string_attr_holds(ctx: &Context, a: MlirAttribute, s: Seq<char>) -> bool {
    match ctx.attrs@[a.ptr as int] {
        AttrData::String { value } => value@ == s,
        _ => false,
    }
}

/// What an attribute-creating call may change: only the attribute table grows, by one.
pub open spec fn attr_added(new: &Context, old: &Context, r: MlirAttribute, d: AttrData) -> bool {
    &&& new.wf()
    &&& new.extends(old)
    &&& new.types@ == old.types@
    &&& new.locations@ == old.locations@
    &&& new.attrs@ == old.attrs@.push(d)
    &&& r.ptr == old.attrs@.len()
    &&& new.same_structure(old)
    &&& new.same_values(old)
    &&& new.same_passes(old)
}

pub(crate) fn push_attr(ctx: &mut Context, d: AttrData) -> (r: MlirAttribute)
    requires
        old(ctx).wf(),
    ensures
        attr_added(final(ctx), old(ctx), r, d),
{
    let n = ctx.attrs.len();
    ctx.attrs.push(d);
    MlirAttribute { ptr: n }
}

/// An integer attribute: a value of an integer type.
#[derive(Clone, Copy, Debug, PartialEq, Eq, Structural)]
pub struct IntegerAttr(pub MlirAttribute);

impl Attr for IntegerAttr {
    open spec fn spec_attr(&self) -> MlirAttribute {
        self.0
    }

    fn as_attribute(&self) -> (r: Attribute) {
        Attribute(self.0)
    }
}

impl AttrIsa for IntegerAttr {
    open spec fn spec_isa(ctx: &Context, a: MlirAttribute) -> bool {
        ctx.valid_attr(a) && ctx.attrs@[a.ptr as int] is Integer
    }

    open spec fn spec_kind_name() -> Seq<char> {
        "IntegerAttr"@
    }

    fn kind_name() -> (r: &'static str) {
        "IntegerAttr"
    }

    fn isa(ctx: &Context, attr: &Attribute) -> (r: bool) {
        if attr.0.ptr == 0 || attr.0.ptr >= ctx.attrs.len() {
            return false;
        }
        match &ctx.attrs[attr.0.ptr] {
            AttrData::Integer { .. } => true,
            _ => false,
        }
    }

    fn wrap(a: Attribute) -> (r: IntegerAttr) {
        IntegerAttr(a.0)
    }
}

impl IntegerAttr {
    /// Narrow an attribute to this kind: succeeds exactly when it is one, with the same
    /// handle.
    pub fn try_from(ctx: &Context, attr: Attribute) -> (r: Result<IntegerAttr, Error>)
        ensures
            r is Ok <==> IntegerAttr::spec_isa(ctx, attr.0),
            r matches Ok(k) ==> k.0 == attr.0,
            r matches Err(e) ==> crate::error::is_kind_mismatch(e, IntegerAttr::spec_kind_name(), "Attribute"@),
    {
        narrow_attr::<IntegerAttr>(ctx, attr)
    }
}

/// A string attribute.
#[derive(Clone, Copy, Debug, PartialEq, Eq, Structural)]
pub struct StringAttr(pub MlirAttribute);

impl Attr for StringAttr {
    open spec fn spec_attr(&self) -> MlirAttribute {
        self.0
    }

    fn as_attribute(&self) -> (r: Attribute) {
        Attribute(self.0)
    }
}

impl AttrIsa for StringAttr {
    open spec fn spec_isa(ctx: &Context, a: MlirAttribute) -> bool {
        ctx.valid_attr(a) && ctx.attrs@[a.ptr as int] is String
    }

    open spec fn spec_kind_name() -> Seq<char> {
        "StringAttr"@
    }

    fn kind_name() -> (r: &'static str) {
        "StringAttr"
    }

    fn isa(ctx: &Context, attr: &Attribute) -> (r: bool) {
        if attr.0.ptr == 0 || attr.0.ptr >= ctx.attrs.len() {
            return false;
        }
        match &ctx.attrs[attr.0.ptr] {
            AttrData::String { .. } => true,
            _ => false,
        }
    }

    fn wrap(a: Attribute) -> (r: StringAttr) {
        StringAttr(a.0)
    }
}

impl StringAttr {
    /// Narrow an attribute to this kind: succeeds exactly when it is one, with the same
    /// handle.
    pub fn try_from(ctx: &Context, attr: Attribute) -> (r: Result<StringAttr, Error>)
        ensures
            r is Ok <==> StringAttr::spec_isa(ctx, attr.0),
            r matches Ok(k) ==> k.0 == attr.0,
            r matches Err(e) ==> crate::error::is_kind_mismatch(e, StringAttr::spec_kind_name(), "Attribute"@),
    {
        narrow_attr::<StringAttr>(ctx, attr)
    }
}

/// An attribute that holds a type.
#[derive(Clone, Copy, Debug, PartialEq, Eq, Structural)]
pub struct TypeAttr(pub MlirAttribute);

impl Attr for TypeAttr {
    open spec fn spec_attr(&self) -> MlirAttribute {
        self.0
    }

    fn as_attribute(&self) -> (r: Attribute) {
        Attribute(self.0)
    }
}

impl AttrIsa for TypeAttr {
    open spec fn spec_isa(ctx: &Context, a: MlirAttribute) -> bool {
        ctx.valid_attr(a) && ctx.attrs@[a.ptr as int] is Type
    }

    open spec fn spec_kind_name() -> Seq<char> {
        "TypeAttr"@
    }

    fn kind_name() -> (r: &'static str) {
        "TypeAttr"
    }

    fn isa(ctx: &Context, attr: &Attribute) -> (r: bool) {
        if attr.0.ptr == 0 || attr.0.ptr >= ctx.attrs.len() {
            return false;
        }
        match &ctx.attrs[attr.0.ptr] {
            AttrData::Type { .. } => true,
            _ => false,
        }
    }

    fn wrap(a: Attribute) -> (r: TypeAttr) {
        TypeAttr(a.0)
    }
}

impl TypeAttr {
    /// Narrow an attribute to this kind: succeeds exactly when it is one, with the same
    /// handle.
    pub fn try_from(ctx: &Context, attr: Attribute) -> (r: Result<TypeAttr, Error>)
        ensures
            r is Ok <==> TypeAttr::spec_isa(ctx, attr.0),
            r matches Ok(k) ==> k.0 == attr.0,
            r matches Err(e) ==> crate::error::is_kind_mismatch(e, TypeAttr::spec_kind_name(), "Attribute"@),
    {
        narrow_attr::<TypeAttr>(ctx, attr)
    }
}

/// An array of attributes.
#[derive(Clone, Copy, Debug, PartialEq, Eq, Structural)]
pub struct ArrayAttr(pub MlirAttribute);

impl Attr for ArrayAttr {
    open spec fn spec_attr(&self) -> MlirAttribute {
        self.0
    }

    fn as_attribute(&self) -> (r: Attribute) {
        Attribute(self.0)
    }
}

impl AttrIsa for ArrayAttr {
    open spec fn spec_isa(ctx: &Context, a: MlirAttribute) -> bool {
        ctx.valid_attr(a) && ctx.attrs@[a.ptr as int] is Array
    }

    open spec fn spec_kind_name() -> Seq<char> {
        "ArrayAttr"@
    }

    fn kind_name() -> (r: &'static str) {
        "ArrayAttr"
    }

    fn isa(ctx: &Context, attr: &Attribute) -> (r: bool) {
        if attr.0.ptr == 0 || attr.0.ptr >= ctx.attrs.len() {
            return false;
        }
        match &ctx.attrs[attr.0.ptr] {
            AttrData::Array { .. } => true,
            _ => false,
        }
    }

    fn wrap(a: Attribute) -> (r: ArrayAttr) {
        ArrayAttr(a.0)
    }
}

impl ArrayAttr {
    /// Narrow an attribute to this kind: succeeds exactly when it is one, with the same
    /// handle.
    pub fn try_from(ctx: &Context, attr: Attribute) -> (r: Result<ArrayAttr, Error>)
        ensures
            r is Ok <==> ArrayAttr::spec_isa(ctx, attr.0),
            r matches Ok(k) ==> k.0 == attr.0,
            r matches Err(e) ==> crate::error::is_kind_mismatch(e, ArrayAttr::spec_kind_name(), "Attribute"@),
    {
        narrow_attr::<ArrayAttr>(ctx, attr)
    }
}

/// The unit attribute: present or absent, with no value.
#[derive(Clone, Copy, Debug, PartialEq, Eq, Structural)]
pub struct UnitAttr(pub MlirAttribute);

impl Attr for UnitAttr {
    open spec fn spec_attr(&self) -> MlirAttribute {
        self.0
    }

    fn as_attribute(&self) -> (r: Attribute) {
        Attribute(self.0)
    }
}

impl AttrIsa for UnitAttr {
    open spec fn spec_isa(ctx: &Context, a: MlirAttribute) -> bool {
        ctx.valid_attr(a) && ctx.attrs@[a.ptr as int] is Unit
    }

    open spec fn spec_kind_name() -> Seq<char> {
        "UnitAttr"@
    }

    fn kind_name() -> (r: &'static str) {
        "UnitAttr"
    }

    fn isa(ctx: &Context, attr: &Attribute) -> (r: bool) {
        if attr.0.ptr == 0 || attr.0.ptr >= ctx.attrs.len() {
            return false;
        }
        match &ctx.attrs[attr.0.ptr] {
            AttrData::Unit { .. } => true,
            _ => false,
        }
    }

    fn wrap(a: Attribute) -> (r: UnitAttr) {
        UnitAttr(a.0)
    }
}

impl UnitAttr {
    /// Narrow an attribute to this kind: succeeds exactly when it is one, with the same
    /// handle.
    pub fn try_from(ctx: &Context, attr: Attribute) -> (r: Result<UnitAttr, Error>)
        ensures
            r is Ok <==> UnitAttr::spec_isa(ctx, attr.0),
            r matches Ok(k) ==> k.0 == attr.0,
            r matches Err(e) ==> crate::error::is_kind_mismatch(e, UnitAttr::spec_kind_name(), "Attribute"@),
    {
        narrow_attr::<UnitAttr>(ctx, attr)
    }
}

/// A flat reference to a symbol by name.
#[derive(Clone, Copy, Debug, PartialEq, Eq, Structural)]
pub struct SymbolRefAttr(pub MlirAttribute);

impl Attr for SymbolRefAttr {
    open spec fn spec_attr(&self) -> MlirAttribute {
        self.0
    }

    fn as_attribute(&self) -> (r: Attribute) {
        Attribute(self.0)
    }
}

impl AttrIsa for SymbolRefAttr {
    open spec fn spec_isa(ctx: &Context, a: MlirAttribute) -> bool {
        ctx.valid_attr(a) && ctx.attrs@[a.ptr as int] is SymbolRef
    }

    open spec fn spec_kind_name() -> Seq<char> {
        "SymbolRefAttr"@
    }

    fn kind_name() -> (r: &'static str) {
        "SymbolRefAttr"
    }

    fn isa(ctx: &Context, attr: &Attribute) -> (r: bool) {
        if attr.0.ptr == 0 || attr.0.ptr >= ctx.attrs.len() {
            return false;
        }
        match &ctx.attrs[attr.0.ptr] {
            AttrData::SymbolRef { .. } => true,
            _ => false,
        }
    }

    fn wrap(a: Attribute) -> (r: SymbolRefAttr) {
        SymbolRefAttr(a.0)
    }
}

impl SymbolRefAttr {
    /// Narrow an attribute to this kind: succeeds exactly when it is one, with the same
    /// handle.
    pub fn try_from(ctx: &Context, attr: Attribute) -> (r: Result<SymbolRefAttr, Error>)
        ensures
            r is Ok <==> SymbolRefAttr::spec_isa(ctx, attr.0),
            r matches Ok(k) ==> k.0 == attr.0,
            r matches Err(e) ==> crate::error::is_kind_mismatch(e, SymbolRefAttr::spec_kind_name(), "Attribute"@),
    {
        narrow_attr::<SymbolRefAttr>(ctx, attr)
    }
}

/// A module parameter declaration: name, type and value.
#[derive(Clone, Copy, Debug, PartialEq, Eq, Structural)]
pub struct ParamDeclAttr(pub MlirAttribute);

impl Attr for ParamDeclAttr {
    open spec fn spec_attr(&self) -> MlirAttribute {
        self.0
    }

    fn as_attribute(&self) -> (r: Attribute) {
        Attribute(self.0)
    }
}

impl AttrIsa for ParamDeclAttr {
    open spec fn spec_isa(ctx: &Context, a: MlirAttribute) -> bool {
        ctx.valid_attr(a) && ctx.attrs@[a.ptr as int] is ParamDecl
    }

    open spec fn spec_kind_name() -> Seq<char> {
        "ParamDeclAttr"@
    }

    fn kind_name() -> (r: &'static str) {
        "ParamDeclAttr"
    }

    fn isa(ctx: &Context, attr: &Attribute) -> (r: bool) {
        if attr.0.ptr == 0 || attr.0.ptr >= ctx.attrs.len() {
            return false;
        }
        match &ctx.attrs[attr.0.ptr] {
            AttrData::ParamDecl { .. } => true,
            _ => false,
        }
    }

    fn wrap(a: Attribute) -> (r: ParamDeclAttr) {
        ParamDeclAttr(a.0)
    }
}

impl ParamDeclAttr {
    /// Narrow an attribute to this kind: succeeds exactly when it is one, with the same
    /// handle.
    pub fn try_from(ctx: &Context, attr: Attribute) -> (r: Result<ParamDeclAttr, Error>)
        ensures
            r is Ok <==> ParamDeclAttr::spec_isa(ctx, attr.0),
            r matches Ok(k) ==> k.0 == attr.0,
            r matches Err(e) ==> crate::error::is_kind_mismatch(e, ParamDeclAttr::spec_kind_name(), "Attribute"@),
    {
        narrow_attr::<ParamDeclAttr>(ctx, attr)
    }
}

/// A dictionary of named attributes.
#[derive(Clone, Copy, Debug, PartialEq, Eq, Structural)]
pub struct DictionaryAttr(pub MlirAttribute);

impl Attr for DictionaryAttr {
    open spec fn spec_attr(&self) -> MlirAttribute {
        self.0
    }

    fn as_attribute(&self) -> (r: Attribute) {
        Attribute(self.0)
    }
}

impl AttrIsa for DictionaryAttr {
    open spec fn spec_isa(ctx: &Context, a: MlirAttribute) -> bool {
        ctx.valid_attr(a) && ctx.attrs@[a.ptr as int] is Dictionary
    }

    open spec fn spec_kind_name() -> Seq<char> {
        "DictionaryAttr"@
    }

    fn kind_name() -> (r: &'static str) {
        "DictionaryAttr"
    }

    fn isa(ctx: &Context, attr: &Attribute) -> (r: bool) {
        if attr.0.ptr == 0 || attr.0.ptr >= ctx.attrs.len() {
            return false;
        }
        match &ctx.attrs[attr.0.ptr] {
            AttrData::Dictionary { .. } => true,
            _ => false,
        }
    }

    fn wrap(a: Attribute) -> (r: DictionaryAttr) {
        DictionaryAttr(a.0)
    }
}

impl DictionaryAttr {
    /// Narrow an attribute to this kind: succeeds exactly when it is one, with the same
    /// handle.
    pub fn try_from(ctx: &Context, attr: Attribute) -> (r: Result<DictionaryAttr, Error>)
        ensures
            r is Ok <==> DictionaryAttr::spec_isa(ctx, attr.0),
            r matches Ok(k) ==> k.0 == attr.0,
            r matches Err(e) ==> crate::error::is_kind_mismatch(e, DictionaryAttr::spec_kind_name(), "Attribute"@),
    {
        narrow_attr::<DictionaryAttr>(ctx, attr)
    }
}

impl IntegerAttr {
    /// An integer attribute of type `ty` holding `value`.
    pub fn new(ctx: &mut Context, ty: &Type, value: i64) -> (r: IntegerAttr)
        requires
            old(ctx).wf(),
        ensures
            attr_added(final(ctx), old(ctx), r.0, AttrData::Integer { ty: ty.0, value }),
    {
        IntegerAttr(push_attr(ctx, AttrData::Integer { ty: ty.0, value }))
    }
}

impl StringAttr {
    /// A string attribute holding `string`.
    pub fn new(ctx: &mut Context, string: &str) -> (r: StringAttr)
        requires
            old(ctx).wf(),
        ensures
            attr_added(final(ctx), old(ctx), r.0, final(ctx).attrs@[r.0.ptr as int]),
            final(ctx).attrs@[r.0.ptr as int] matches AttrData::String { value } && value@ == string@,
    {
        StringAttr(push_attr(ctx, AttrData::String { value: String::from_str(string) }))
    }

    /// The string held.
    pub fn get_value(&self, ctx: &Context) -> (r: String)
        requires
            StringAttr::spec_isa(ctx, self.0),
        ensures
            ctx.attrs@[self.0.ptr as int] matches AttrData::String { value } && value@ == r@,
    {
        match &ctx.attrs[self.0.ptr] {
            AttrData::String { value } => value.clone(),
            _ => String::new(),
        }
    }
}

impl TypeAttr {
    /// An attribute holding the type `value`.
    pub fn new(ctx: &mut Context, value: &Type) -> (r: TypeAttr)
        requires
            old(ctx).wf(),
        ensures
            attr_added(final(ctx), old(ctx), r.0, AttrData::Type { ty: value.0 }),
    {
        TypeAttr(push_attr(ctx, AttrData::Type { ty: value.0 }))
    }

    /// The type held.
    pub fn ty(&self, ctx: &Context) -> (r: Type)
        requires
            TypeAttr::spec_isa(ctx, self.0),
        ensures
            ctx.attrs@[self.0.ptr as int] == (AttrData::Type { ty: r.0 }),
    {
        match &ctx.attrs[self.0.ptr] {
            AttrData::Type { ty } => Type(*ty),
            _ => Type(MlirType { ptr: 0 }),
        }
    }
}

/// The raw handles of a list of attributes.
pub open spec fn attrs_raw(l: Seq<Attribute>) -> Seq<MlirAttribute> {
    l.map_values(|a: Attribute| a.0)
}

impl ArrayAttr {
    /// An array attribute of the given elements, in order.
    pub fn new(ctx: &mut Context, elements: &[Attribute]) -> (r: ArrayAttr)
        requires
            old(ctx).wf(),
        ensures
            attr_added(final(ctx), old(ctx), r.0, final(ctx).attrs@[r.0.ptr as int]),
            final(ctx).attrs@[r.0.ptr as int] matches AttrData::Array { elements: e } && e@
                == attrs_raw(elements@),
    {
        let mut v: Vec<MlirAttribute> = Vec::new();
        let mut k: usize = 0;
        while k < elements.len()
            invariant
                k <= elements@.len(),
                v@.len() == k,
                forall|j: int| 0 <= j < k ==> #[trigger] v@[j] == elements@[j].0,
            decreases elements@.len() - k,
        {
            v.push(elements[k].0);
            k = k + 1;
        }
        assert(v@ =~= attrs_raw(elements@));
        ArrayAttr(push_attr(ctx, AttrData::Array { elements: v }))
    }
}

impl UnitAttr {
    pub fn new(ctx: &mut Context) -> (r: UnitAttr)
        requires
            old(ctx).wf(),
        ensures
            attr_added(final(ctx), old(ctx), r.0, AttrData::Unit),
    {
        UnitAttr(push_attr(ctx, AttrData::Unit))
    }
}

impl SymbolRefAttr {
    /// A flat reference to the symbol named `symbol`.
    pub fn new(ctx: &mut Context, symbol: &str) -> (r: SymbolRefAttr)
        requires
            old(ctx).wf(),
        ensures
            attr_added(final(ctx), old(ctx), r.0, final(ctx).attrs@[r.0.ptr as int]),
            final(ctx).attrs@[r.0.ptr as int] matches AttrData::SymbolRef { symbol: s } && s@
                == symbol@,
    {
        SymbolRefAttr(push_attr(ctx, AttrData::SymbolRef { symbol: String::from_str(symbol) }))
    }
}

impl ParamDeclAttr {
    /// A parameter declaration `name: ty = value`.
    pub fn new(ctx: &mut Context, name: &str, ty: &Type, value: &Attribute) -> (r: ParamDeclAttr)
        requires
            old(ctx).wf(),
        ensures
            attr_added(final(ctx), old(ctx), r.0, final(ctx).attrs@[r.0.ptr as int]),
            final(ctx).attrs@[r.0.ptr as int] matches AttrData::ParamDecl { name: n, ty: t, value: v }
                && n@ == name@ && t == ty.0 && v == value.0,
    {
        ParamDeclAttr(
            push_attr(
                ctx,
                AttrData::ParamDecl { name: String::from_str(name), ty: ty.0, value: value.0 },
            ),
        )
    }
}

/// An attribute together with the name under which an operation holds it.
pub struct NamedAttribute(pub MlirNamedAttribute);

impl HasRaw for NamedAttribute {
    type RawType = MlirNamedAttribute;

    open spec fn spec_raw(&self) -> MlirNamedAttribute {
        self.0
    }

    fn raw(&self) -> (r: MlirNamedAttribute) {
        MlirNamedAttribute { name: self.0.name.clone(), attribute: self.0.attribute }
    }

    fn take_raw(self) -> (r: MlirNamedAttribute) {
        self.0
    }
}

impl WrapRaw for NamedAttribute {
    fn from_raw(raw: MlirNamedAttribute) -> (r: NamedAttribute) {
        NamedAttribute(raw)
    }
}

impl NamedAttribute {
    /// Name the attribute `attr`.
    pub fn new(name: &str, attr: &Attribute) -> (r: NamedAttribute)
        ensures
            r.0.name@ == name@,
            r.0.attribute == attr.0,
    {
        NamedAttribute(MlirNamedAttribute { name: String::from_str(name), attribute: attr.0 })
    }

    /// Wrap a raw named attribute; `None` when its attribute is null.
    pub fn try_from_raw(raw: MlirNamedAttribute) -> (r: Option<NamedAttribute>)
        ensures
            r is Some <==> raw.attribute.ptr != 0,
            r matches Some(n) ==> n.0 == raw,
    {
        if raw.attribute.ptr == 0 {
            None
        } else {
            Some(NamedAttribute(raw))
        }
    }

    pub fn name(&self) -> (r: &str)
        ensures
            r@ == self.0.name@,
    {
        self.0.name.as_str()
    }

    pub fn attribute(&self) -> (r: Attribute)
        ensures
            r.0 == self.0.attribute,
    {
        Attribute(self.0.attribute)
    }
}

/// Name an attribute of any kind.
pub fn to_named<A: Attr>(attr: &A, name: &str) -> (r: NamedAttribute)
    ensures
        r.0.name@ == name@,
        r.0.attribute == attr.spec_attr(),
{
    NamedAttribute::new(name, &attr.as_attribute())
}

pub open spec fn dict_elements(ctx: &Context, a: MlirAttribute) -> Seq<MlirNamedAttribute> {
    match ctx.attrs@[a.ptr as int] {
        AttrData::Dictionary { elements } => elements@,
        _ => Seq::empty(),
    }
}

impl DictionaryAttr {
    /// A dictionary of the given named attributes, in order.
    pub fn new(ctx: &mut Context, attrs: &[NamedAttribute]) -> (r: DictionaryAttr)
        requires
            old(ctx).wf(),
        ensures
            attr_added(final(ctx), old(ctx), r.0, final(ctx).attrs@[r.0.ptr as int]),
            DictionaryAttr::spec_isa(final(ctx), r.0),
            dict_elements(final(ctx), r.0) == attrs@.map_values(|a: NamedAttribute| a.0),
    {
        let mut v: Vec<MlirNamedAttribute> = Vec::new();
        let mut k: usize = 0;
        while k < attrs.len()
            invariant
                k <= attrs@.len(),
                v@.len() == k,
                forall|j: int| 0 <= j < k ==> #[trigger] v@[j] == attrs@[j].0,
            decreases attrs@.len() - k,
        {
            v.push(attrs[k].raw());
            k = k + 1;
        }
        assert(v@ =~= attrs@.map_values(|a: NamedAttribute| a.0));
        DictionaryAttr(push_attr(ctx, AttrData::Dictionary { elements: v }))
    }

    pub fn num_elements(&self, ctx: &Context) -> (r: usize)
        requires
            DictionaryAttr::spec_isa(ctx, self.0),
        ensures
            r == dict_elements(ctx, self.0).len(),
    {
        match &ctx.attrs[self.0.ptr] {
            AttrData::Dictionary { elements } => elements.len(),
            _ => 0,
        }
    }

    /// Element `pos`, if there is one.
    pub fn element(&self, ctx: &Context, pos: usize) -> (r: Option<NamedAttribute>)
        requires
            DictionaryAttr::spec_isa(ctx, self.0),
        ensures
            r is Some <==> pos < dict_elements(ctx, self.0).len(),
            r matches Some(a) ==> a.0 == dict_elements(ctx, self.0)[pos as int],
    {
        match &ctx.attrs[self.0.ptr] {
            AttrData::Dictionary { elements } => if pos < elements.len() {
                Some(NamedAttribute(MlirNamedAttribute { name: elements[pos].name.clone(), attribute: elements[pos].attribute }))
            } else {
                None
            },
            _ => None,
        }
    }
}

pub open spec fn is_digit(c: char) -> bool {
    '0' <= c && c <= '9'
}

pub open spec fn digit_value(c: char) -> int {
    if c == '1' {
        1
    } else if c == '2' {
        2
    } else if c == '3' {
        3
    } else if c == '4' {
        4
    } else if c == '5' {
        5
    } else if c == '6' {
        6
    } else if c == '7' {
        7
    } else if c == '8' {
        8
    } else if c == '9' {
        9
    } else {
        0
    }
}

/// The number that a string of decimal digits writes.
pub open spec fn digits_value(s: Seq<char>) -> int
    decreases s.len(),
{
    if s.len() == 0 {
        0
    } else {
        digits_value(s.drop_last()) * 10 + digit_value(s.last())
    }
}

pub open spec fn all_digits(s: Seq<char>) -> bool {
    s.len() > 0 && forall|k: int| 0 <= k < s.len() ==> is_digit(#[trigger] s[k])
}

/// The integer that `s` writes in decimal, with an optional leading `-`.
pub open spec fn parse_integer(s: Seq<char>) -> Option<int> {
    if s.len() > 0 && s[0] == '-' {
        if all_digits(s.subrange(1, s.len() as int)) {
            Some(-digits_value(s.subrange(1, s.len() as int)))
        } else {
            None
        }
    } else if all_digits(s) {
        Some(digits_value(s))
    } else {
        None
    }
}

proof fn lemma_digits_grow(s: Seq<char>, k: int)
    requires
        0 <= k <= s.len(),
    ensures
        0 <= digits_value(s.take(k)) <= digits_value(s),
    decreases s.len(),
{
    if k < s.len() {
        assert(s.drop_last().take(k) =~= s.take(k));
        lemma_digits_grow(s.drop_last(), k);
    } else {
        assert(s.take(k) =~= s);
        if s.len() > 0 {
            lemma_digits_grow(s.drop_last(), s.len() - 1);
            assert(s.drop_last().take(s.len() - 1) =~= s.drop_last());
        }
    }
}

fn digit_of(c: char) -> (r: u128)
    requires
        is_digit(c),
    ensures
        r == digit_value(c),
{
    if c == '1' {
        1
    } else if c == '2' {
        2
    } else if c == '3' {
        3
    } else if c == '4' {
        4
    } else if c == '5' {
        5
    } else if c == '6' {
        6
    } else if c == '7' {
        7
    } else if c == '8' {
        8
    } else if c == '9' {
        9
    } else {
        0
    }
}

/// The `i64` that `s` writes in decimal, if it writes one that fits.
pub fn parse_i64(s: &str) -> (r: Option<i64>)
    ensures
        r is Some <==> (parse_integer(s@) is Some && i64::MIN <= parse_integer(s@)->0 <= i64::MAX),
        r matches Some(x) ==> parse_integer(s@) == Some(x as int),
{
    let n = s.unicode_len();
    let neg = n > 0 && s.get_char(0) == '-';
    let start: usize = if neg {
        1
    } else {
        0
    };
    let ghost t = s@.subrange(start as int, n as int);
    if start >= n {
        proof {
            assert(t.len() == 0);
        }
        return None;
    }
    let limit: u128 = 0x8000_0000_0000_0000u128;
    let mut acc: u128 = 0;
    let mut i: usize = start;
    assert(t.take(0) =~= Seq::<char>::empty());
    while i < n
        invariant
            n == s@.len(),
            start <= i <= n,
            start == (if neg { 1usize } else { 0usize }),
            neg == (n > 0 && s@[0] == '-'),
            limit == 0x8000_0000_0000_0000u128,
            t == s@.subrange(start as int, n as int),
            acc == digits_value(t.take(i - start)),
            acc <= limit,
            forall|k: int| 0 <= k < i - start ==> is_digit(#[trigger] t[k]),
        decreases n - i,
    {
        let c = s.get_char(i);
        assert(t[i - start] == c);
        if !('0' <= c && c <= '9') {
            proof {
                assert(!all_digits(t));
                if !neg {
                    assert(start == 0);
                    assert(t =~= s@);
                }
            }
            return None;
        }
        assert(t.take(i - start + 1).drop_last() =~= t.take(i - start));
        assert(t.take(i - start + 1).last() == c);
        acc = acc * 10 + digit_of(c);
        i = i + 1;
        if acc > limit {
            proof {
                lemma_digits_grow(t, i - start);
                if !neg {
                    assert(t =~= s@);
                }
            }
            return None;
        }
    }
    assert(t.take(n - start) =~= t);
    proof {
        if !neg {
            assert(t =~= s@);
        }
    }
    if neg {
        Some((0i128 - acc as i128) as i64)
    } else if acc == limit {
        None
    } else {
        Some(acc as i64)
    }
}

impl IntegerAttr {
    /// An integer attribute of type `ty` holding the integer that `value` writes in
    /// decimal; `None` when it writes none that fits 64 bits.
    pub fn from_str(ctx: &mut Context, ty: &Type, value: &str) -> (r: Option<IntegerAttr>)
        requires
            old(ctx).wf(),
        ensures
            r is Some <==> (parse_integer(value@) is Some && i64::MIN <= parse_integer(value@)->0 <= i64::MAX),
            r matches Some(a) ==> final(ctx).attrs@[a.0.ptr as int] matches AttrData::Integer { ty: t, value: v }
                && t == ty.0 && v as int == parse_integer(value@)->0,
            r matches Some(a) ==> attr_added(final(ctx), old(ctx), a.0, final(ctx).attrs@[a.0.ptr as int]),
            r is None ==> *final(ctx) == *old(ctx),
    {
        match parse_i64(value) {
            Some(v) => Some(IntegerAttr::new(ctx, ty, v)),
            None => None,
        }
    }
}

} // verus!

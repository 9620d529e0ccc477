//! The IR store: every entity lives in a table of a `Context` and is named by its index.
//! Index `0` of each table is a placeholder, so that the null handle names nothing.
use vstd::prelude::*;
use crate::wrap_raw::{MlirAttribute, MlirBlock, MlirLocation, MlirOperation, MlirRegion, MlirType, MlirValue};

verus! {

/// One field of a struct type.
pub struct StructField {
    pub name: String,
    pub ty: MlirType,
}

/// What a type handle stands for. Components are handles of types created earlier.
pub enum TypeData {
    Placeholder,
    Integer { width: u32 },
    Index,
    Function { inputs: Vec<MlirType>, results: Vec<MlirType> },
    Array { element: MlirType, size: usize },
    InOut { element: MlirType },
    Struct { fields: Vec<StructField> },
    Alias { scope: String, name: String, inner: MlirType },
}

/// What an attribute handle stands for.
#[allow(inconsistent_fields)]
pub enum AttrData {
    Placeholder,
    Integer { ty: MlirType, value: i64 },
    String { value: String },
    Type { ty: MlirType },
    Array { elements: Vec<MlirAttribute> },
    Unit,
    SymbolRef { symbol: String },
    ParamDecl { name: String, ty: MlirType, value: MlirAttribute },
    Dictionary { elements: Vec<MlirNamedAttribute> },
}

/// What a location handle stands for.
pub enum LocationData {
    Placeholder,
    Unknown,
    FileLineCol { file: String, line: usize, col: usize },
    Name { name: String, child: MlirLocation },
}

/// Where an SSA value comes from.
#[derive(Clone, Copy, PartialEq, Eq, Debug, Structural)]
pub enum ValueOwner {
    Placeholder,
    OpResult { op: MlirOperation, pos: usize },
    BlockArgument { block: MlirBlock, pos: usize },
}

pub struct ValueData {
    pub ty: MlirType,
    pub owner: ValueOwner,
}

/// A named attribute as the store keeps it on an operation.
pub struct MlirNamedAttribute {
    pub name: String,
    pub attribute: MlirAttribute,
}

pub struct OpData {
    pub name: String,
    pub loc: MlirLocation,
    pub operands: Vec<MlirValue>,
    pub results: Vec<MlirValue>,
    pub attributes: Vec<MlirNamedAttribute>,
    pub successors: Vec<MlirBlock>,
    pub regions: Vec<MlirRegion>,
    /// The block that owns the operation; null while the caller owns it.
    pub parent: MlirBlock,
    pub destroyed: bool,
}

pub struct BlockData {
    pub arguments: Vec<MlirValue>,
    pub ops: Vec<MlirOperation>,
    /// The region that owns the block; null while the caller owns it.
    pub parent: MlirRegion,
    pub destroyed: bool,
}

pub struct RegionData {
    pub blocks: Vec<MlirBlock>,
    /// The operation that owns the region; null while the caller owns it.
    pub parent: MlirOperation,
    pub destroyed: bool,
}

/// The IR store. The tables only grow: a handle, once issued, names the same entity for
/// the life of the context.
pub struct Context {
    pub types: Vec<TypeData>,
    pub attrs: Vec<AttrData>,
    pub locations: Vec<LocationData>,
    pub values: Vec<ValueData>,
    pub ops: Vec<OpData>,
    pub blocks: Vec<BlockData>,
    pub regions: Vec<RegionData>,
    pub pass_managers: Vec<crate::pass_manager::PassManagerData>,
    pub registered_passes: Vec<String>,
    pub loaded_dialects: Vec<String>,
    pub allow_unregistered_dialects: bool,
}

/// Two flat type descriptions (integer, `index`, array, inout) that are the same.
pub open spec fn same_flat(a: TypeData, b: TypeData) -> bool {
    match (a, b) {
        (TypeData::Integer { width: x }, TypeData::Integer { width: y }) => x == y,
        (TypeData::Index, TypeData::Index) => true,
        (TypeData::Array { element: e1, size: s1 }, TypeData::Array { element: e2, size: s2 }) => e1 == e2 && s1 == s2,
        (TypeData::InOut { element: e1 }, TypeData::InOut { element: e2 }) => e1 == e2,
        _ => false,
    }
}

/// Every component handle of a type is a type created before it.
pub open spec fn type_data_ok(d: TypeData, i: int) -> bool {
    match d {
        TypeData::Function { inputs, results } => (forall|k: int|
            0 <= k < inputs@.len() ==> 1 <= #[trigger] inputs@[k].ptr < i) && (forall|k: int|
            0 <= k < results@.len() ==> 1 <= #[trigger] results@[k].ptr < i),
        TypeData::Array { element, size } => 1 <= element.ptr < i,
        TypeData::InOut { element } => 1 <= element.ptr < i,
        TypeData::Struct { fields } => forall|k: int|
            0 <= k < fields@.len() ==> 1 <= #[trigger] fields@[k].ty.ptr < i,
        TypeData::Alias { scope, name, inner } => 1 <= inner.ptr < i,
        _ => true,
    }
}

impl Context {
    pub open spec fn valid_type(&self, t: MlirType) -> bool {
        1 <= t.ptr < self.types@.len()
    }

    pub open spec fn valid_attr(&self, a: MlirAttribute) -> bool {
        1 <= a.ptr < self.attrs@.len()
    }

    pub open spec fn valid_location(&self, l: MlirLocation) -> bool {
        1 <= l.ptr < self.locations@.len()
    }

    pub open spec fn valid_value(&self, v: MlirValue) -> bool {
        1 <= v.ptr < self.values@.len()
    }

    pub open spec fn valid_op(&self, o: MlirOperation) -> bool {
        1 <= o.ptr < self.ops@.len() && !self.ops@[o.ptr as int].destroyed
    }

    pub open spec fn valid_block(&self, b: MlirBlock) -> bool {
        1 <= b.ptr < self.blocks@.len() && !self.blocks@[b.ptr as int].destroyed
    }

    pub open spec fn valid_region(&self, r: MlirRegion) -> bool {
        1 <= r.ptr < self.regions@.len() && !self.regions@[r.ptr as int].destroyed
    }

    pub open spec fn type_of(&self, v: MlirValue) -> MlirType {
        self.values@[v.ptr as int].ty
    }

    pub open spec fn op_data(&self, o: MlirOperation) -> OpData {
        self.ops@[o.ptr as int]
    }

    /// The well-formedness of the store: placeholders at index 0, every handle that an
    /// entry holds names an entry of the right table, and flat types are held once.
    pub open spec fn wf(&self) -> bool {
        &&& self.types@.len() >= 1
        &&& self.attrs@.len() >= 1
        &&& self.locations@.len() >= 1
        &&& self.values@.len() >= 1
        &&& self.ops@.len() >= 1
        &&& self.blocks@.len() >= 1
        &&& self.regions@.len() >= 1
        &&& self.pass_managers@.len() >= 1
        &&& forall|i: int| 1 <= i < self.types@.len() ==> type_data_ok(#[trigger] self.types@[i], i)
        &&& forall|i: int, j: int|
            1 <= i < self.types@.len() && 1 <= j < self.types@.len() && i != j ==> !same_flat(
                #[trigger] self.types@[i],
                #[trigger] self.types@[j],
            )
        &&& forall|i: int| 1 <= i < self.values@.len() ==> self.valid_type(#[trigger] self.values@[i].ty)
        &&& forall|i: int, k: int|
            1 <= i < self.ops@.len() && 0 <= k < self.ops@[i].operands@.len()
                ==> self.valid_value(#[trigger] self.ops@[i].operands@[k])
        &&& forall|i: int, k: int|
            1 <= i < self.ops@.len() && 0 <= k < self.ops@[i].results@.len()
                ==> self.valid_value(#[trigger] self.ops@[i].results@[k])
        &&& forall|i: int, k: int|
            1 <= i < self.blocks@.len() && 0 <= k < self.blocks@[i].arguments@.len()
                ==> self.valid_value(#[trigger] self.blocks@[i].arguments@[k])
    }

    /// `self` is `old` with the tables grown and nothing issued before changed, except
    /// possibly the ownership records and contents of operations, blocks and regions.
    pub open spec fn extends(&self, old: &Context) -> bool {
        &&& old.types@.len() <= self.types@.len()
        &&& old.attrs@.len() <= self.attrs@.len()
        &&& old.locations@.len() <= self.locations@.len()
        &&& old.values@.len() <= self.values@.len()
        &&& old.ops@.len() <= self.ops@.len()
        &&& old.blocks@.len() <= self.blocks@.len()
        &&& old.regions@.len() <= self.regions@.len()
        &&& forall|i: int| 0 <= i < old.types@.len() ==> self.types@[i] == #[trigger] old.types@[i]
        &&& forall|i: int| 0 <= i < old.attrs@.len() ==> self.attrs@[i] == #[trigger] old.attrs@[i]
        &&& forall|i: int| 0 <= i < old.values@.len() ==> self.values@[i] == #[trigger] old.values@[i]
        &&& forall|i: int|
            0 <= i < old.locations@.len() ==> self.locations@[i] == #[trigger] old.locations@[i]
        &&& forall|i: int|
            0 <= i < old.ops@.len() ==> self.ops@[i].name == #[trigger] old.ops@[i].name
    }

    pub open spec fn same_types_attrs(&self, old: &Context) -> bool {
        &&& self.types@ == old.types@
        &&& self.attrs@ == old.attrs@
        &&& self.locations@ == old.locations@
    }

    pub open spec fn same_structure(&self, old: &Context) -> bool {
        &&& self.ops@ == old.ops@
        &&& self.blocks@ == old.blocks@
        &&& self.regions@ == old.regions@
    }

    pub open spec fn same_values(&self, old: &Context) -> bool {
        self.values@ == old.values@
    }

    pub open spec fn same_passes(&self, old: &Context) -> bool {
        &&& self.pass_managers@ == old.pass_managers@
        &&& self.registered_passes@ == old.registered_passes@
        &&& self.loaded_dialects@ == old.loaded_dialects@
        &&& self.allow_unregistered_dialects == old.allow_unregistered_dialects
    }

    /// An empty store. No dialect is loaded but the builtin one.
    pub fn new() -> (r: Context)
        ensures
            r.wf(),
            r.types@.len() == 1,
            r.attrs@.len() == 1,
            r.locations@.len() == 1,
            r.values@.len() == 1,
            r.ops@.len() == 1,
            r.blocks@.len() == 1,
            r.regions@.len() == 1,
            r.registered_passes@.len() == 0,
            r.loaded_dialects@.len() == 1,
            !r.allow_unregistered_dialects,
    {
        let mut types: Vec<TypeData> = Vec::new();
        types.push(TypeData::Placeholder);
        let mut attrs: Vec<AttrData> = Vec::new();
        attrs.push(AttrData::Placeholder);
        let mut locations: Vec<LocationData> = Vec::new();
        locations.push(LocationData::Placeholder);
        let mut values: Vec<ValueData> = Vec::new();
        values.push(ValueData { ty: MlirType { ptr: 0 }, owner: ValueOwner::Placeholder });
        let mut ops: Vec<OpData> = Vec::new();
        ops.push(
            OpData {
                name: String::new(),
                loc: MlirLocation { ptr: 0 },
                operands: Vec::new(),
                results: Vec::new(),
                attributes: Vec::new(),
                successors: Vec::new(),
                regions: Vec::new(),
                parent: MlirBlock { ptr: 0 },
                destroyed: true,
            },
        );
        let mut blocks: Vec<BlockData> = Vec::new();
        blocks.push(
            BlockData {
                arguments: Vec::new(),
                ops: Vec::new(),
                parent: MlirRegion { ptr: 0 },
                destroyed: true,
            },
        );
        let mut regions: Vec<RegionData> = Vec::new();
        regions.push(
            RegionData { blocks: Vec::new(), parent: MlirOperation { ptr: 0 }, destroyed: true },
        );
        let mut pass_managers: Vec<crate::pass_manager::PassManagerData> = Vec::new();
        pass_managers.push(crate::pass_manager::PassManagerData::placeholder());
        let mut loaded_dialects: Vec<String> = Vec::new();
        loaded_dialects.push(String::from_str("builtin"));
        Context {
            types,
            attrs,
            locations,
            values,
            ops,
            blocks,
            regions,
            pass_managers,
            registered_passes: Vec::new(),
            loaded_dialects,
            allow_unregistered_dialects: false,
        }
    }

    /// Change whether this context allows operations of unregistered dialects.
    pub fn set_allow_unregistered_dialects(&mut self, allow: bool)
        requires
            old(self).wf(),
        ensures
            final(self).wf(),
            final(self).allow_unregistered_dialects == allow,
            final(self).extends(old(self)),
    {
        self.allow_unregistered_dialects = allow;
    }

    pub fn are_unregistered_dialects_allowed(&self) -> (r: bool)
        ensures
            r == self.allow_unregistered_dialects,
    {
        self.allow_unregistered_dialects
    }

    /// Number of loaded dialects. The builtin dialect is always loaded.
    pub fn num_loaded_dialects(&self) -> (r: usize)
        ensures
            r == self.loaded_dialects@.len(),
    {
        self.loaded_dialects.len()
    }

    /// Append a value of type `ty` with the given origin.
    pub(crate) fn push_value(&mut self, ty: MlirType, owner: ValueOwner) -> (r: MlirValue)
        requires
            old(self).wf(),
            old(self).valid_type(ty),
        ensures
            final(self).wf(),
            final(self).extends(old(self)),
            r.ptr == old(self).values@.len(),
            final(self).values@ == old(self).values@.push(ValueData { ty, owner }),
            final(self).same_types_attrs(old(self)),
            final(self).same_structure(old(self)),
            final(self).same_passes(old(self)),
    {
        let r = MlirValue { ptr: self.values.len() };
        self.values.push(ValueData { ty, owner });
        r
    }
}

/// A loaded dialect: its position among the loaded dialects of a context.
#[derive(Clone, Copy, Debug, PartialEq, Eq, Structural)]
pub struct Dialect(pub usize);

/// A dialect that can be loaded into a context, by its namespace.
pub struct DialectHandle {
    pub namespace: String,
}

impl DialectHandle {
    pub fn new(namespace: &str) -> (r: DialectHandle)
        ensures
            r.namespace@ == namespace@,
    {
        DialectHandle { namespace: String::from_str(namespace) }
    }

    fn find(&self, ctx: &Context) -> (r: Option<usize>)
        ensures
            r matches Some(k) ==> k < ctx.loaded_dialects@.len() && ctx.loaded_dialects@[k as int]@ == self.namespace@,
            r is None ==> forall|j: int| 0 <= j < ctx.loaded_dialects@.len() ==> (#[trigger] ctx.loaded_dialects@[j])@ != self.namespace@,
    {
        let mut k: usize = 0;
        while k < ctx.loaded_dialects.len()
            invariant
                k <= ctx.loaded_dialects@.len(),
                forall|j: int| 0 <= j < k ==> (#[trigger] ctx.loaded_dialects@[j])@ != self.namespace@,
            decreases ctx.loaded_dialects@.len() - k,
        {
            if crate::text::str_eq(ctx.loaded_dialects[k].as_str(), self.namespace.as_str()) {
                return Some(k);
            }
            k = k + 1;
        }
        None
    }

    /// Load the dialect into `ctx`; loading it again gives the same dialect and changes
    /// nothing.
    pub fn load(&self, ctx: &mut Context) -> (r: Option<Dialect>)
        requires
            old(ctx).wf(),
        ensures
            final(ctx).wf(),
            final(ctx).extends(old(ctx)),
            r matches Some(d) && d.0 < final(ctx).loaded_dialects@.len()
                && final(ctx).loaded_dialects@[d.0 as int]@ == self.namespace@,
            (exists|k: int| 0 <= k < old(ctx).loaded_dialects@.len() && (#[trigger] old(ctx).loaded_dialects@[k])@ == self.namespace@)
                ==> final(ctx).loaded_dialects@ == old(ctx).loaded_dialects@,
            !(exists|k: int| 0 <= k < old(ctx).loaded_dialects@.len() && (#[trigger] old(ctx).loaded_dialects@[k])@ == self.namespace@)
                ==> final(ctx).loaded_dialects@.len() == old(ctx).loaded_dialects@.len() + 1,
    {
        if let Some(k) = self.find(ctx) {
            return Some(Dialect(k));
        }
        let n = ctx.loaded_dialects.len();
        ctx.loaded_dialects.push(self.namespace.clone());
        Some(Dialect(n))
    }
}

} // verus!

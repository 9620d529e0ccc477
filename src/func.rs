//! The `func` dialect: functions, calls and returns.
use vstd::prelude::*;
use crate::attr::{ArrayAttr, Attribute, StringAttr, TypeAttr};
use crate::block::{Block, Region};
use crate::builder::{placed, OpBuilder};
use crate::context::Context;
use crate::dialect::{builder_grew, can_place, check_place, has_string_attr};
use crate::hw::module_body;
use crate::operation::{NamedOp, Operation, OperationState, SingleRegionOp};
use crate::ty::{FunctionType, Type};
use crate::value::{values_raw, Value};
use crate::wrap_raw::MlirOperation;

verus! {

/// A function.
#[derive(Clone, Copy, Debug, PartialEq, Eq, Structural)]
pub struct FuncOp(pub MlirOperation);

impl NamedOp for FuncOp {
    open spec fn spec_name() -> Seq<char> {
        "func.func"@
    }

    open spec fn spec_op(&self) -> MlirOperation {
        self.0
    }

    fn operation_name() -> (r: &'static str) {
        "func.func"
    }

    fn wrap_op(raw: MlirOperation) -> (r: FuncOp) {
        FuncOp(raw)
    }

    fn as_operation(&self) -> (r: Operation) {
        Operation(self.0)
    }
}

/// A call of a function.
#[derive(Clone, Copy, Debug, PartialEq, Eq, Structural)]
pub struct CallOp(pub MlirOperation);

impl NamedOp for CallOp {
    open spec fn spec_name() -> Seq<char> {
        "func.call"@
    }

    open spec fn spec_op(&self) -> MlirOperation {
        self.0
    }

    fn operation_name() -> (r: &'static str) {
        "func.call"
    }

    fn wrap_op(raw: MlirOperation) -> (r: CallOp) {
        CallOp(raw)
    }

    fn as_operation(&self) -> (r: Operation) {
        Operation(self.0)
    }
}

/// A return from a function.
#[derive(Clone, Copy, Debug, PartialEq, Eq, Structural)]
pub struct ReturnOp(pub MlirOperation);

impl NamedOp for ReturnOp {
    open spec fn spec_name() -> Seq<char> {
        "func.return"@
    }

    open spec fn spec_op(&self) -> MlirOperation {
        self.0
    }

    fn operation_name() -> (r: &'static str) {
        "func.return"
    }

    fn wrap_op(raw: MlirOperation) -> (r: ReturnOp) {
        ReturnOp(raw)
    }

    fn as_operation(&self) -> (r: Operation) {
        Operation(self.0)
    }
}

impl SingleRegionOp for FuncOp {

}

/// The function's body is there: its first region has a live first block.
pub open spec fn has_body(ctx: &Context, op: MlirOperation) -> bool {
    ctx.valid_op(op) && module_body(ctx, op) is Some && ctx.valid_block(module_body(ctx, op)->0)
}

impl FuncOp {
    /// The number of arguments of the body.
    pub fn num_arguments(&self, ctx: &Context) -> (r: usize)
        requires
            has_body(ctx, self.0),
        ensures
            r == ctx.blocks@[module_body(ctx, self.0)->0.ptr as int].arguments@.len(),
    {
        let b = Operation(self.0).first_block(ctx).unwrap();
        b.num_arguments(ctx)
    }

    /// Argument `index` of the body, if there is one.
    pub fn argument(&self, ctx: &Context, index: usize) -> (r: Option<Value>)
        requires
            has_body(ctx, self.0),
        ensures
            r is Some <==> index < ctx.blocks@[module_body(ctx, self.0)->0.ptr as int].arguments@.len(),
            r matches Some(v) ==> v.0 == ctx.blocks@[module_body(ctx, self.0)->0.ptr as int].arguments@[index as int],
    {
        let b = Operation(self.0).first_block(ctx).unwrap();
        b.argument(ctx, index)
    }

    /// All arguments of the body, in order.
    pub fn arguments(&self, ctx: &Context) -> (r: Vec<Value>)
        requires
            has_body(ctx, self.0),
        ensures
            values_raw(r@) == ctx.blocks@[module_body(ctx, self.0)->0.ptr as int].arguments@,
    {
        let b = Operation(self.0).first_block(ctx).unwrap();
        b.arguments(ctx)
    }
}

/// Collects a function's name, arguments and results, then builds it.
pub struct FunctionBuilder {
    pub name: String,
    pub args: Vec<(String, Type)>,
    pub results: Vec<(String, Type)>,
}

/// Attribute `k` of `op` is `arg_names`: an array of string attributes holding the
/// argument names, in order.
pub open spec fn has_arg_names_attr(ctx: &Context, op: MlirOperation, k: int, args: Seq<(String, Type)>) -> bool {
    let a = ctx.ops@[op.ptr as int].attributes@[k];
    &&& 0 <= k < ctx.ops@[op.ptr as int].attributes@.len()
    &&& a.name@ == "arg_names"@
    &&& match ctx.attrs@[a.attribute.ptr as int] {
        crate::context::AttrData::Array { elements } => elements@.len() == args.len() && forall|j: int|
            0 <= j < args.len() ==> crate::attr::string_attr_holds(ctx, #[trigger] elements@[j], args[j].0@),
        _ => false,
    }
}

pub open spec fn types_of(l: Seq<(String, Type)>) -> Seq<Type> {
    l.map_values(|p: (String, Type)| p.1)
}

impl FunctionBuilder {
    pub fn new(name: &str) -> (r: FunctionBuilder)
        ensures
            r.name@ == name@,
            r.args@.len() == 0,
            r.results@.len() == 0,
    {
        FunctionBuilder { name: String::from_str(name), args: Vec::new(), results: Vec::new() }
    }

    /// Add an argument; without a name it is named by the empty string.
    pub fn add_arg(&mut self, name: Option<String>, ty: Type)
        ensures
            final(self).args@.len() == old(self).args@.len() + 1,
            forall|k: int| 0 <= k < old(self).args@.len() ==> final(self).args@[k] == old(self).args@[k],
            final(self).args@.last().1 == ty,
            final(self).args@.last().0@ == match name {
                Some(n) => n@,
                None => Seq::empty(),
            },
            final(self).results == old(self).results,
            final(self).name == old(self).name,
    {
        let n = match name {
            Some(n) => n,
            None => String::new(),
        };
        self.args.push((n, ty));
    }

    /// Add a result; without a name it is named by the empty string.
    pub fn add_result(&mut self, name: Option<String>, ty: Type)
        ensures
            final(self).results@.len() == old(self).results@.len() + 1,
            forall|k: int| 0 <= k < old(self).results@.len() ==> final(self).results@[k] == old(self).results@[k],
            final(self).results@.last().1 == ty,
            final(self).results@.last().0@ == match name {
                Some(n) => n@,
                None => Seq::empty(),
            },
            final(self).args == old(self).args,
            final(self).name == old(self).name,
    {
        let n = match name {
            Some(n) => n,
            None => String::new(),
        };
        self.results.push((n, ty));
    }

    /// Build the function: named `sym_name`, with its function type and argument names,
    /// and a body of one empty block.
    pub fn build(&self, builder: &mut OpBuilder) -> (r: Option<FuncOp>)
        requires
            old(builder).wf(),
        ensures
            builder_grew(final(builder), old(builder)),
            r is Some <==> (can_place(old(builder)) && crate::dialect::all_valid_types(&old(builder).ctx, types_of(self.args@))
                && crate::dialect::all_valid_types(&old(builder).ctx, types_of(self.results@))),
            r matches Some(op) ==> final(builder).ctx.valid_op(op.0) && final(builder).ctx.ops@[op.0.ptr as int].name@ == "func.func"@
                && final(builder).ctx.ops@[op.0.ptr as int].attributes@.len() == 3
                && has_string_attr(&final(builder).ctx, op.0, 0, "sym_name"@, self.name@)
                && crate::hw::has_function_type_attr(&final(builder).ctx, op.0, 1, "function_type"@,
                    crate::ty::types_raw(types_of(self.args@)), crate::ty::types_raw(types_of(self.results@)))
                && has_arg_names_attr(&final(builder).ctx, op.0, 2, self.args@)
                && final(builder).ctx.ops@[op.0.ptr as int].regions@.len() == 1
                && module_body(&final(builder).ctx, op.0) is Some
                && crate::builder::placed_grown(&final(builder).ctx, &old(builder).ctx, op.0, old(builder).insert_point),
            r is None ==> final(builder).ctx == old(builder).ctx,
    {
        let mut arg_tys: Vec<Type> = Vec::new();
        let mut k: usize = 0;
        while k < self.args.len()
            invariant
                k <= self.args@.len(),
                arg_tys@ == types_of(self.args@).take(k as int),
            decreases self.args@.len() - k,
        {
            arg_tys.push(self.args[k].1);
            assert(arg_tys@ =~= types_of(self.args@).take(k + 1));
            k = k + 1;
        }
        assert(types_of(self.args@).take(self.args@.len() as int) =~= types_of(self.args@));
        let mut res_tys: Vec<Type> = Vec::new();
        k = 0;
        while k < self.results.len()
            invariant
                k <= self.results@.len(),
                res_tys@ == types_of(self.results@).take(k as int),
            decreases self.results@.len() - k,
        {
            res_tys.push(self.results[k].1);
            assert(res_tys@ =~= types_of(self.results@).take(k + 1));
            k = k + 1;
        }
        assert(types_of(self.results@).take(self.results@.len() as int) =~= types_of(self.results@));
        if !check_place(builder) || !check_types(&builder.ctx, &arg_tys) || !check_types(&builder.ctx, &res_tys) {
            return None;
        }
        let ghost b0 = *old(builder);
        let sym = StringAttr::new(&mut builder.ctx, self.name.as_str());
        let fty = FunctionType::new(&mut builder.ctx, arg_tys.as_slice(), res_tys.as_slice());
        let fattr = TypeAttr::new(&mut builder.ctx, &Type(fty.0));
        let ghost b1 = *builder;
        assert(crate::hw::kept_structure(&b1.ctx, &b0.ctx));
        let mut names: Vec<Attribute> = Vec::new();
        k = 0;
        while k < self.args.len()
            invariant
                builder.wf(),
                crate::hw::kept_structure(&builder.ctx, &b0.ctx),
                builder.loc == b0.loc,
                builder.insert_point == b0.insert_point,
                builder.ctx.attrs@.len() >= b1.ctx.attrs@.len(),
                forall|i: int| 0 <= i < b1.ctx.attrs@.len() ==> builder.ctx.attrs@[i] == #[trigger] b1.ctx.attrs@[i],
                builder.ctx.locations@ == b1.ctx.locations@,
                builder.ctx.types@ == b1.ctx.types@,
                k <= self.args@.len(),
                names@.len() == k,
                forall|j: int| 0 <= j < k ==> (#[trigger] names@[j]).0.ptr < builder.ctx.attrs@.len()
                    && crate::attr::string_attr_holds(&builder.ctx, names@[j].0, self.args@[j].0@),
            decreases self.args@.len() - k,
        {
            let a = StringAttr::new(&mut builder.ctx, self.args[k].0.as_str());
            names.push(Attribute(a.0));
            k = k + 1;
        }
        let arg_names = ArrayAttr::new(&mut builder.ctx, names.as_slice());
        let region = Region::new(&mut builder.ctx);
        let block = Block::new(&mut builder.ctx);
        let reg = *region.get();
        let blk = *block.get();
        reg.append_block(&mut builder.ctx, block);
        let ghost b3 = *builder;
        proof {
            assert(crate::hw::kept_structure(&b3.ctx, &b0.ctx));
            crate::hw::lemma_kept_place(&b3, &b0);
        }
        let loc = builder.loc;
        let mut state = OperationState::new(FuncOp::operation_name(), &loc);
        state.add_attribute("sym_name", &sym);
        state.add_attribute("function_type", &fattr);
        state.add_attribute("arg_names", &arg_names);
        state.add_region(region);
        proof {
            assert(state.regions@[0] == reg);
            assert(crate::operation::state_ok(&b3.ctx, &state));
        }
        let ghost st = state;
        let r = builder.create::<FuncOp>(state);
        proof {
            if let Some(op) = r {
                assert(crate::operation::regions_raw(st.regions@)[0] == reg.0);
                assert(module_body(&builder.ctx, op.0) == Some(blk.0));
                assert(crate::operation::named_raw(st.attributes@)[0] == st.attributes@[0].0);
                assert(builder.ctx.attrs@[sym.0.ptr as int] == b1.ctx.attrs@[sym.0.ptr as int]);
                let nr = crate::operation::named_raw(st.attributes@);
                assert(nr[1] == st.attributes@[1].0);
                assert(nr[2] == st.attributes@[2].0);
                assert(builder.ctx.attrs@[fattr.0.ptr as int] == b1.ctx.attrs@[fattr.0.ptr as int]);
                assert(builder.ctx.attrs@[arg_names.0.ptr as int] == b3.ctx.attrs@[arg_names.0.ptr as int]);
                assert(builder.ctx.types@[fty.0.ptr as int] == b1.ctx.types@[fty.0.ptr as int]);
                assert forall|j: int| 0 <= j < self.args@.len() implies crate::attr::string_attr_holds(&builder.ctx, #[trigger] crate::attr::attrs_raw(names@)[j], self.args@[j].0@) by {
                    assert(crate::attr::attrs_raw(names@)[j] == names@[j].0);
                    assert(builder.ctx.attrs@[names@[j].0.ptr as int] == b3.ctx.attrs@[names@[j].0.ptr as int]);
                }
                if let Some(p) = b0.insert_point {
                    assert(b3.ctx.blocks@[p.spec_block().ptr as int] == b0.ctx.blocks@[p.spec_block().ptr as int]);
                }
            }
        }
        r
    }
}

pub fn check_types_slice(ctx: &Context, ts: &[Type]) -> (r: bool)
    ensures
        r == crate::dialect::all_valid_types(ctx, ts@),
{
    let mut k: usize = 0;
    while k < ts.len()
        invariant
            k <= ts@.len(),
            forall|j: int| 0 <= j < k ==> ctx.valid_type(#[trigger] ts@[j].0),
        decreases ts@.len() - k,
    {
        if ts[k].0.ptr == 0 || ts[k].0.ptr >= ctx.types.len() {
            return false;
        }
        k = k + 1;
    }
    true
}

pub fn check_types(ctx: &Context, ts: &Vec<Type>) -> (r: bool)
    ensures
        r == crate::dialect::all_valid_types(ctx, ts@),
{
    let mut k: usize = 0;
    while k < ts.len()
        invariant
            k <= ts@.len(),
            forall|j: int| 0 <= j < k ==> ctx.valid_type(#[trigger] ts@[j].0),
        decreases ts@.len() - k,
    {
        if ts[k].0.ptr == 0 || ts[k].0.ptr >= ctx.types.len() {
            return false;
        }
        k = k + 1;
    }
    true
}

/// The `func` dialect.
pub fn dialect() -> (r: crate::context::DialectHandle)
    ensures
        r.namespace@ == "func"@,
{
    crate::context::DialectHandle::new("func")
}

} // verus!

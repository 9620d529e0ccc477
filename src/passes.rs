//! Passes by name, and the registration of the passes a pipeline may name.
use vstd::prelude::*;
use crate::context::Context;
use crate::pass_manager::Pass;

verus! {

/// What registering passes may change: only the registry grows, keeping every name.
pub open spec fn registry_grew(new: &Context, old: &Context) -> bool {
    &&& new.wf()
    &&& new.extends(old)
    &&& forall|n: Seq<char>| old.is_registered(n) ==> #[trigger] new.is_registered(n)
}

/// Register common subexpression elimination, `cse`.
pub fn register_cse(ctx: &mut Context)
    requires
        old(ctx).wf(),
    ensures
        registry_grew(final(ctx), old(ctx)),
        final(ctx).is_registered("cse"@),
{
    ctx.register_pass("cse");
}

/// Register the canonicalizer, `canonicalize`.
pub fn register_canonicalizer(ctx: &mut Context)
    requires
        old(ctx).wf(),
    ensures
        registry_grew(final(ctx), old(ctx)),
        final(ctx).is_registered("canonicalize"@),
{
    ctx.register_pass("canonicalize");
}

/// Register control-flow sinking, `control-flow-sink`.
pub fn register_cf_sink(ctx: &mut Context)
    requires
        old(ctx).wf(),
    ensures
        registry_grew(final(ctx), old(ctx)),
        final(ctx).is_registered("control-flow-sink"@),
{
    ctx.register_pass("control-flow-sink");
}

/// Register the inliner, `inline`.
pub fn register_inliner(ctx: &mut Context)
    requires
        old(ctx).wf(),
    ensures
        registry_grew(final(ctx), old(ctx)),
        final(ctx).is_registered("inline"@),
{
    ctx.register_pass("inline");
}

/// Register the operation-graph viewer, `view-op-graph`.
pub fn register_view_op_graph(ctx: &mut Context)
    requires
        old(ctx).wf(),
    ensures
        registry_grew(final(ctx), old(ctx)),
        final(ctx).is_registered("view-op-graph"@),
{
    ctx.register_pass("view-op-graph");
}

/// Register all general transformation passes.
pub fn register_passes(ctx: &mut Context)
    requires
        old(ctx).wf(),
    ensures
        registry_grew(final(ctx), old(ctx)),
        final(ctx).is_registered("cse"@),
        final(ctx).is_registered("canonicalize"@),
        final(ctx).is_registered("control-flow-sink"@),
        final(ctx).is_registered("inline"@),
        final(ctx).is_registered("view-op-graph"@),
{
    register_cse(ctx);
    register_canonicalizer(ctx);
    register_cf_sink(ctx);
    register_inliner(ctx);
    register_view_op_graph(ctx);
}

pub fn cse() -> (r: Pass)
    ensures
        r.name@ == "cse"@,
{
    Pass { name: String::from_str("cse") }
}

pub fn canonicalize() -> (r: Pass)
    ensures
        r.name@ == "canonicalize"@,
{
    Pass { name: String::from_str("canonicalize") }
}

pub fn cf_sink() -> (r: Pass)
    ensures
        r.name@ == "control-flow-sink"@,
{
    Pass { name: String::from_str("control-flow-sink") }
}

pub fn inliner() -> (r: Pass)
    ensures
        r.name@ == "inline"@,
{
    Pass { name: String::from_str("inline") }
}

pub fn view_op_graph() -> (r: Pass)
    ensures
        r.name@ == "view-op-graph"@,
{
    Pass { name: String::from_str("view-op-graph") }
}

/// Register the lowering of state machines to `sv`, `convert-fsm-to-sv`.
pub fn register_fsm_passes(ctx: &mut Context)
    requires
        old(ctx).wf(),
    ensures
        registry_grew(final(ctx), old(ctx)),
        final(ctx).is_registered("convert-fsm-to-sv"@),
{
    ctx.register_pass("convert-fsm-to-sv");
}

} // verus!

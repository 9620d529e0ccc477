//! Pass managers: a top-level manager anchored on an operation name, nested managers
//! anchored on other names, passes, pipeline text, and runs.
//!
//! A manager's pipeline is stored flat (see `pipeline`): `Open(anchor)` tokens carry the
//! id of the nested manager they start, the top level's id being `0`.
use vstd::prelude::*;
use crate::context::Context;
use crate::error::Error;
use crate::module::Module;
use crate::operation::Operation;
use crate::owned::{IntoOwned, Owned};
use crate::pipeline::{
    is_anchored, parse_anchored, parse_fragment, parse_pipeline_fragment, print_pipeline,
    print_toks, tok_view, toks_view, PipelineToken, Tok,
};
use crate::text::str_eq;
use crate::wrap_raw::{HasRaw, MlirPassManager, WrapRawPtr};

verus! {

pub struct PassManagerData {
    /// The operation name the top level is anchored on.
    pub anchor: String,
    /// The whole pipeline, top level included.
    pub tokens: Vec<PipelineToken>,
    pub verifier: bool,
    pub ir_printing: bool,
    pub next_id: u64,
    pub destroyed: bool,
}

impl PassManagerData {
    pub fn placeholder() -> (r: PassManagerData)
        ensures
            r.destroyed,
    {
        PassManagerData {
            anchor: String::new(),
            tokens: Vec::new(),
            verifier: false,
            ir_printing: false,
            next_id: 1,
            destroyed: true,
        }
    }
}

/// A pass, by its registered name.
pub struct Pass {
    pub name: String,
}

/// A top-level pass manager.
#[derive(Clone, Copy, Debug, PartialEq, Eq, Structural)]
pub struct PassManager(pub MlirPassManager);

/// A view of the pipeline nested under a top-level manager, valid while it stands.
#[derive(Clone, Copy, Debug, PartialEq, Eq, Structural)]
pub struct OpPassManager {
    pub pm: MlirPassManager,
    pub id: u64,
}

impl HasRaw for PassManager {
    type RawType = MlirPassManager;

    open spec fn spec_raw(&self) -> MlirPassManager {
        self.0
    }

    fn raw(&self) -> (r: MlirPassManager) {
        self.0
    }

    fn take_raw(self) -> (r: MlirPassManager) {
        self.0
    }
}

impl WrapRawPtr for PassManager {
    open spec fn spec_is_null(raw: MlirPassManager) -> bool {
        raw.ptr == 0
    }

    fn try_from_raw(raw: MlirPassManager) -> (r: Option<PassManager>) {
        if raw.ptr == 0 {
            None
        } else {
            Some(PassManager(raw))
        }
    }

    fn from_raw(raw: MlirPassManager) -> (r: PassManager) {
        PassManager(raw)
    }
}

// ---- locating a nested pipeline ----

/// The first position at or after `k` of an `Open` token with id `id`, or -1.
pub open spec fn open_from(ts: Seq<PipelineToken>, id: u64, k: int) -> int
    decreases ts.len() - k,
{
    if k < 0 || k >= ts.len() {
        -1
    } else if ts[k] matches PipelineToken::Open { anchor, id: i } && i == id {
        k
    } else {
        open_from(ts, id, k + 1)
    }
}

/// Scanning from `j` with depth `d`: the position where the depth first returns to 0.
pub open spec fn close_scan(ts: Seq<Tok>, j: int, d: int) -> int
    decreases ts.len() - j,
{
    if j < 0 || j >= ts.len() {
        -1
    } else {
        let d2 = match ts[j] {
            Tok::Open(_) => d + 1,
            Tok::Close => d - 1,
            Tok::Pass(_) => d,
        };
        if d2 == 0 {
            j
        } else {
            close_scan(ts, j + 1, d2)
        }
    }
}

/// The `Close` that matches the `Open` at `i`, or -1.
pub open spec fn matching_close(ts: Seq<Tok>, i: int) -> int {
    close_scan(ts, i + 1, 1)
}

fn find_open(ts: &Vec<PipelineToken>, id: u64) -> (r: Option<usize>)
    ensures
        r is Some <==> open_from(ts@, id, 0) >= 0,
        r matches Some(i) ==> i == open_from(ts@, id, 0),
{
    let mut k: usize = 0;
    while k < ts.len()
        invariant
            k <= ts@.len(),
            open_from(ts@, id, 0) == open_from(ts@, id, k as int),
        decreases ts@.len() - k,
    {
        match &ts[k] {
            PipelineToken::Open { anchor, id: i } => {
                if *i == id {
                    return Some(k);
                }
            },
            _ => {},
        }
        k = k + 1;
    }
    None
}

fn find_close(ts: &Vec<PipelineToken>, i: usize) -> (r: Option<usize>)
    ensures
        r is Some <==> matching_close(toks_view(ts@), i as int) >= 0,
        r matches Some(j) ==> j == matching_close(toks_view(ts@), i as int),
{
    let ghost tv = toks_view(ts@);
    if i >= ts.len() {
        return None;
    }
    let mut j: usize = i + 1;
    let mut d: usize = 1;
    while j < ts.len()
        invariant
            tv == toks_view(ts@),
            i < j <= ts@.len(),
            1 <= d <= j - i,
            matching_close(tv, i as int) == close_scan(tv, j as int, d as int),
        decreases ts@.len() - j,
    {
        assert(tv[j as int] == tok_view(ts@[j as int]));
        match &ts[j] {
            PipelineToken::Open { .. } => {
                d = d + 1;
            },
            PipelineToken::Close => {
                if d == 1 {
                    return Some(j);
                }
                d = d - 1;
            },
            PipelineToken::Pass { .. } => {},
        }
        j = j + 1;
    }
    None
}

fn clone_token(t: &PipelineToken) -> (r: PipelineToken)
    ensures
        r == *t,
{
    match t {
        PipelineToken::Open { anchor, id } => PipelineToken::Open { anchor: anchor.clone(), id: *id },
        PipelineToken::Pass { name } => PipelineToken::Pass { name: name.clone() },
        PipelineToken::Close => PipelineToken::Close,
    }
}

/// `old[..from] + mid + old[to..]`.
fn splice(old: &Vec<PipelineToken>, from: usize, to: usize, mid: Vec<PipelineToken>) -> (r: Vec<PipelineToken>)
    requires
        from <= to <= old@.len(),
    ensures
        r@ == old@.take(from as int) + mid@ + old@.skip(to as int),
{
    let mut r: Vec<PipelineToken> = Vec::new();
    let mut k: usize = 0;
    while k < from
        invariant
            k <= from <= old@.len(),
            r@ == old@.take(k as int),
        decreases from - k,
    {
        r.push(clone_token(&old[k]));
        assert(r@ =~= old@.take(k + 1));
        k = k + 1;
    }
    let ghost m0 = mid@;
    let mut mid = mid;
    r.append(&mut mid);
    let ghost r2 = r@;
    assert(r2 == old@.take(from as int) + m0);
    k = to;
    while k < old.len()
        invariant
            to <= k <= old@.len(),
            r@ == r2 + old@.subrange(to as int, k as int),
        decreases old@.len() - k,
    {
        r.push(clone_token(&old[k]));
        assert(r@ =~= r2 + old@.subrange(to as int, k + 1));
        k = k + 1;
    }
    assert(old@.subrange(to as int, old@.len() as int) =~= old@.skip(to as int));
    assert(r@ =~= old@.take(from as int) + m0 + old@.skip(to as int));
    r
}

/// Give each nested pipeline of `ts` a fresh id from `next`; the outermost `Open` gets
/// `outer` instead when `keep_outer` holds.
fn renumber(ts: Vec<PipelineToken>, next: &mut u64, keep_outer: bool, outer: u64) -> (r: Vec<PipelineToken>)
    ensures
        toks_view(r@) == toks_view(ts@),
{
    let mut r: Vec<PipelineToken> = Vec::new();
    let mut rest = ts;
    let ghost all = rest@;
    let mut back: Vec<PipelineToken> = Vec::new();
    while rest.len() > 0
        invariant
            all.len() == back@.len() + rest@.len(),
            forall|k: int| 0 <= k < rest@.len() ==> (#[trigger] rest@[k]) == all[k],
            forall|k: int| 0 <= k < back@.len() ==> (#[trigger] back@[k]) == all[all.len() - 1 - k],
        decreases rest@.len(),
    {
        let t = rest.pop().unwrap();
        back.push(t);
    }
    let mut k: usize = back.len();
    while k > 0
        invariant
            k <= back@.len(),
            all.len() == back@.len(),
            forall|j: int| 0 <= j < back@.len() ==> (#[trigger] back@[j]) == all[all.len() - 1 - j],
            r@.len() == back@.len() - k,
            forall|j: int| 0 <= j < r@.len() ==> tok_view(#[trigger] r@[j]) == tok_view(all[j]),
        decreases k,
    {
        k = k - 1;
        let t = clone_token(&back[k]);
        let first = r.len() == 0;
        let t2 = match t {
            PipelineToken::Open { anchor, id } => {
                let fresh = if first && keep_outer {
                    outer
                } else {
                    let f = *next;
                    if *next < u64::MAX {
                        *next = *next + 1;
                    }
                    f
                };
                PipelineToken::Open { anchor, id: fresh }
            },
            other => other,
        };
        r.push(t2);
    }
    assert(toks_view(r@) =~= toks_view(all));
    r
}

/// Every pass named in `ts` is registered in `ctx`.
pub open spec fn all_registered(ctx: &Context, ts: Seq<Tok>) -> bool {
    forall|k: int|
        0 <= k < ts.len() ==> (#[trigger] ts[k] matches Tok::Pass(n) ==> ctx.is_registered(n))
}

impl Context {
    pub open spec fn is_registered(&self, name: Seq<char>) -> bool {
        exists|j: int| 0 <= j < self.registered_passes@.len() && (#[trigger] self.registered_passes@[j])@ == name
    }

    pub open spec fn valid_pm(&self, pm: MlirPassManager) -> bool {
        1 <= pm.ptr < self.pass_managers@.len() && !self.pass_managers@[pm.ptr as int].destroyed
    }

    /// The pipeline of a manager, as tokens.
    pub open spec fn pm_toks(&self, pm: MlirPassManager) -> Seq<Tok> {
        toks_view(self.pass_managers@[pm.ptr as int].tokens@)
    }

    /// Whether the pass `name` is registered.
    pub fn pass_registered(&self, name: &str) -> (r: bool)
        ensures
            r == self.is_registered(name@),
    {
        let mut j: usize = 0;
        while j < self.registered_passes.len()
            invariant
                j <= self.registered_passes@.len(),
                forall|i: int| 0 <= i < j ==> (#[trigger] self.registered_passes@[i])@ != name@,
            decreases self.registered_passes@.len() - j,
        {
            if str_eq(self.registered_passes[j].as_str(), name) {
                return true;
            }
            j = j + 1;
        }
        false
    }

    /// Register the pass `name`; registering twice is the same as once.
    pub fn register_pass(&mut self, name: &str)
        requires
            old(self).wf(),
        ensures
            final(self).wf(),
            final(self).extends(old(self)),
            final(self).is_registered(name@),
            forall|n: Seq<char>| old(self).is_registered(n) ==> #[trigger] final(self).is_registered(n),
            final(self).same_types_attrs(old(self)),
            final(self).same_structure(old(self)),
            final(self).same_values(old(self)),
            final(self).pass_managers@ == old(self).pass_managers@,
    {
        if !self.pass_registered(name) {
            self.registered_passes.push(String::from_str(name));
            assert(self.registered_passes@[self.registered_passes@.len() - 1]@ == name@);
            assert forall|n: Seq<char>| old(self).is_registered(n) implies #[trigger] self.is_registered(n) by {
                let j = choose|j: int| 0 <= j < old(self).registered_passes@.len() && (#[trigger] old(self).registered_passes@[j])@ == n;
                assert(self.registered_passes@[j] == old(self).registered_passes@[j]);
            }
        }
    }

    fn check_registered(&self, ts: &Vec<PipelineToken>) -> (r: bool)
        ensures
            r == all_registered(self, toks_view(ts@)),
    {
        let ghost tv = toks_view(ts@);
        let mut k: usize = 0;
        while k < ts.len()
            invariant
                tv == toks_view(ts@),
                k <= ts@.len(),
                forall|j: int| 0 <= j < k ==> (#[trigger] tv[j] matches Tok::Pass(n) ==> self.is_registered(n)),
            decreases ts@.len() - k,
        {
            assert(tv[k as int] == tok_view(ts@[k as int]));
            match &ts[k] {
                PipelineToken::Pass { name } => {
                    if !self.pass_registered(name.as_str()) {
                        return false;
                    }
                },
                _ => {},
            }
            k = k + 1;
        }
        true
    }
}

/// What a pass-manager call may change: only the data of manager `pm`.
pub open spec fn pm_changed(new: &Context, old: &Context, pm: MlirPassManager) -> bool {
    &&& new.wf()
    &&& new.extends(old)
    &&& new.same_types_attrs(old)
    &&& new.same_structure(old)
    &&& new.same_values(old)
    &&& new.registered_passes@ == old.registered_passes@
    &&& new.loaded_dialects@ == old.loaded_dialects@
    &&& new.allow_unregistered_dialects == old.allow_unregistered_dialects
    &&& new.pass_managers@.len() == old.pass_managers@.len()
    &&& forall|i: int| 0 <= i < old.pass_managers@.len() && i != pm.ptr ==> new.pass_managers@[i] == #[trigger] old.pass_managers@[i]
    &&& new.pass_managers@[pm.ptr as int].anchor == old.pass_managers@[pm.ptr as int].anchor
    &&& new.pass_managers@[pm.ptr as int].destroyed == old.pass_managers@[pm.ptr as int].destroyed
}

/// Where the pipeline of the nested manager `opm` starts and ends in its top level, if
/// it is still there.
pub open spec fn span_of(ctx: &Context, opm: OpPassManager) -> (int, int) {
    let ts = ctx.pass_managers@[opm.pm.ptr as int].tokens@;
    let i = open_from(ts, opm.id, 0);
    (i, matching_close(toks_view(ts), i))
}

pub open spec fn span_ok(ctx: &Context, opm: OpPassManager) -> bool {
    ctx.valid_pm(opm.pm) && span_of(ctx, opm).0 >= 0 && span_of(ctx, opm).1 >= 0
}

impl PassManager {
    /// A new top-level manager anchored on `builtin.module`.
    pub fn new(ctx: &mut Context) -> (r: PassManager)
        requires
            old(ctx).wf(),
        ensures
            final(ctx).wf(),
            final(ctx).extends(old(ctx)),
            final(ctx).valid_pm(r.0),
            final(ctx).pm_toks(r.0) == seq![Tok::Open("builtin.module"@), Tok::Close],
            final(ctx).pass_managers@[r.0.ptr as int].anchor@ == "builtin.module"@,
            !final(ctx).pass_managers@[r.0.ptr as int].verifier,
            r.0.ptr == old(ctx).pass_managers@.len(),
            final(ctx).pass_managers@.len() == old(ctx).pass_managers@.len() + 1,
            forall|i: int| 0 <= i < old(ctx).pass_managers@.len() ==> final(ctx).pass_managers@[i] == old(ctx).pass_managers@[i],
            final(ctx).same_types_attrs(old(ctx)),
            final(ctx).same_structure(old(ctx)),
            final(ctx).same_values(old(ctx)),
            final(ctx).registered_passes@ == old(ctx).registered_passes@,
    {
        PassManager::new_anchored_on(ctx, "builtin.module")
    }

    /// A new top-level manager anchored on `anchor_op`.
    pub fn new_anchored_on(ctx: &mut Context, anchor_op: &str) -> (r: PassManager)
        requires
            old(ctx).wf(),
        ensures
            final(ctx).wf(),
            final(ctx).extends(old(ctx)),
            final(ctx).valid_pm(r.0),
            r.0.ptr == old(ctx).pass_managers@.len(),
            final(ctx).pass_managers@.len() == old(ctx).pass_managers@.len() + 1,
            forall|i: int| 0 <= i < old(ctx).pass_managers@.len() ==> final(ctx).pass_managers@[i] == old(ctx).pass_managers@[i],
            final(ctx).pm_toks(r.0) == seq![Tok::Open(anchor_op@), Tok::Close],
            final(ctx).pass_managers@[r.0.ptr as int].anchor@ == anchor_op@,
            !final(ctx).pass_managers@[r.0.ptr as int].verifier,
            final(ctx).same_types_attrs(old(ctx)),
            final(ctx).same_structure(old(ctx)),
            final(ctx).same_values(old(ctx)),
            final(ctx).registered_passes@ == old(ctx).registered_passes@,
    {
        let mut tokens: Vec<PipelineToken> = Vec::new();
        tokens.push(PipelineToken::Open { anchor: String::from_str(anchor_op), id: 0 });
        tokens.push(PipelineToken::Close);
        assert(toks_view(tokens@) =~= seq![Tok::Open(anchor_op@), Tok::Close]);
        let n = ctx.pass_managers.len();
        ctx.pass_managers.push(
            PassManagerData {
                anchor: String::from_str(anchor_op),
                tokens,
                verifier: false,
                ir_printing: false,
                next_id: 1,
                destroyed: false,
            },
        );
        PassManager(MlirPassManager { ptr: n })
    }

    /// The top level seen as an `OpPassManager`.
    pub fn as_op_pass_manager(&self) -> (r: OpPassManager)
        ensures
            r.pm == self.0,
            r.id == 0,
    {
        OpPassManager { pm: self.0, id: 0 }
    }

    /// Turn per-pass IR verification on or off.
    pub fn enable_verifier(&self, ctx: &mut Context, enable: bool)
        requires
            old(ctx).wf(),
            old(ctx).valid_pm(self.0),
        ensures
            pm_changed(final(ctx), old(ctx), self.0),
            final(ctx).pass_managers@[self.0.ptr as int].verifier == enable,
            final(ctx).pass_managers@[self.0.ptr as int].tokens == old(ctx).pass_managers@[self.0.ptr as int].tokens,
    {
        ctx.pass_managers[self.0.ptr].verifier = enable;
        assert(forall|i: int| 0 <= i < old(ctx).pass_managers@.len() && i != self.0.ptr ==> ctx.pass_managers@[i] == old(ctx).pass_managers@[i]);
    }

    /// Whether per-pass verification is on.
    pub fn verifier_enabled(&self, ctx: &Context) -> (r: bool)
        requires
            ctx.valid_pm(self.0),
        ensures
            r == ctx.pass_managers@[self.0.ptr as int].verifier,
    {
        ctx.pass_managers[self.0.ptr].verifier
    }

    /// Whether the IR is to be printed after each pass.
    pub fn ir_printing_enabled(&self, ctx: &Context) -> (r: bool)
        requires
            ctx.valid_pm(self.0),
        ensures
            r == ctx.pass_managers@[self.0.ptr as int].ir_printing,
    {
        ctx.pass_managers[self.0.ptr].ir_printing
    }

    /// Ask for the IR to be printed after each pass; whoever executes the passes reads
    /// the flag.
    pub fn enable_ir_printing(&self, ctx: &mut Context)
        requires
            old(ctx).wf(),
            old(ctx).valid_pm(self.0),
        ensures
            pm_changed(final(ctx), old(ctx), self.0),
            final(ctx).pass_managers@[self.0.ptr as int].ir_printing,
            final(ctx).pass_managers@[self.0.ptr as int].tokens == old(ctx).pass_managers@[self.0.ptr as int].tokens,
    {
        ctx.pass_managers[self.0.ptr].ir_printing = true;
        assert(forall|i: int| 0 <= i < old(ctx).pass_managers@.len() && i != self.0.ptr ==> ctx.pass_managers@[i] == old(ctx).pass_managers@[i]);
    }

    /// Replace the whole pipeline by the one `pipeline` describes, which must be anchored
    /// on this manager's anchor and name only registered passes. On failure nothing
    /// changes.
    pub fn parse(&self, ctx: &mut Context, pipeline: &str) -> (r: Result<PassManager, Error>)
        requires
            old(ctx).wf(),
            old(ctx).valid_pm(self.0),
        ensures
            r is Ok <==> (parse_anchored(pipeline@, old(ctx).pass_managers@[self.0.ptr as int].anchor@) is Some
                && all_registered(old(ctx), parse_fragment(pipeline@)->0)),
            r matches Ok(p) ==> p == *self && pm_changed(final(ctx), old(ctx), self.0)
                && final(ctx).pm_toks(self.0) == parse_fragment(pipeline@)->0
                && final(ctx).pass_managers@[self.0.ptr as int].verifier == old(ctx).pass_managers@[self.0.ptr as int].verifier,
            r matches Err(e) ==> e is PipelineParse && *final(ctx) == *old(ctx),
    {
        let parsed = parse_pipeline_fragment(pipeline);
        let ts = match parsed {
            Some(ts) => ts,
            None => {
                return Err(Error::PipelineParse(String::from_str("invalid pass pipeline text")));
            },
        };
        if !anchored_on(&ts, ctx.pass_managers[self.0.ptr].anchor.as_str()) {
            return Err(
                Error::PipelineParse(
                    String::from_str("the pipeline must be anchored on the manager's operation"),
                ),
            );
        }
        if !ctx.check_registered(&ts) {
            return Err(Error::PipelineParse(String::from_str("the pipeline names an unregistered pass")));
        }
        let mut next = ctx.pass_managers[self.0.ptr].next_id;
        let ts2 = renumber(ts, &mut next, true, 0);
        ctx.pass_managers[self.0.ptr].tokens = ts2;
        ctx.pass_managers[self.0.ptr].next_id = next;
        assert(forall|i: int| 0 <= i < old(ctx).pass_managers@.len() && i != self.0.ptr ==> ctx.pass_managers@[i] == old(ctx).pass_managers@[i]);
        Ok(*self)
    }

    /// Add the passes and nested pipelines that `pipeline` lists at the end of the top
    /// level.
    pub fn parse_pass(&self, ctx: &mut Context, pipeline: &str) -> (r: Result<PassManager, Error>)
        requires
            old(ctx).wf(),
            old(ctx).valid_pm(self.0),
        ensures
            r is Ok <==> (span_ok(old(ctx), self.as_op_pass_manager_spec()) && parse_fragment(pipeline@) is Some
                && all_registered(old(ctx), parse_fragment(pipeline@)->0)),
            r matches Ok(p) ==> p == *self && pm_changed(final(ctx), old(ctx), self.0)
                && final(ctx).pm_toks(self.0) == old(ctx).pm_toks(self.0).take(span_of(old(ctx), self.as_op_pass_manager_spec()).1)
                + parse_fragment(pipeline@)->0 + old(ctx).pm_toks(self.0).skip(span_of(old(ctx), self.as_op_pass_manager_spec()).1),
            r matches Err(e) ==> *final(ctx) == *old(ctx),
    {
        let opm = self.as_op_pass_manager();
        match opm.parse_pass(ctx, pipeline) {
            Ok(_) => Ok(*self),
            Err(e) => Err(e),
        }
    }

    pub open spec fn as_op_pass_manager_spec(&self) -> OpPassManager {
        OpPassManager { pm: self.0, id: 0 }
    }

    /// Nest a new manager anchored on `operation_name` at the end of the top level.
    pub fn nest(&self, ctx: &mut Context, operation_name: &str) -> (r: Option<OpPassManager>)
        requires
            old(ctx).wf(),
            old(ctx).valid_pm(self.0),
        ensures
            r is Some <==> span_ok(old(ctx), self.as_op_pass_manager_spec()),
            r matches Some(n) ==> n.pm == self.0 && pm_changed(final(ctx), old(ctx), self.0)
                && final(ctx).pm_toks(self.0) == old(ctx).pm_toks(self.0).take(span_of(old(ctx), self.as_op_pass_manager_spec()).1)
                + seq![Tok::Open(operation_name@), Tok::Close] + old(ctx).pm_toks(self.0).skip(span_of(old(ctx), self.as_op_pass_manager_spec()).1),
            r is None ==> *final(ctx) == *old(ctx),
    {
        self.as_op_pass_manager().nest(ctx, operation_name)
    }

    /// Add `pass` at the end of the top level.
    pub fn add_pass(&self, ctx: &mut Context, pass: &Pass) -> (r: bool)
        requires
            old(ctx).wf(),
            old(ctx).valid_pm(self.0),
        ensures
            r <==> span_ok(old(ctx), self.as_op_pass_manager_spec()),
            r ==> pm_changed(final(ctx), old(ctx), self.0)
                && final(ctx).pm_toks(self.0) == old(ctx).pm_toks(self.0).take(span_of(old(ctx), self.as_op_pass_manager_spec()).1)
                + seq![Tok::Pass(pass.name@)] + old(ctx).pm_toks(self.0).skip(span_of(old(ctx), self.as_op_pass_manager_spec()).1),
            !r ==> *final(ctx) == *old(ctx),
    {
        self.as_op_pass_manager().add_pass(ctx, pass)
    }

    /// The pipeline as text, such as `builtin.module(cse,hw.module(canonicalize))`.
    pub fn print(&self, ctx: &Context) -> (r: String)
        requires
            ctx.valid_pm(self.0),
        ensures
            r@ == print_toks(ctx.pm_toks(self.0)),
    {
        let mut out = String::new();
        print_pipeline(&ctx.pass_managers[self.0.ptr].tokens, &mut out);
        assert(out@ =~= print_toks(ctx.pm_toks(self.0)));
        out
    }

    /// The checks made before the pipeline runs on `module`: the module's operation is
    /// alive and carries the manager's anchor name, and, when the verifier is on, it
    /// passes the store's structural check. `Ok` means the pipeline may run; executing
    /// the passes themselves is the work of the IR library's pass implementations, which
    /// this store does not hold. On failure the error names the module's operation (empty
    /// when it is not alive).
    pub fn run(&self, ctx: &Context, module: &Module) -> (r: Result<(), Error>)
        requires
            ctx.wf(),
            ctx.valid_pm(self.0),
        ensures
            r is Ok <==> (ctx.valid_op(module.0) && ctx.ops@[module.0.ptr as int].name@
                == ctx.pass_managers@[self.0.ptr as int].anchor@
                && (ctx.pass_managers@[self.0.ptr as int].verifier ==> crate::operation::op_verifies(ctx, module.0))),
            r matches Err(e) ==> crate::error::is_run_failure(e, if ctx.valid_op(module.0) {
                ctx.ops@[module.0.ptr as int].name@
            } else {
                Seq::empty()
            }),
    {
        let op = Operation(module.0);
        if module.0.ptr == 0 || module.0.ptr >= ctx.ops.len() || ctx.ops[module.0.ptr].destroyed {
            return Err(Error::PassManagerRunFailure(String::new()));
        }
        let name = op.name(ctx);
        if !str_eq(name.as_str(), ctx.pass_managers[self.0.ptr].anchor.as_str()) {
            return Err(Error::PassManagerRunFailure(name));
        }
        if ctx.pass_managers[self.0.ptr].verifier && !op.verify(ctx) {
            return Err(Error::PassManagerRunFailure(name));
        }
        Ok(())
    }
}

/// Whether tokens form one pipeline anchored on `anchor`.
fn anchored_on(ts: &Vec<PipelineToken>, anchor: &str) -> (r: bool)
    ensures
        r == is_anchored(toks_view(ts@), anchor@),
{
    let ghost tv = toks_view(ts@);
    let n = ts.len();
    if n < 2 {
        return false;
    }
    let first_ok = match &ts[0] {
        PipelineToken::Open { anchor: a, id } => str_eq(a.as_str(), anchor),
        _ => false,
    };
    assert(tv[0] == tok_view(ts@[0]));
    if !first_ok {
        return false;
    }
    let last_close = match &ts[n - 1] {
        PipelineToken::Close => true,
        _ => false,
    };
    assert(tv[n - 1] == tok_view(ts@[n - 1]));
    assert(tv.last() == tv[n - 1]);
    if !last_close {
        return false;
    }
    // the depth stays positive until the last token
    let mut k: usize = 1;
    let mut d: usize = 1;
    assert(tv.take(1).drop_last() =~= Seq::<Tok>::empty());
    assert(tv.take(1).last() == tv[0]);
    assert(crate::pipeline::depth(Seq::<Tok>::empty()) == 0);
    assert(crate::pipeline::depth(tv.take(1)) == 1);
    while k < n
        invariant
            tv == toks_view(ts@),
            n == ts@.len(),
            n >= 2,
            tv[0] == Tok::Open(anchor@),
            tv.last() is Close,
            1 <= k <= n,
            1 <= d <= k,
            crate::pipeline::depth(tv.take(k as int)) == d,
            forall|j: int| 1 <= j < k ==> crate::pipeline::depth(#[trigger] tv.take(j)) > 0,
        decreases n - k,
    {
        assert(tv.take(k + 1).drop_last() =~= tv.take(k as int));
        assert(tv.take(k + 1).last() == tv[k as int]);
        assert(tv[k as int] == tok_view(ts@[k as int]));
        match &ts[k] {
            PipelineToken::Open { .. } => {
                d = d + 1;
            },
            PipelineToken::Close => {
                if d == 1 && k + 1 < n {
                    assert(crate::pipeline::depth(tv.take(k + 1)) == 0);
                    return false;
                }
                if d == 1 {
                    assert(k + 1 == n);
                    assert(forall|j: int| 1 <= j < n ==> crate::pipeline::depth(#[trigger] tv.take(j)) > 0) by {
                        assert(crate::pipeline::depth(tv.take(k as int)) > 0);
                    }
                    return true;
                }
                d = d - 1;
            },
            PipelineToken::Pass { .. } => {},
        }
        k = k + 1;
    }
    true
}

/// The anchor of the `Open` token at `i`.
pub open spec fn anchor_at(ts: Seq<PipelineToken>, i: int) -> Seq<char> {
    match ts[i] {
        PipelineToken::Open { anchor, id } => anchor@,
        _ => Seq::empty(),
    }
}

impl OpPassManager {
    /// Replace this manager's pipeline by the one `pipeline` describes, which must be
    /// anchored on this manager's anchor and name only registered passes. On failure
    /// nothing changes.
    pub fn parse(&self, ctx: &mut Context, pipeline: &str) -> (r: Result<OpPassManager, Error>)
        requires
            old(ctx).wf(),
            old(ctx).valid_pm(self.pm),
        ensures
            r is Ok <==> (span_ok(old(ctx), *self) && parse_anchored(pipeline@, anchor_at(
                old(ctx).pass_managers@[self.pm.ptr as int].tokens@,
                span_of(old(ctx), *self).0,
            )) is Some && all_registered(old(ctx), parse_fragment(pipeline@)->0)),
            r matches Ok(p) ==> p == *self && pm_changed(final(ctx), old(ctx), self.pm)
                && final(ctx).pm_toks(self.pm) == old(ctx).pm_toks(self.pm).take(span_of(old(ctx), *self).0)
                + parse_fragment(pipeline@)->0 + old(ctx).pm_toks(self.pm).skip(span_of(old(ctx), *self).1 + 1),
            r matches Err(e) ==> *final(ctx) == *old(ctx),
    {
        let i = match find_open(&ctx.pass_managers[self.pm.ptr].tokens, self.id) {
            Some(i) => i,
            None => {
                return Err(Error::SimpleError(String::from_str("the pass manager is no longer there")));
            },
        };
        let j = match find_close(&ctx.pass_managers[self.pm.ptr].tokens, i) {
            Some(j) => j,
            None => {
                return Err(Error::SimpleError(String::from_str("the pass manager is no longer there")));
            },
        };
        let ghost old_ts = ctx.pass_managers@[self.pm.ptr as int].tokens@;
        let n = ctx.pass_managers[self.pm.ptr].tokens.len();
        proof {
            lemma_close_scan_bound(toks_view(old_ts), i + 1, 1);
            lemma_open_from_is_open(old_ts, self.id, 0);
        }
        let parsed = parse_pipeline_fragment(pipeline);
        let ts = match parsed {
            Some(ts) => ts,
            None => {
                return Err(Error::PipelineParse(String::from_str("invalid pass pipeline text")));
            },
        };
        let ok_anchor = match &ctx.pass_managers[self.pm.ptr].tokens[i] {
            PipelineToken::Open { anchor, id } => anchored_on(&ts, anchor.as_str()),
            _ => false,
        };
        if !ok_anchor {
            return Err(
                Error::PipelineParse(
                    String::from_str("the pipeline must be anchored on the manager's operation"),
                ),
            );
        }
        if !ctx.check_registered(&ts) {
            return Err(Error::PipelineParse(String::from_str("the pipeline names an unregistered pass")));
        }
        let mut next = ctx.pass_managers[self.pm.ptr].next_id;
        let ts2 = renumber(ts, &mut next, true, self.id);
        let ghost mv = ts2@;
        let new_ts = splice(&ctx.pass_managers[self.pm.ptr].tokens, i, j + 1, ts2);
        ctx.pass_managers[self.pm.ptr].tokens = new_ts;
        ctx.pass_managers[self.pm.ptr].next_id = next;
        assert(forall|k: int| 0 <= k < old(ctx).pass_managers@.len() && k != self.pm.ptr ==> ctx.pass_managers@[k] == old(ctx).pass_managers@[k]);
        proof {
            let nt = ctx.pass_managers@[self.pm.ptr as int].tokens@;
            assert(toks_view(nt) =~= toks_view(old_ts).take(i as int) + toks_view(mv) + toks_view(old_ts).skip(j + 1));
        }
        Ok(*self)
    }

    /// Add the passes and nested pipelines that `pipeline` lists at the end of this
    /// manager's pipeline.
    pub fn parse_pass(&self, ctx: &mut Context, pipeline: &str) -> (r: Result<OpPassManager, Error>)
        requires
            old(ctx).wf(),
            old(ctx).valid_pm(self.pm),
        ensures
            r is Ok <==> (span_ok(old(ctx), *self) && parse_fragment(pipeline@) is Some
                && all_registered(old(ctx), parse_fragment(pipeline@)->0)),
            r matches Ok(p) ==> p == *self && pm_changed(final(ctx), old(ctx), self.pm)
                && final(ctx).pm_toks(self.pm) == old(ctx).pm_toks(self.pm).take(span_of(old(ctx), *self).1)
                + parse_fragment(pipeline@)->0 + old(ctx).pm_toks(self.pm).skip(span_of(old(ctx), *self).1),
            r matches Err(e) ==> *final(ctx) == *old(ctx),
    {
        let parsed = parse_pipeline_fragment(pipeline);
        let ts = match parsed {
            Some(ts) => ts,
            None => {
                return Err(Error::PipelineParse(String::from_str("invalid pass pipeline text")));
            },
        };
        if !ctx.check_registered(&ts) {
            return Err(Error::PipelineParse(String::from_str("the pipeline names an unregistered pass")));
        }
        let mut next = ctx.pass_managers[self.pm.ptr].next_id;
        let ts2 = renumber(ts, &mut next, false, 0);
        match self.insert_tokens(ctx, ts2, next) {
            true => Ok(*self),
            false => Err(Error::SimpleError(String::from_str("the pass manager is no longer there"))),
        }
    }

    /// Insert `mid` before the end of this manager's pipeline.
    fn insert_tokens(&self, ctx: &mut Context, mid: Vec<PipelineToken>, next: u64) -> (r: bool)
        requires
            old(ctx).wf(),
            old(ctx).valid_pm(self.pm),
        ensures
            r <==> span_ok(old(ctx), *self),
            r ==> pm_changed(final(ctx), old(ctx), self.pm)
                && final(ctx).pm_toks(self.pm) == old(ctx).pm_toks(self.pm).take(span_of(old(ctx), *self).1)
                + toks_view(mid@) + old(ctx).pm_toks(self.pm).skip(span_of(old(ctx), *self).1),
            !r ==> *final(ctx) == *old(ctx),
    {
        let i = match find_open(&ctx.pass_managers[self.pm.ptr].tokens, self.id) {
            Some(i) => i,
            None => {
                return false;
            },
        };
        let j = match find_close(&ctx.pass_managers[self.pm.ptr].tokens, i) {
            Some(j) => j,
            None => {
                return false;
            },
        };
        let ghost old_ts = ctx.pass_managers@[self.pm.ptr as int].tokens@;
        let ghost mv = mid@;
        assert(j < old_ts.len()) by {
            lemma_close_scan_bound(toks_view(old_ts), i + 1, 1);
        }
        let new_ts = splice(&ctx.pass_managers[self.pm.ptr].tokens, j, j, mid);
        ctx.pass_managers[self.pm.ptr].tokens = new_ts;
        ctx.pass_managers[self.pm.ptr].next_id = next;
        assert(forall|k: int| 0 <= k < old(ctx).pass_managers@.len() && k != self.pm.ptr ==> ctx.pass_managers@[k] == old(ctx).pass_managers@[k]);
        proof {
            let nt = ctx.pass_managers@[self.pm.ptr as int].tokens@;
            assert(nt == old_ts.take(j as int) + mv + old_ts.skip(j as int));
            assert(toks_view(nt) =~= toks_view(old_ts).take(j as int) + toks_view(mv) + toks_view(old_ts).skip(j as int));
        }
        true
    }

    /// Nest a new manager anchored on `operation_name` at the end of this one.
    pub fn nest(&self, ctx: &mut Context, operation_name: &str) -> (r: Option<OpPassManager>)
        requires
            old(ctx).wf(),
            old(ctx).valid_pm(self.pm),
        ensures
            r is Some <==> span_ok(old(ctx), *self),
            r matches Some(n) ==> n.pm == self.pm && pm_changed(final(ctx), old(ctx), self.pm)
                && final(ctx).pm_toks(self.pm) == old(ctx).pm_toks(self.pm).take(span_of(old(ctx), *self).1)
                + seq![Tok::Open(operation_name@), Tok::Close] + old(ctx).pm_toks(self.pm).skip(span_of(old(ctx), *self).1),
            r is None ==> *final(ctx) == *old(ctx),
    {
        let id = ctx.pass_managers[self.pm.ptr].next_id;
        let next = if id < u64::MAX {
            id + 1
        } else {
            id
        };
        let mut mid: Vec<PipelineToken> = Vec::new();
        mid.push(PipelineToken::Open { anchor: String::from_str(operation_name), id });
        mid.push(PipelineToken::Close);
        assert(toks_view(mid@) =~= seq![Tok::Open(operation_name@), Tok::Close]);
        if self.insert_tokens(ctx, mid, next) {
            Some(OpPassManager { pm: self.pm, id })
        } else {
            None
        }
    }

    /// Add `pass` at the end of this manager's pipeline.
    pub fn add_pass(&self, ctx: &mut Context, pass: &Pass) -> (r: bool)
        requires
            old(ctx).wf(),
            old(ctx).valid_pm(self.pm),
        ensures
            r <==> span_ok(old(ctx), *self),
            r ==> pm_changed(final(ctx), old(ctx), self.pm)
                && final(ctx).pm_toks(self.pm) == old(ctx).pm_toks(self.pm).take(span_of(old(ctx), *self).1)
                + seq![Tok::Pass(pass.name@)] + old(ctx).pm_toks(self.pm).skip(span_of(old(ctx), *self).1),
            !r ==> *final(ctx) == *old(ctx),
    {
        let next = ctx.pass_managers[self.pm.ptr].next_id;
        let mut mid: Vec<PipelineToken> = Vec::new();
        mid.push(PipelineToken::Pass { name: pass.name.clone() });
        assert(toks_view(mid@) =~= seq![Tok::Pass(pass.name@)]);
        self.insert_tokens(ctx, mid, next)
    }

    /// This manager's pipeline as text, such as `hw.module(cse)`.
    pub fn print(&self, ctx: &Context) -> (r: String)
        requires
            ctx.valid_pm(self.pm),
        ensures
            span_ok(ctx, *self) ==> r@ == print_toks(ctx.pm_toks(self.pm).subrange(span_of(ctx, *self).0, span_of(ctx, *self).1 + 1)),
    {
        let ts = &ctx.pass_managers[self.pm.ptr].tokens;
        let i = match find_open(ts, self.id) {
            Some(i) => i,
            None => {
                return String::new();
            },
        };
        let j = match find_close(ts, i) {
            Some(j) => j,
            None => {
                return String::new();
            },
        };
        proof {
            lemma_close_scan_bound(toks_view(ts@), i + 1, 1);
        }
        let n = ts.len();
        let mut sub: Vec<PipelineToken> = Vec::new();
        let mut k: usize = i;
        while k <= j
            invariant
                n == ts@.len(),
                i <= k <= j + 1,
                j < ts@.len(),
                sub@ == ts@.subrange(i as int, k as int),
            decreases j + 1 - k,
        {
            sub.push(clone_token(&ts[k]));
            assert(sub@ =~= ts@.subrange(i as int, k + 1));
            k = k + 1;
        }
        let mut out = String::new();
        print_pipeline(&sub, &mut out);
        assert(toks_view(sub@) =~= toks_view(ts@).subrange(i as int, j + 1));
        assert(out@ =~= print_toks(toks_view(sub@)));
        out
    }
}

/// A manager holding the pipeline parsed from some text prints to text that parses back
/// to the same pipeline: the same nesting structure and pass names.
pub proof fn lemma_manager_print_reparses(ctx: &Context, pm: PassManager, text: Seq<char>)
    requires
        parse_fragment(text) is Some,
        ctx.pm_toks(pm.0) == parse_fragment(text)->0,
    ensures
        parse_fragment(print_toks(ctx.pm_toks(pm.0))) == Some(ctx.pm_toks(pm.0)),
{
    crate::pipeline::lemma_parse_print_parse(text);
}

proof fn lemma_open_from_is_open(ts: Seq<PipelineToken>, id: u64, k: int)
    requires
        k >= 0,
    ensures
        open_from(ts, id, k) >= 0 ==> open_from(ts, id, k) < ts.len() && ts[open_from(ts, id, k)] is Open,
    decreases ts.len() - k,
{
    if k < ts.len() {
        lemma_open_from_is_open(ts, id, k + 1);
    }
}

proof fn lemma_close_scan_bound(ts: Seq<Tok>, j: int, d: int)
    ensures
        close_scan(ts, j, d) < ts.len(),
        close_scan(ts, j, d) >= 0 ==> close_scan(ts, j, d) >= j,
    decreases ts.len() - j,
{
    if 0 <= j < ts.len() {
        let d2 = match ts[j] {
            Tok::Open(_) => d + 1,
            Tok::Close => d - 1,
            Tok::Pass(_) => d,
        };
        if d2 != 0 {
            lemma_close_scan_bound(ts, j + 1, d2);
        }
    }
}

impl IntoOwned for PassManager {
    open spec fn spec_can_destroy(&self, ctx: &Context) -> bool {
        ctx.valid_pm(self.0)
    }

    open spec fn spec_destroyed(&self, ctx: &Context) -> bool {
        1 <= self.0.ptr < ctx.pass_managers@.len() && ctx.pass_managers@[self.0.ptr as int].destroyed
    }

    fn destroy(&self, ctx: &mut Context) {
        ctx.pass_managers[self.0.ptr].destroyed = true;
    }

    proof fn lemma_destroyed_final(&self, ctx: &Context) {
    }
}

impl Owned<PassManager> {
    /// A new owned top-level manager anchored on `builtin.module`.
    pub fn new(ctx: &mut Context) -> (r: Owned<PassManager>)
        requires
            old(ctx).wf(),
        ensures
            final(ctx).wf(),
            final(ctx).extends(old(ctx)),
            final(ctx).valid_pm(r.view_inner().0),
            final(ctx).pm_toks(r.view_inner().0) == seq![Tok::Open("builtin.module"@), Tok::Close],
            final(ctx).pass_managers@[r.view_inner().0.ptr as int].anchor@ == "builtin.module"@,
            !final(ctx).pass_managers@[r.view_inner().0.ptr as int].verifier,
            r.view_inner().0.ptr == old(ctx).pass_managers@.len(),
            final(ctx).pass_managers@.len() == old(ctx).pass_managers@.len() + 1,
            forall|i: int| 0 <= i < old(ctx).pass_managers@.len() ==> final(ctx).pass_managers@[i] == old(ctx).pass_managers@[i],
            final(ctx).same_types_attrs(old(ctx)),
            final(ctx).same_structure(old(ctx)),
            final(ctx).same_values(old(ctx)),
            final(ctx).registered_passes@ == old(ctx).registered_passes@,
    {
        Owned::wrap(PassManager::new(ctx))
    }
}

} // verus!

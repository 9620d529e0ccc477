//! Ownership of entities that must be destroyed exactly once, and success flags.
use vstd::prelude::*;
use crate::context::Context;
use crate::wrap_raw::{HasRaw, MlirLogicalResult, WrapRaw};

verus! {

/// An entity that the caller owns and must release exactly once.
pub trait IntoOwned: Sized {
    /// The entity is alive and owned by nobody in the store, so the caller may destroy it.
    spec fn spec_can_destroy(&self, ctx: &Context) -> bool;

    spec fn spec_destroyed(&self, ctx: &Context) -> bool;

    fn destroy(&self, ctx: &mut Context)
        requires
            old(ctx).wf(),
            self.spec_can_destroy(old(ctx)),
        ensures
            final(ctx).wf(),
            final(ctx).extends(old(ctx)),
            self.spec_destroyed(final(ctx)),
    ;

    /// A destroyed entity cannot be destroyed again.
    proof fn lemma_destroyed_final(&self, ctx: &Context)
        ensures
            self.spec_destroyed(ctx) ==> !self.spec_can_destroy(ctx),
    ;
}

/// The owning wrapper of an entity. It is moved, never copied: attaching the entity to a
/// parent consumes it, and so does `release`.
pub struct Owned<T: IntoOwned>(T);

impl<T: IntoOwned> Owned<T> {
    pub closed spec fn view_inner(&self) -> T {
        self.0
    }

    pub(crate) fn wrap(x: T) -> (r: Owned<T>)
        ensures
            r.view_inner() == x,
    {
        Owned(x)
    }

    /// The entity, to be used as a borrowed handle.
    pub fn get(&self) -> (r: &T)
        ensures
            *r == self.view_inner(),
    {
        &self.0
    }

    /// Give up ownership, for attaching the entity to a parent.
    pub(crate) fn into_inner(self) -> (r: T)
        ensures
            r == self.view_inner(),
    {
        self.0
    }

    /// Destroy the entity.
    pub fn release(self, ctx: &mut Context)
        requires
            old(ctx).wf(),
            self.view_inner().spec_can_destroy(old(ctx)),
        ensures
            final(ctx).wf(),
            final(ctx).extends(old(ctx)),
            self.view_inner().spec_destroyed(final(ctx)),
    {
        self.0.destroy(ctx);
    }
}

/// Success or failure of an operation, with no payload.
#[derive(Clone, Copy, Debug, PartialEq, Eq, Structural)]
pub struct LogicalResult(pub MlirLogicalResult);

impl HasRaw for LogicalResult {
    type RawType = MlirLogicalResult;

    open spec fn spec_raw(&self) -> MlirLogicalResult {
        self.0
    }

    fn raw(&self) -> (r: MlirLogicalResult) {
        self.0
    }

    fn take_raw(self) -> (r: MlirLogicalResult) {
        self.0
    }
}

impl WrapRaw for LogicalResult {
    fn from_raw(raw: MlirLogicalResult) -> (r: LogicalResult) {
        LogicalResult(raw)
    }
}

impl LogicalResult {
    pub open spec fn spec_success(&self) -> bool {
        self.0.value != 0
    }

    pub fn success() -> (r: LogicalResult)
        ensures
            r.spec_success(),
    {
        LogicalResult(MlirLogicalResult { value: 1 })
    }

    pub fn failure() -> (r: LogicalResult)
        ensures
            !r.spec_success(),
    {
        LogicalResult(MlirLogicalResult { value: 0 })
    }

    pub fn from_bool(value: bool) -> (r: LogicalResult)
        ensures
            r.spec_success() == value,
    {
        if value {
            LogicalResult::success()
        } else {
            LogicalResult::failure()
        }
    }

    pub fn is_success(&self) -> (r: bool)
        ensures
            r == self.spec_success(),
    {
        self.0.value != 0
    }

    /// `Some(ok)` on success, `None` on failure.
    pub fn to_option<T>(&self, ok: T) -> (r: Option<T>)
        ensures
            r == if self.spec_success() {
                Some(ok)
            } else {
                None
            },
    {
        if self.is_success() {
            Some(ok)
        } else {
            None
        }
    }

    /// `Ok(ok)` on success, `Err(err)` on failure.
    pub fn to_result<T, E>(&self, ok: T, err: E) -> (r: Result<T, E>)
        ensures
            r == if self.spec_success() {
                Ok::<T, E>(ok)
            } else {
                Err::<T, E>(err)
            },
    {
        if self.is_success() {
            Ok(ok)
        } else {
            Err(err)
        }
    }
}

} // verus!

//! Source locations attached to operations.
use vstd::prelude::*;
use crate::context::{Context, LocationData};
use crate::wrap_raw::{HasRaw, MlirLocation, WrapRawPtr};

verus! {

#[derive(Clone, Copy, Debug, PartialEq, Eq, Structural)]
pub struct Location(pub MlirLocation);

impl HasRaw for Location {
    type RawType = MlirLocation;

    open spec fn spec_raw(&self) -> MlirLocation {
        self.0
    }

    fn raw(&self) -> (r: MlirLocation) {
        self.0
    }

    fn take_raw(self) -> (r: MlirLocation) {
        self.0
    }
}

impl WrapRawPtr for Location {
    open spec fn spec_is_null(raw: MlirLocation) -> bool {
        raw.ptr == 0
    }

    fn try_from_raw(raw: MlirLocation) -> (r: Option<Location>) {
        if raw.ptr == 0 {
            None
        } else {
            Some(Location(raw))
        }
    }

    fn from_raw(raw: MlirLocation) -> (r: Location) {
        Location(raw)
    }
}

/// What a location-creating call may change: only the location table grows, by one.
pub open spec fn location_added(new: &Context, old: &Context, r: MlirLocation) -> bool {
    &&& new.wf()
    &&& new.extends(old)
    &&& new.types@ == old.types@
    &&& new.attrs@ == old.attrs@
    &&& new.locations@.len() == old.locations@.len() + 1
    &&& forall|i: int| 0 <= i < old.locations@.len() ==> new.locations@[i] == old.locations@[i]
    &&& r.ptr == old.locations@.len()
    &&& new.same_structure(old)
    &&& new.same_values(old)
    &&& new.same_passes(old)
}

fn push_location(ctx: &mut Context, d: LocationData) -> (r: MlirLocation)
    requires
        old(ctx).wf(),
    ensures
        location_added(final(ctx), old(ctx), r),
        final(ctx).locations@[r.ptr as int] == d,
{
    let n = ctx.locations.len();
    ctx.locations.push(d);
    MlirLocation { ptr: n }
}

impl Location {
    /// An unknown source location.
    pub fn new_unknown(ctx: &mut Context) -> (r: Location)
        requires
            old(ctx).wf(),
        ensures
            location_added(final(ctx), old(ctx), r.0),
            final(ctx).locations@[r.0.ptr as int] is Unknown,
    {
        Location(push_location(ctx, LocationData::Unknown))
    }

    /// A location from a file, line, and column.
    pub fn new(ctx: &mut Context, filename: &str, line: usize, col: usize) -> (r: Location)
        requires
            old(ctx).wf(),
        ensures
            location_added(final(ctx), old(ctx), r.0),
            final(ctx).locations@[r.0.ptr as int] matches LocationData::FileLineCol { file, line: l, col: c }
                && file@ == filename@ && l == line && c == col,
    {
        Location(
            push_location(
                ctx,
                LocationData::FileLineCol { file: String::from_str(filename), line, col },
            ),
        )
    }

    /// A named location; with no child, the child is unknown.
    pub fn new_named(ctx: &mut Context, name: &str, child_loc: Option<&Location>) -> (r: Location)
        requires
            old(ctx).wf(),
        ensures
            location_added(final(ctx), old(ctx), r.0),
            final(ctx).locations@[r.0.ptr as int] matches LocationData::Name { name: n, child }
                && n@ == name@ && child == match child_loc {
                Some(l) => l.0,
                None => MlirLocation { ptr: 0 },
            },
    {
        let child = match child_loc {
            Some(l) => l.0,
            None => MlirLocation { ptr: 0 },
        };
        Location(push_location(ctx, LocationData::Name { name: String::from_str(name), child }))
    }
}

} // verus!

//! Raw handles and the traits of the types that wrap them.
//!
//! A raw handle is a pointer-sized token into the tables of a `Context`. The value `0`
//! is the universal null handle: it never names an entity.
use vstd::prelude::*;

verus! {

/// Raw handle of a type.
#[derive(Clone, Copy, PartialEq, Eq, Debug, Structural)]
pub struct MlirType {
    pub ptr: usize,
}

/// Raw handle of an attribute.
#[derive(Clone, Copy, PartialEq, Eq, Debug, Structural)]
pub struct MlirAttribute {
    pub ptr: usize,
}

/// Raw handle of an SSA value.
#[derive(Clone, Copy, PartialEq, Eq, Debug, Structural)]
pub struct MlirValue {
    pub ptr: usize,
}

/// Raw handle of an operation.
#[derive(Clone, Copy, PartialEq, Eq, Debug, Structural)]
pub struct MlirOperation {
    pub ptr: usize,
}

/// Raw handle of a block.
#[derive(Clone, Copy, PartialEq, Eq, Debug, Structural)]
pub struct MlirBlock {
    pub ptr: usize,
}

/// Raw handle of a region.
#[derive(Clone, Copy, PartialEq, Eq, Debug, Structural)]
pub struct MlirRegion {
    pub ptr: usize,
}

/// Raw handle of a source location.
#[derive(Clone, Copy, PartialEq, Eq, Debug, Structural)]
pub struct MlirLocation {
    pub ptr: usize,
}

/// Raw handle of a top-level pass manager.
#[derive(Clone, Copy, PartialEq, Eq, Debug, Structural)]
pub struct MlirPassManager {
    pub ptr: usize,
}

/// Raw success flag: `0` is failure, anything else success.
#[derive(Clone, Copy, PartialEq, Eq, Debug, Structural)]
pub struct MlirLogicalResult {
    pub value: i8,
}

/// A type that carries exactly one raw handle.
pub trait HasRaw: Sized {
    type RawType;

    spec fn spec_raw(&self) -> Self::RawType;

    fn raw(&self) -> (r: Self::RawType)
        ensures
            r == self.spec_raw(),
    ;

    /// Consume `self` into the underlying raw handle.
    fn take_raw(self) -> (r: Self::RawType)
        ensures
            r == self.spec_raw(),
    ;
}

/// A wrapper of a raw handle that may be null: wrapping checks the handle first.
pub trait WrapRawPtr: HasRaw {
    spec fn spec_is_null(raw: Self::RawType) -> bool;

    /// Wrap an existing raw handle; `None` when it is null.
    fn try_from_raw(raw: Self::RawType) -> (r: Option<Self>)
        ensures
            r is Some <==> !Self::spec_is_null(raw),
            r matches Some(w) ==> w.spec_raw() == raw,
    ;

    /// Wrap a raw handle that the caller knows to be non-null.
    fn from_raw(raw: Self::RawType) -> (r: Self)
        requires
            !Self::spec_is_null(raw),
        ensures
            r.spec_raw() == raw,
    ;
}

/// A wrapper of a raw value that is never null.
pub trait WrapRaw: HasRaw {
    fn from_raw(raw: Self::RawType) -> (r: Self)
        ensures
            r.spec_raw() == raw,
    ;
}

/// Collect the raw handles of a sequence of wrappers, in order.
pub trait ToRawVec<T: HasRaw> {
    spec fn spec_items(&self) -> Seq<T>;

    fn to_raw_vec(&self) -> (r: Vec<T::RawType>)
        ensures
            r@.len() == self.spec_items().len(),
            forall|i: int| 0 <= i < r@.len() ==> r@[i] == #[trigger] self.spec_items()[i].spec_raw(),
    ;
}

impl<T: HasRaw> ToRawVec<T> for [T] {
    open spec fn spec_items(&self) -> Seq<T> {
        self@
    }

    fn to_raw_vec(&self) -> (r: Vec<T::RawType>) {
        let mut r: Vec<T::RawType> = Vec::new();
        let mut i: usize = 0;
        while i < self.len()
            invariant
                i <= self@.len(),
                r@.len() == i,
                forall|j: int| 0 <= j < i ==> r@[j] == #[trigger] self@[j].spec_raw(),
            decreases self@.len() - i,
        {
            r.push(self[i].raw());
            i = i + 1;
        }
        r
    }
}

} // verus!

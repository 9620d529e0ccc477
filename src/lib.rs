//! A typed, ownership-checked construction layer over an IR store: operations, blocks,
//! regions, types, attributes and values live in the tables of a `Context` and are named
//! by handles. Kinds of types, attributes, values and operations are recognised at run
//! time and narrowed with a check; operations are staged in an `OperationState` and made
//! in one step; pass pipelines are read from and written to text.
pub mod attr;
pub mod block;
pub mod builder;
pub mod builtin;
pub mod comb;
pub mod context;
pub mod diagnostic;
pub mod dialect;
pub mod error;
pub mod formatter;
pub mod func;
pub mod hw;
pub mod location;
pub mod module;
pub mod operation;
pub mod owned;
pub mod pass_manager;
pub mod passes;
pub mod pipeline;
pub mod seq;
pub mod string;
pub mod symbol;
pub mod text;
pub mod ty;
pub mod value;
pub mod wrap_raw;

pub use attr::{
    ArrayAttr, Attr, AttrIsa, Attribute, DictionaryAttr, IntegerAttr, NamedAttribute, ParamDeclAttr, StringAttr,
    SymbolRefAttr, TypeAttr, UnitAttr,
};
pub use block::{Block, Region};
pub use builder::{InsertPoint, OpBuilder};
pub use context::{Context, Dialect, DialectHandle};
pub use diagnostic::{Diagnostic, DiagnosticEngine, DiagnosticSeverity, HandlerObject, PrintHandler};
pub use error::Error;
pub use formatter::{FormatterCallback, IoWriteFormatterCallback};
pub use location::Location;
pub use module::{Module, ModuleOp};
pub use operation::{NamedOp, Operation, OperationState, SingleBlockOp, SingleRegionOp};
pub use owned::{IntoOwned, LogicalResult, Owned};
pub use pass_manager::{OpPassManager, Pass, PassManager};
pub use string::StringRef;
pub use symbol::SymbolTable;
pub use ty::{FunctionType, IndexType, IntegerType, Ty, TyIsa, Type};
pub use value::{BlockArgument, OpResult, Val, Value};
pub use wrap_raw::{
    HasRaw, MlirAttribute, MlirBlock, MlirLocation, MlirLogicalResult, MlirOperation,
    MlirPassManager, MlirRegion, MlirType, MlirValue, ToRawVec, WrapRaw, WrapRawPtr,
};

use circt::block::{Block, Region};
use circt::builder::{InsertPoint, OpBuilder};
use circt::context::Context;
use circt::error::Error;
use circt::hw::{self, ConstantOp};
use circt::location::Location;
use circt::operation::{NamedOp, Operation, OperationState};
use circt::owned::IntoOwned;
use circt::seq::CompRegOp;
use circt::ty::{FunctionType, IndexType, IntegerType, Ty, TyIsa};
use circt::hw::{ArrayType, StructType};

#[test]
fn print_type() {
    let mut ctx = Context::new();
    let i8 = IntegerType::new(&mut ctx, 8);
    let my_i1 = IntegerType::new(&mut ctx, 1);
    assert_eq!(i8.as_type().to_string(&ctx), "i8");
    assert_eq!(my_i1.as_type().to_string(&ctx), "i1");
    println!("{}", i8.as_type().to_string(&ctx));
    println!("{:?}", my_i1);
}

#[test]
fn register_hw() {
    let mut ctx = Context::new();
    assert_eq!(ctx.num_loaded_dialects(), 1);

    let hw_handle = hw::dialect();
    let hw = hw_handle.load(&mut ctx).unwrap();
    let hw2 = hw_handle.load(&mut ctx).unwrap();
    assert_eq!(ctx.num_loaded_dialects(), 2);
    assert_eq!(hw, hw2);

    let seq_handle = circt::seq::dialect();
    let seq = seq_handle.load(&mut ctx).unwrap();
    let seq2 = seq_handle.load(&mut ctx).unwrap();
    assert_eq!(ctx.num_loaded_dialects(), 3);
    assert_eq!(seq, seq2);

    hw::register_hw_passes(&mut ctx);
    circt::seq::register_passes(&mut ctx);
}

#[test]
fn test_print_op() {
    let mut ctx = Context::new();
    let loc = Location::new_unknown(&mut ctx);
    let state = OperationState::new(ConstantOp::operation_name(), &loc);
    let op: ConstantOp = state.build(&mut ctx).unwrap();
    println!("{:?}", op);
    assert_eq!(op.as_operation().to_string(&ctx), "\"hw.constant\"() : () -> ()\n");
    println!("{:?}", op);
}

#[test]
fn test_comp_reg() {
    let ctx = Context::new();
    let mut builder = OpBuilder::new(ctx);

    hw::dialect().load(&mut builder.ctx);
    circt::seq::dialect().load(&mut builder.ctx);

    let region = Region::new(&mut builder.ctx);
    let block = Block::new(&mut builder.ctx);
    let blk = *block.get();
    region.get().append_block(&mut builder.ctx, block);

    builder.set_insertion_point(Some(InsertPoint::BlockEnd(blk)));

    let input = ConstantOp::build(&mut builder, 8, 123).unwrap().result(&builder.ctx);
    let clk = ConstantOp::build(&mut builder, 1, 1).unwrap().result(&builder.ctx);

    let reg = CompRegOp::build(&mut builder, "reg1", &input, &clk, None, None).unwrap();

    assert_eq!(reg.as_operation().verify(&builder.ctx), true);

    println!("reg> {:?}", reg.as_operation().to_string(&builder.ctx));
    println!("block> {:?}", blk.operations(&builder.ctx));
}

#[test]
fn integer_types_are_interned_and_distinct() {
    let mut ctx = Context::new();
    let a = IntegerType::new(&mut ctx, 8);
    let b = IntegerType::new(&mut ctx, 8);
    let c = IntegerType::new(&mut ctx, 1);
    assert_eq!(a, b);
    assert_ne!(a.as_type(), c.as_type());
    assert!(!a.as_type().equal_to(&c.as_type()));
    assert_eq!(a.width(&ctx), 8);
    assert_eq!(c.width(&ctx), 1);
}

#[test]
fn type_texts() {
    let mut ctx = Context::new();
    let i8 = IntegerType::new(&mut ctx, 8).as_type();
    let i1 = IntegerType::new(&mut ctx, 1).as_type();
    let idx = IndexType::new(&mut ctx).as_type();
    let f = FunctionType::new(&mut ctx, &[i8, i1], &[i8]);
    let g = FunctionType::new(&mut ctx, &[], &[i1, idx]);
    let arr = ArrayType::new(&mut ctx, &i8, 4);
    let st = StructType::new(&mut ctx, &[("a".to_string(), i8), ("b".to_string(), i1)]);
    assert_eq!(idx.to_string(&ctx), "index");
    assert_eq!(f.as_type().to_string(&ctx), "(i8, i1) -> i8");
    assert_eq!(g.as_type().to_string(&ctx), "() -> (i1, index)");
    assert_eq!(arr.as_type().to_string(&ctx), "!hw.array<4xi8>");
    assert_eq!(st.as_type().to_string(&ctx), "!hw.struct<a: i8, b: i1>");
    assert_eq!(f.num_inputs(&ctx), 2);
    assert_eq!(f.inputs(&ctx), vec![i8, i1]);
    assert_eq!(f.results(&ctx), vec![i8]);
    assert_eq!(st.num_fields(&ctx), 2);
    assert_eq!(st.field_at(&ctx, 1), Some(("b".to_string(), i1)));
    assert_eq!(st.field(&ctx, "a"), Some(i8));
    assert_eq!(st.field(&ctx, "c"), None);
    assert_eq!(st.fields(&ctx).len(), 2);
}

#[test]
fn narrowing_round_trip_and_rejection() {
    let mut ctx = Context::new();
    let i8 = IntegerType::new(&mut ctx, 8);
    let idx = IndexType::new(&mut ctx);
    let back = IntegerType::try_from(&ctx, i8.as_type()).unwrap();
    assert_eq!(back, i8);
    let back_idx = IndexType::try_from(&ctx, idx.as_type()).unwrap();
    assert_eq!(back_idx, idx);
    match IntegerType::try_from(&ctx, idx.as_type()) {
        Err(Error::KindMismatch { expected, actual }) => {
            assert_eq!(expected, "IntegerType");
            assert_eq!(actual, "index");
        }
        _ => panic!("an index type is not an integer type"),
    }
    assert!(IndexType::try_from(&ctx, i8.as_type()).is_err());
    assert!(ArrayType::try_from(&ctx, i8.as_type()).is_err());
}

#[test]
fn operand_positions_are_kept() {
    let ctx = Context::new();
    let mut builder = OpBuilder::new(ctx);
    let a = ConstantOp::build(&mut builder, 8, 1).unwrap().result(&builder.ctx);
    let b = ConstantOp::build(&mut builder, 8, 2).unwrap().result(&builder.ctx);
    let c = ConstantOp::build(&mut builder, 8, 3).unwrap().result(&builder.ctx);
    let loc = *builder.loc();
    let mut state = OperationState::new("test.op", &loc);
    state.add_operand(&a);
    state.add_operands(&[b, c]);
    let op = builder.create_op(state).unwrap();
    assert_eq!(op.num_operands(&builder.ctx), 3);
    assert_eq!(op.operand(&builder.ctx, 0), Some(a));
    assert_eq!(op.operand(&builder.ctx, 1), Some(b));
    assert_eq!(op.operand(&builder.ctx, 2), Some(c));
    assert_eq!(op.operand(&builder.ctx, 3), None);
}

#[test]
fn building_a_named_operation() {
    let ctx = Context::new();
    let mut builder = OpBuilder::new(ctx);
    let loc = *builder.loc();
    let state = OperationState::new("test.op", &loc);
    let op = builder.create_op(state).unwrap();
    assert_eq!(op.name(&builder.ctx), "test.op");
    let text = op.to_string(&builder.ctx);
    assert!(text.contains("test.op"));
    assert_eq!(text, "\"test.op\"() : () -> ()\n");
}

#[test]
fn build_refuses_another_kind_name() {
    let mut ctx = Context::new();
    let loc = Location::new_unknown(&mut ctx);
    let state = OperationState::new("hw.output", &loc);
    let before = ctx.ops.len();
    let op: Option<ConstantOp> = state.build(&mut ctx);
    assert!(op.is_none());
    assert_eq!(ctx.ops.len(), before);
}

#[test]
fn regions_move_into_the_operation() {
    let mut ctx = Context::new();
    let loc = Location::new_unknown(&mut ctx);
    let region = Region::new(&mut ctx);
    let g = *region.get();
    let mut state = OperationState::new("test.op", &loc);
    state.add_region(region);
    assert_eq!(state.region(0), Some(g));
    let op = state.create(&mut ctx).unwrap();
    assert_eq!(op.region(&ctx, 0), Some(g));
    assert_eq!(ctx.regions[g.0.ptr].parent, op.0);
}

#[test]
fn result_type_inference_takes_the_first_operand_type() {
    let ctx = Context::new();
    let mut builder = OpBuilder::new(ctx);
    let a = ConstantOp::build(&mut builder, 4, 1).unwrap().result(&builder.ctx);
    let loc = *builder.loc();
    let mut state = OperationState::new("test.op", &loc);
    state.add_operand(&a);
    state.enable_result_type_inference();
    let op = builder.create_op(state).unwrap();
    let r = op.result_at(&builder.ctx, 0).unwrap();
    assert_eq!(r.ty(&builder.ctx), a.ty(&builder.ctx));

    let mut bad = OperationState::new("test.op", &loc);
    bad.enable_result_type_inference();
    assert!(builder.create_op(bad).is_none());
}

#[test]
fn blocks_destroyed_once() {
    let mut ctx = Context::new();
    let block = Block::new(&mut ctx);
    let b = *block.get();
    block.release(&mut ctx);
    assert!(ctx.blocks[b.0.ptr].destroyed);

    let region = Region::new(&mut ctx);
    let attached = Block::new(&mut ctx);
    let a = *attached.get();
    region.get().append_block(&mut ctx, attached);
    assert_eq!(a.parent_region(&ctx), Some(*region.get()));
    assert_eq!(region.get().first_block(&ctx), Some(a));
}

#[test]
fn insertion_points_place_operations() {
    let ctx = Context::new();
    let mut builder = OpBuilder::new(ctx);
    let block = Block::new(&mut builder.ctx);
    let b = *block.get();
    builder.set_insertion_point(Some(InsertPoint::BlockEnd(b)));
    let first = ConstantOp::build(&mut builder, 8, 1).unwrap().as_operation();
    let last = ConstantOp::build(&mut builder, 8, 2).unwrap().as_operation();
    builder.set_insertion_point(Some(InsertPoint::BlockStart(b)));
    let start = ConstantOp::build(&mut builder, 8, 3).unwrap().as_operation();
    builder.set_insertion_point(Some(InsertPoint::AfterOp(b, first)));
    let after = ConstantOp::build(&mut builder, 8, 4).unwrap().as_operation();
    builder.set_insertion_point(Some(InsertPoint::BeforeOp(b, last)));
    let before = ConstantOp::build(&mut builder, 8, 5).unwrap().as_operation();
    let ops: Vec<Operation> = b.operations(&builder.ctx);
    assert_eq!(ops, vec![start, first, after, before, last]);
    assert_eq!(first.parent_block(&builder.ctx), Some(b));
    assert_eq!(b.terminator(&builder.ctx), Some(last));

    let stale = Operation::null_op();
    builder.set_insertion_point(Some(InsertPoint::AfterOp(b, stale)));
    assert!(ConstantOp::build(&mut builder, 8, 6).is_none());
}

#[test]
fn operation_destroy_requires_detached() {
    let mut ctx = Context::new();
    let loc = Location::new_unknown(&mut ctx);
    let op = OperationState::new("test.op", &loc).create(&mut ctx).unwrap();
    op.destroy(&mut ctx);
    assert!(!op.verify(&ctx));
}

#[test]
fn hw_types() {
    let mut ctx = Context::new();
    assert_eq!(ctx.num_loaded_dialects(), 1);

    let hw_handle = hw::dialect();
    let _ = hw_handle.load(&mut ctx).unwrap();

    let i8_type = ctx.get_integer_type(8).unwrap();
    let i8_io_type = hw::InOutType::new(&mut ctx, &i8_type);

    assert_eq!(i8_io_type.element_type(&ctx), i8_type);
    assert!(!hw::InOutType::isa(&ctx, &i8_type));
    assert!(hw::InOutType::isa(&ctx, &i8_io_type.as_type()));

    let scope = "myscope";
    let name = "myname";

    let type_alias = hw::AliasType::new(&mut ctx, scope, name, i8_type).unwrap();
    assert!(hw::AliasType::isa(&ctx, &type_alias.as_type()));
    assert_eq!(type_alias.canonical_type(&ctx), i8_type);
    assert_eq!(type_alias.inner_type(&ctx), i8_type);
    assert_eq!(type_alias.scope(&ctx), scope);
    assert_eq!(type_alias.name(&ctx), name);
    assert_eq!(type_alias.as_type().to_string(&ctx), "!hw.typealias<@myscope::@myname, i8>");
    assert_eq!(i8_io_type.as_type().to_string(&ctx), "!hw.inout<i8>");
}

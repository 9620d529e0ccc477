use circt::builder::OpBuilder;
use circt::comb::{self, clog2, trunc_or_zext, CmpPred, ConcatOp, ExtractOp, ICmpOp, MuxOp};
use circt::context::Context;
use circt::error::Error;
use circt::func::FunctionBuilder;
use circt::hw::{self, ArrayConcatOp, ArrayGetOp, ArraySliceOp, ArrayType, ConstantOp, HwModuleOp, ModulePortInfo, PortDirection, PortInfo, StructExtractOp, StructType};
use circt::module::Module;
use circt::operation::NamedOp;
use circt::seq::{CompRegClockEnabledOp, CompRegOp};
use circt::ty::{IntegerType, Ty};
use circt::value::Value;

fn width_of(b: &OpBuilder, v: &Value) -> u32 {
    let t = v.ty(&b.ctx);
    IntegerType::try_from(&b.ctx, t).unwrap().width(&b.ctx)
}

#[test]
fn clog2_values() {
    assert_eq!(clog2(0), 0);
    assert_eq!(clog2(1), 0);
    assert_eq!(clog2(2), 1);
    assert_eq!(clog2(3), 2);
    assert_eq!(clog2(4), 2);
    assert_eq!(clog2(5), 3);
    assert_eq!(clog2(1 << 63), 63);
}

#[test]
fn concat_width_is_the_sum() {
    let mut b = OpBuilder::new(Context::new());
    let x = ConstantOp::build(&mut b, 3, 1).unwrap().result(&b.ctx);
    let y = ConstantOp::build(&mut b, 5, 2).unwrap().result(&b.ctx);
    let c = ConcatOp::build(&mut b, &[x, y]).unwrap();
    assert_eq!(width_of(&b, &c.result(&b.ctx)), 8);
    let i8 = IntegerType::new(&mut b.ctx, 8).as_type();
    let arr = ArrayType::new(&mut b.ctx, &i8, 2).as_type();
    let cv = c.result(&b.ctx);
    let a = circt::hw::ArrayCreateOp::new(&mut b, &arr, &[cv, cv]).unwrap().result(&b.ctx);
    assert!(ConcatOp::build(&mut b, &[x, a]).is_none());
}

#[test]
fn trunc_or_zext_widths() {
    let mut b = OpBuilder::new(Context::new());
    let x = ConstantOp::build(&mut b, 8, 5).unwrap().result(&b.ctx);
    let i3 = IntegerType::new(&mut b.ctx, 3).as_type();
    let i12 = IntegerType::new(&mut b.ctx, 12).as_type();
    let i8 = IntegerType::new(&mut b.ctx, 8).as_type();
    let t = trunc_or_zext(&mut b, &x, &i3).unwrap();
    assert_eq!(width_of(&b, &t), 3);
    let z = trunc_or_zext(&mut b, &x, &i12).unwrap();
    assert_eq!(width_of(&b, &z), 12);
    let same = trunc_or_zext(&mut b, &x, &i8).unwrap();
    assert_eq!(same, x);
    let arr = ArrayType::new(&mut b.ctx, &i8, 16).as_type();
    let by_size = trunc_or_zext(&mut b, &x, &arr).unwrap();
    assert_eq!(width_of(&b, &by_size), 16);
}

#[test]
fn shifts_bring_the_amount_to_width() {
    let mut b = OpBuilder::new(Context::new());
    let v = ConstantOp::build(&mut b, 16, 7).unwrap().result(&b.ctx);
    let amt = ConstantOp::build(&mut b, 4, 1).unwrap().result(&b.ctx);
    let op = comb::ShlOp::with_sizes(&mut b, &v, &amt).unwrap();
    let a2 = op.as_operation().operand(&b.ctx, 1).unwrap();
    assert_eq!(width_of(&b, &a2), 16);
    assert_eq!(op.result(&b.ctx).ty(&b.ctx), v.ty(&b.ctx));
    assert!(comb::ShrUOp::with_sizes(&mut b, &v, &amt).is_some());
    assert!(comb::ShrSOp::with_sizes(&mut b, &v, &amt).is_some());
}

#[test]
fn icmp_mux_extract() {
    let mut b = OpBuilder::new(Context::new());
    let x = ConstantOp::build(&mut b, 8, 5).unwrap().result(&b.ctx);
    let y = ConstantOp::build(&mut b, 8, 6).unwrap().result(&b.ctx);
    let cmp = ICmpOp::new(&mut b, CmpPred::Ult, &x, &y).unwrap();
    let cond = cmp.result(&b.ctx);
    assert_eq!(width_of(&b, &cond), 1);
    assert_eq!(cmp.as_operation().num_attributes(&b.ctx), 1);
    assert_eq!(CmpPred::Ult.value(), 6);
    let m = MuxOp::build(&mut b, &cond, &x, &y).unwrap();
    assert_eq!(m.result(&b.ctx).ty(&b.ctx), x.ty(&b.ctx));
    let e = ExtractOp::with_sizes(&mut b, &x, 2, 3).unwrap();
    assert_eq!(width_of(&b, &e.result(&b.ctx)), 3);
    assert!(ExtractOp::with_sizes(&mut b, &x, 0, (u32::MAX as usize) + 1).is_none());
    let sum = comb::AddOp::build(&mut b, &x, &y).unwrap();
    assert_eq!(sum.as_operation().num_operands(&b.ctx), 2);
    let all = comb::AndOp::build(&mut b, &[x, y, x]).unwrap();
    assert_eq!(all.as_operation().num_operands(&b.ctx), 3);
}

#[test]
fn registers_hold_their_operands() {
    let mut b = OpBuilder::new(Context::new());
    let input = ConstantOp::build(&mut b, 8, 123).unwrap().result(&b.ctx);
    let clk = ConstantOp::build(&mut b, 1, 1).unwrap().result(&b.ctx);
    let en = ConstantOp::build(&mut b, 1, 1).unwrap().result(&b.ctx);
    let rst = ConstantOp::build(&mut b, 1, 0).unwrap().result(&b.ctx);
    let rv = ConstantOp::build(&mut b, 8, 0).unwrap().result(&b.ctx);
    let r = CompRegOp::build(&mut b, "r", &input, &clk, Some(&rst), Some(&rv)).unwrap();
    assert_eq!(r.input(&b.ctx), input);
    assert_eq!(r.clk(&b.ctx), clk);
    assert_eq!(r.reset(&b.ctx), rst);
    assert_eq!(r.reset_value(&b.ctx), rv);
    assert_eq!(r.output(&b.ctx).ty(&b.ctx), input.ty(&b.ctx));
    r.set_clk(&mut b.ctx, &en);
    assert_eq!(r.clk(&b.ctx), en);
    let ce = CompRegClockEnabledOp::build(&mut b, "q", &input, &clk, &en, None, None).unwrap();
    assert_eq!(ce.clock_enable(&b.ctx), en);
    assert_eq!(ce.as_operation().num_operands(&b.ctx), 3);
    assert_eq!(CompRegOp::operation_name(), "seq.compreg");
}

#[test]
fn array_and_struct_operations() {
    let mut b = OpBuilder::new(Context::new());
    let i8 = IntegerType::new(&mut b.ctx, 8).as_type();
    let arr_t = ArrayType::new(&mut b.ctx, &i8, 4).as_type();
    let e = ConstantOp::build(&mut b, 8, 1).unwrap().result(&b.ctx);
    let arr = circt::hw::ArrayCreateOp::new(&mut b, &arr_t, &[e, e, e, e]).unwrap().result(&b.ctx);
    let get = ArrayGetOp::with_const_offset(&mut b, &arr, 2).unwrap();
    assert_eq!(get.result(&b.ctx).ty(&b.ctx), i8);
    let slice = ArraySliceOp::with_const_offset(&mut b, &arr, 1, 2).unwrap();
    let st = slice.result(&b.ctx).ty(&b.ctx);
    assert_eq!(ArrayType::try_from(&b.ctx, st).unwrap().size(&b.ctx), 2);
    let cat = ArrayConcatOp::new(&mut b, &[arr, arr]).unwrap();
    let ct = cat.result(&b.ctx).ty(&b.ctx);
    assert_eq!(ArrayType::try_from(&b.ctx, ct).unwrap().size(&b.ctx), 8);

    let i1 = IntegerType::new(&mut b.ctx, 1).as_type();
    let s_t = StructType::new(&mut b.ctx, &[("a".to_string(), i8), ("b".to_string(), i1)]).as_type();
    let one = ConstantOp::build(&mut b, 1, 1).unwrap().result(&b.ctx);
    let s = circt::hw::StructCreateOp::build(&mut b, &s_t, &[e, one]).unwrap().result(&b.ctx);
    let x = StructExtractOp::build(&mut b, &s, 1).unwrap();
    assert_eq!(x.result(&b.ctx).ty(&b.ctx), i1);
    assert!(StructExtractOp::build(&mut b, &s, 2).is_none());
    let inj = circt::hw::StructInjectOp::new(&mut b, &s, &e, 0).unwrap();
    assert_eq!(inj.result(&b.ctx).ty(&b.ctx), s_t);
    let cast = circt::hw::BitcastOp::new(&mut b, &i8, &e).unwrap();
    assert_eq!(cast.result(&b.ctx).ty(&b.ctx), i8);
}

#[test]
fn ports_split_and_flip() {
    let mut ctx = Context::new();
    let i1 = IntegerType::new(&mut ctx, 1).as_type();
    assert_eq!(PortDirection::Input.flip(), PortDirection::Output);
    assert_eq!(PortDirection::InOut.flip(), PortDirection::InOut);
    let merged = vec![PortInfo::input("a", &i1), PortInfo::output("b", &i1), PortInfo::new(PortDirection::InOut, "c", &i1)];
    let ports = ModulePortInfo::from_merged(merged);
    assert_eq!(ports.inputs.len(), 2);
    assert_eq!(ports.inputs[1].name, "c");
    assert_eq!(ports.outputs.len(), 1);
    assert!(ports.outputs[0].is_output());
    assert_eq!(hw::port_types(&ports.inputs), vec![i1, i1]);
    assert_eq!(hw::port_names(&mut ctx, &ports.outputs).len(), 1);
}

#[test]
fn module_with_body() {
    let ctx = Context::new();
    let mut builder = OpBuilder::new(ctx);
    let loc = *builder.loc();
    let module = Module::create(&mut builder.ctx, &loc);
    let i1 = IntegerType::new(&mut builder.ctx, 1).as_type();
    let i2 = IntegerType::new(&mut builder.ctx, 2).as_type();
    let mut ports = ModulePortInfo::new();
    ports.add_input("a", &i2);
    ports.add_input("b", &i2);
    ports.add_input("clk", &i1);
    ports.add_output("c", &i2);
    ports.add_output("c1", &i1);
    let m = HwModuleOp::build_with(&mut builder, &module, "test_hw_module", &ports, &[], "no comments!", |mut b: OpBuilder, _body, inputs: Vec<(String, Value)>| {
        let find = |n: &str| inputs.iter().find(|p| p.0 == n).unwrap().1;
        let c1 = ConstantOp::build(&mut b, 1, 1).unwrap().result(&b.ctx);
        let a_and_b = comb::AndOp::build(&mut b, &[find("a"), find("b")]).unwrap().result(&b.ctx);
        let c_reg = CompRegOp::build(&mut b, "c_reg", &a_and_b, &find("clk"), None, None).unwrap().result(&b.ctx);
        (b, vec![("c1".to_string(), c1), ("c".to_string(), c_reg)])
    });
    let m = m.unwrap();
    let body = m.as_operation().first_block(&builder.ctx).unwrap();
    assert_eq!(body.num_arguments(&builder.ctx), 3);
    let term = body.terminator(&builder.ctx).unwrap();
    assert_eq!(term.name(&builder.ctx), "hw.output");
    assert_eq!(term.num_operands(&builder.ctx), 2);

    let missing = HwModuleOp::build_with(&mut builder, &module, "other", &ports, &[], "", |b: OpBuilder, _body, _inputs: Vec<(String, Value)>| (b, Vec::new()));
    assert!(matches!(missing, Err(Error::SimpleError(_))));
}

#[test]
fn function_builder() {
    let ctx = Context::new();
    let mut builder = OpBuilder::new(ctx);
    let i8 = IntegerType::new(&mut builder.ctx, 8).as_type();
    let mut fb = FunctionBuilder::new("f");
    fb.add_arg(Some("x".to_string()), i8);
    fb.add_arg(None, i8);
    fb.add_result(None, i8);
    let f = fb.build(&mut builder).unwrap();
    assert_eq!(f.num_arguments(&builder.ctx), 0);
    assert_eq!(f.arguments(&builder.ctx).len(), 0);
    assert_eq!(f.as_operation().name(&builder.ctx), "func.func");
}

#[test]
fn conversion_cast() {
    let mut b = OpBuilder::new(Context::new());
    let x = ConstantOp::build(&mut b, 8, 5).unwrap().result(&b.ctx);
    let i4 = IntegerType::new(&mut b.ctx, 4).as_type();
    let c = circt::builtin::UnrealizedConversionCastOp::new(&mut b, &[x], &[i4, i4]).unwrap();
    assert_eq!(c.as_operation().num_results(&b.ctx), 2);
}

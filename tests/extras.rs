use circt::attr::{parse_i64, DictionaryAttr, IntegerAttr, NamedAttribute, StringAttr};
use circt::diagnostic::{Diagnostic, DiagnosticEngine, DiagnosticSeverity, HandlerObject, PrintHandler};
use circt::formatter::{FormatterCallback, IoWriteFormatterCallback};
use circt::hw::{HwModuleOp, ModulePortInfo, PortInfo};
use circt::location::Location;
use circt::owned::LogicalResult;
use circt::pass_manager::PassManager;
use circt::ty::{FunctionType, IntegerType, Ty};
use circt::value::{OpResult, Val};
use circt::IntoOwned;
use circt::{Block, Context, Error, MlirType, OpBuilder, OperationState, Region, Type};

#[test]
fn chunks_are_collected_in_order() {
    let mut f = FormatterCallback::new();
    f.callback("ab");
    f.callback("");
    f.callback("cd");
    assert_eq!(f.user_data(), "abcd");
    let mut b = IoWriteFormatterCallback::new();
    b.callback("hé");
    b.callback("!");
    assert_eq!(b.user_data(), "hé!".as_bytes().to_vec());
}

#[test]
fn operation_print_goes_through_the_collector() {
    let mut ctx = Context::new();
    let loc = Location::new_unknown(&mut ctx);
    let i8 = IntegerType::new(&mut ctx, 8).as_type();
    let mut st = OperationState::new("test.src", &loc);
    st.add_result(&i8);
    let src = st.create(&mut ctx).unwrap();
    let v = src.result_at(&ctx, 0).unwrap();
    let mut st2 = OperationState::new("test.use", &loc);
    st2.add_operand(&v);
    st2.add_results(&[i8, i8]);
    let user = st2.create(&mut ctx).unwrap();
    let mut f = FormatterCallback::new();
    user.print(&ctx, &mut f, false);
    let r0 = user.result_at(&ctx, 0).unwrap().0.ptr;
    let r1 = user.result_at(&ctx, 1).unwrap().0.ptr;
    let expected = format!("%{}, %{} = \"test.use\"(%{}) : (i8) -> (i8, i8)\n", r0, r1, v.0.ptr);
    assert_eq!(f.user_data(), expected);
    assert_eq!(src.to_string(&ctx), format!("%{} = \"test.src\"() : () -> i8\n", v.0.ptr));
    let res = OpResult(v.0);
    assert_eq!(res.owner(&ctx), Some(src));
    assert_eq!(res.result_position(&ctx), 0);
    assert!(OpResult::isa(&ctx, &v));
}

#[test]
fn nested_parse_replaces_only_the_nested_pipeline() {
    let mut ctx = Context::new();
    circt::passes::register_passes(&mut ctx);
    let pm = PassManager::new(&mut ctx);
    pm.parse_pass(&mut ctx, "cse").unwrap();
    let n = pm.nest(&mut ctx, "hw.module").unwrap();
    n.parse_pass(&mut ctx, "inline").unwrap();
    pm.parse_pass(&mut ctx, "canonicalize").unwrap();
    n.parse(&mut ctx, "hw.module(cse, canonicalize)").unwrap();
    assert_eq!(pm.print(&ctx), "builtin.module(cse,hw.module(cse,canonicalize),canonicalize)");
    assert!(matches!(n.parse(&mut ctx, "builtin.module(cse)"), Err(Error::PipelineParse(_))));
    n.add_pass(&mut ctx, &circt::passes::cse());
    assert_eq!(n.print(&ctx), "hw.module(cse,canonicalize,cse)");
}

#[test]
fn context_type_getters() {
    let mut ctx = Context::new();
    let i4 = ctx.get_integer_type(4).unwrap();
    assert_eq!(i4.to_string(&ctx), "i4");
    let f = ctx.get_function_type(&[i4], &[]).unwrap();
    assert_eq!(f.to_string(&ctx), "(i4) -> ()");
    assert!(ctx.get_function_type(&[Type(MlirType { ptr: 999 })], &[]).is_none());
    let s = ctx.get_struct_type(&[("x".to_string(), i4)]).unwrap();
    assert_eq!(s.to_string(&ctx), "!hw.struct<x: i4>");
    let raw = FunctionType::new_from_raw(&mut ctx, &[i4.0, i4.0], &[i4.0]).unwrap();
    assert_eq!(raw.input(&ctx, 1), Some(i4));
    assert_eq!(raw.result(&ctx, 0), Some(i4));
    assert_eq!(raw.result(&ctx, 1), None);
    assert!(FunctionType::new_from_raw(&mut ctx, &[MlirType { ptr: 0 }], &[]).is_none());
}

#[test]
fn blocks_inserted_around_a_reference() {
    let mut ctx = Context::new();
    let region = Region::new(&mut ctx);
    let g = *region.get();
    let first = Block::new(&mut ctx);
    let a = *first.get();
    g.append_block(&mut ctx, first);
    let second = Block::new(&mut ctx);
    let b = *second.get();
    g.insert_block_before(&mut ctx, &a, second);
    let third = Block::new(&mut ctx);
    let c = *third.get();
    g.insert_block_after(&mut ctx, &a, third);
    let fourth = Block::new(&mut ctx);
    let d = *fourth.get();
    g.prepend_block(&mut ctx, fourth);
    assert_eq!(ctx.regions[g.0.ptr].blocks, vec![d.0, b.0, a.0, c.0]);
}

struct Counting(u32, bool);

impl HandlerObject for Counting {
    fn spec_handles(&self, _diag: &Diagnostic) -> bool {
        self.1
    }

    fn handle(&mut self, _diag: &Diagnostic) -> LogicalResult {
        self.0 += 1;
        LogicalResult::from_bool(self.1)
    }
}

#[test]
fn diagnostics_go_to_the_last_handler_first() {
    let mut ctx = Context::new();
    let loc = Location::new_unknown(&mut ctx);
    let diag = Diagnostic { severity: DiagnosticSeverity::Warning, location: loc, message: "m".to_string(), notes: Vec::new() };
    let mut engine: DiagnosticEngine<Counting> = DiagnosticEngine::new();
    assert!(!engine.emit(&diag).is_success());
    let a = engine.attach_diagnostic_handler(Counting(0, true));
    let b = engine.attach_diagnostic_handler(Counting(0, false));
    assert!(engine.emit(&diag).is_success());
    assert_eq!(engine.handlers[0].1 .0, 1);
    assert_eq!(engine.handlers[1].1 .0, 1);
    assert!(engine.detach_diagnostic_handler(a));
    assert!(!engine.detach_diagnostic_handler(a));
    assert!(!engine.emit(&diag).is_success());
    assert_eq!(engine.handlers.len(), 1);
    assert_eq!(engine.handlers[0].0, b);
    assert_eq!(DiagnosticSeverity::from_u32(1), Some(DiagnosticSeverity::Warning));
    assert_eq!(DiagnosticSeverity::from_u32(4), None);
    let mut p = PrintHandler::new();
    assert_eq!(p.describe(&diag), "Severity: Warning");
    assert!(!p.handle(&diag).is_success());
    assert_eq!(diag.num_notes(), 0);
}

#[test]
fn module_ports_with_dead_types_are_refused() {
    let mut builder = OpBuilder::new(Context::new());
    let bad = Type(MlirType { ptr: 12345 });
    let ports = vec![PortInfo::input("a", &bad)];
    let r = HwModuleOp::build(&mut builder, "m", &ports, &[], &[], "");
    assert!(matches!(r, Err(Error::IsNone)));
    let mut good = ModulePortInfo::new();
    let i1 = IntegerType::new(&mut builder.ctx, 1).as_type();
    good.add_input("a", &i1);
    let m = HwModuleOp::build(&mut builder, "m", &good.inputs, &good.outputs, &[], "").unwrap();
    assert_eq!(circt::NamedOp::as_operation(&m).name(&builder.ctx), "hw.module");
}

#[test]
fn builder_insert_moves_a_detached_operation() {
    let mut builder = OpBuilder::new(Context::new());
    let block = Block::new(&mut builder.ctx);
    let b = *block.get();
    let loc = *builder.loc();
    let op = OperationState::new("test.op", &loc).create(&mut builder.ctx).unwrap();
    builder.set_insertion_point(Some(circt::InsertPoint::BlockEnd(b)));
    builder.insert(&op);
    assert_eq!(op.parent_block(&builder.ctx), Some(b));
    assert_eq!(LogicalResult::success().to_option(3), Some(3));
    assert_eq!(LogicalResult::failure().to_result(1, "no"), Err("no"));
}

#[test]
fn build_with_fills_a_fresh_state() {
    let mut builder = OpBuilder::new(Context::new());
    let i8 = IntegerType::new(&mut builder.ctx, 8).as_type();
    let c: Option<circt::hw::ConstantOp> = builder.build_with(|_b: &OpBuilder, mut state: OperationState| {
        state.add_result(&i8);
        state
    });
    let c = c.unwrap();
    assert_eq!(c.result(&builder.ctx).ty(&builder.ctx), i8);
    let refused: Option<circt::hw::ConstantOp> =
        builder.build_with_failable(|_b: &OpBuilder, _state: OperationState| Err(()));
    assert!(refused.is_none());
    let kept: Option<circt::hw::OutputOp> =
        builder.build_with_failable(|_b: &OpBuilder, state: OperationState| Ok(state));
    assert!(kept.is_some());
}

#[test]
fn integer_attributes_from_text() {
    assert_eq!(parse_i64("123"), Some(123));
    assert_eq!(parse_i64("-45"), Some(-45));
    assert_eq!(parse_i64("9223372036854775807"), Some(i64::MAX));
    assert_eq!(parse_i64("-9223372036854775808"), Some(i64::MIN));
    assert_eq!(parse_i64("9223372036854775808"), None);
    assert_eq!(parse_i64("12a"), None);
    assert_eq!(parse_i64("-"), None);
    assert_eq!(parse_i64(""), None);
    let mut ctx = Context::new();
    let i8 = IntegerType::new(&mut ctx, 8).as_type();
    let a = IntegerAttr::from_str(&mut ctx, &i8, "-7").unwrap();
    assert!(IntegerAttr::from_str(&mut ctx, &i8, "x").is_none());
    let s = StringAttr::new(&mut ctx, "hello");
    assert_eq!(s.get_value(&ctx), "hello");
    let d = DictionaryAttr::new(&mut ctx, &[NamedAttribute::new("v", &circt::Attr::as_attribute(&a))]);
    assert_eq!(d.num_elements(&ctx), 1);
    assert_eq!(d.element(&ctx, 0).unwrap().name(), "v");
    assert!(d.element(&ctx, 1).is_none());
}

#[test]
fn debug_print_shows_the_location() {
    let mut ctx = Context::new();
    let loc = Location::new(&mut ctx, "a.v", 3, 7);
    let op = OperationState::new("test.op", &loc).create(&mut ctx).unwrap();
    let mut f = FormatterCallback::new();
    op.print(&ctx, &mut f, true);
    assert_eq!(f.user_data(), "\"test.op\"() : () -> () loc(\"a.v\":3:7)\n");
    let unknown = Location::new_unknown(&mut ctx);
    let op2 = OperationState::new("test.op", &unknown).create(&mut ctx).unwrap();
    let mut g = FormatterCallback::new();
    op2.print(&ctx, &mut g, true);
    assert_eq!(g.user_data(), "\"test.op\"() : () -> () loc(unknown)\n");
}

#[test]
fn verifier_checks_successors_before_a_run() {
    let mut ctx = Context::new();
    let loc = Location::new_unknown(&mut ctx);
    let module = circt::Module::create(&mut ctx, &loc);
    let target = Block::new(&mut ctx);
    let t = *target.get();
    let mut st = OperationState::new("test.br", &loc);
    st.add_successor(&t);
    let br = st.create(&mut ctx).unwrap();
    module.body(&ctx).unwrap().append_op(&mut ctx, &br);
    assert!(br.verify(&ctx));
    target.release(&mut ctx);
    assert!(!br.verify(&ctx));
    let pm = PassManager::new(&mut ctx);
    assert!(pm.run(&ctx, &module).is_ok());
    pm.enable_verifier(&mut ctx, true);
    assert!(pm.run(&ctx, &module).is_ok());
    let gone = circt::Module(br.0);
    match pm.run(&ctx, &gone) {
        Err(Error::PassManagerRunFailure(n)) => assert_eq!(n, "test.br"),
        _ => panic!("a test.br operation is not a builtin.module"),
    }
}

#[test]
fn blocks_detach_and_regions_follow() {
    let mut ctx = Context::new();
    let loc = Location::new_unknown(&mut ctx);
    let r1 = Region::new(&mut ctx);
    let r2 = Region::new(&mut ctx);
    let (g1, g2) = (*r1.get(), *r2.get());
    let blk = Block::new(&mut ctx);
    let b = *blk.get();
    g1.append_block(&mut ctx, blk);
    let mut st = OperationState::new("test.two", &loc);
    st.add_region(r1);
    st.add_region(r2);
    st.create(&mut ctx).unwrap();
    assert_eq!(g1.next(&ctx), Some(g2));
    assert_eq!(g2.next(&ctx), None);
    let owned = b.detach(&mut ctx).unwrap();
    assert_eq!(g1.first_block(&ctx), None);
    assert_eq!(b.parent_region(&ctx), None);
    owned.release(&mut ctx);
    assert!(b.detach(&mut ctx).is_none());
    let s = circt::StringRef::from_str("hé");
    assert_eq!(s.as_bytes(), "hé".as_bytes());
    let note = Diagnostic { severity: DiagnosticSeverity::Note, location: loc, message: String::new(), notes: Vec::new() };
    let d = Diagnostic { severity: DiagnosticSeverity::Error, location: loc, message: String::new(), notes: vec![note] };
    assert_eq!(d.get_note(0).severity(), DiagnosticSeverity::Note);
}

#[test]
fn narrowing_errors_name_the_kind_and_the_type() {
    let mut ctx = Context::new();
    let i8 = IntegerType::new(&mut ctx, 8).as_type();
    let again = IntegerType::new(&mut ctx, 8).as_type();
    assert!(i8.equal_to(&again));
    match circt::hw::InOutType::try_from(&ctx, i8) {
        Err(Error::KindMismatch { expected, actual }) => {
            assert_eq!(expected, "InOutType");
            assert_eq!(actual, "i8");
        }
        _ => panic!("i8 is not an inout type"),
    }
}

#[test]
fn concat_needs_one_element_type() {
    let mut b = OpBuilder::new(Context::new());
    let i8 = IntegerType::new(&mut b.ctx, 8).as_type();
    let i1 = IntegerType::new(&mut b.ctx, 1).as_type();
    let a8 = circt::hw::ArrayType::new(&mut b.ctx, &i8, 2).as_type();
    let a1 = circt::hw::ArrayType::new(&mut b.ctx, &i1, 2).as_type();
    let x = circt::hw::ConstantOp::build(&mut b, 8, 1).unwrap().result(&b.ctx);
    let y = circt::hw::ConstantOp::build(&mut b, 1, 1).unwrap().result(&b.ctx);
    let v8 = circt::hw::ArrayCreateOp::new(&mut b, &a8, &[x, x]).unwrap().result(&b.ctx);
    let v1 = circt::hw::ArrayCreateOp::new(&mut b, &a1, &[y, y]).unwrap().result(&b.ctx);
    assert!(circt::hw::ArrayConcatOp::new(&mut b, &[v8, v1]).is_none());
    assert!(circt::hw::ArrayConcatOp::new(&mut b, &[]).is_none());
    assert!(circt::hw::ArrayConcatOp::new(&mut b, &[v8, v8]).is_some());
}

#[test]
fn module_builder_reports_missing_outputs() {
    let mut builder = OpBuilder::new(Context::new());
    let loc = *builder.loc();
    let module = circt::Module::create(&mut builder.ctx, &loc);
    let i1 = IntegerType::new(&mut builder.ctx, 1).as_type();
    let mut ports = ModulePortInfo::new();
    ports.add_input("a", &i1);
    ports.add_output("o", &i1);
    let ok = HwModuleOp::build_with(&mut builder, &module, "m", &ports, &[], "", |b: OpBuilder, _body, ins: Vec<(String, circt::Value)>| {
        assert_eq!(ins.len(), 1);
        assert_eq!(ins[0].0, "a");
        let a = ins[0].1;
        (b, vec![("o".to_string(), a)])
    })
    .unwrap();
    let body = circt::NamedOp::as_operation(&ok).first_block(&builder.ctx).unwrap();
    let term = body.terminator(&builder.ctx).unwrap();
    assert_eq!(term.operand(&builder.ctx, 0), body.argument(&builder.ctx, 0));
    let missing = HwModuleOp::build_with(&mut builder, &module, "n", &ports, &[], "", |b: OpBuilder, _body, _ins: Vec<(String, circt::Value)>| (b, vec![("p".to_string(), circt::Value(circt::MlirValue { ptr: 1 }))]));
    match missing {
        Err(Error::SimpleError(m)) => assert_eq!(m, "Value for output port: o is missing!"),
        _ => panic!("output o has no value"),
    }
}

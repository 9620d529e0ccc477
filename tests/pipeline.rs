use circt::context::Context;
use circt::error::Error;
use circt::location::Location;
use circt::module::Module;
use circt::owned::Owned;
use circt::pass_manager::PassManager;
use circt::passes;
use circt::pipeline::parse_pipeline_fragment;

fn registered_context() -> Context {
    let mut ctx = Context::new();
    passes::register_passes(&mut ctx);
    circt::hw::register_arith_passes(&mut ctx);
    ctx
}

#[test]
fn parse_print_parse_keeps_the_pipeline() {
    let mut ctx = registered_context();
    let pm = PassManager::new(&mut ctx);
    pm.parse(&mut ctx, "builtin.module( cse , hw.module(canonicalize, cse), inline)").unwrap();
    let text = pm.print(&ctx);
    assert_eq!(text, "builtin.module(cse,hw.module(canonicalize,cse),inline)");
    let pm2 = PassManager::new(&mut ctx);
    pm2.parse(&mut ctx, &text).unwrap();
    assert_eq!(pm2.print(&ctx), text);
}

#[test]
fn fragments_read_back_from_their_text() {
    let toks = parse_pipeline_fragment("cse, a.b(canonicalize), c()").unwrap();
    let mut out = String::new();
    circt::pipeline::print_pipeline(&toks, &mut out);
    assert_eq!(out, "cse,a.b(canonicalize),c()");
    assert!(parse_pipeline_fragment("").unwrap().is_empty());
    assert!(parse_pipeline_fragment("cse,").is_none());
    assert!(parse_pipeline_fragment("a(b").is_none());
    assert!(parse_pipeline_fragment("a)b").is_none());
    assert!(parse_pipeline_fragment("cs e").is_none());
    assert!(parse_pipeline_fragment("a(b)c").is_none());
}

#[test]
fn test_pm() {
    let mut ctx = registered_context();
    let pm = PassManager::new(&mut ctx);
    circt::hw::dialect().load(&mut ctx).unwrap();
    assert!(pm.parse(&mut ctx, "asdfasdfasf").is_err());
    pm.parse(&mut ctx, "builtin.module(lower-hwarith-to-hw)").expect("should succeed");

    let loc = Location::new_unknown(&mut ctx);
    let module = Module::create(&mut ctx, &loc);
    for pipeline in &["builtin.module(lower-hwarith-to-hw)"] {
        pm.parse(&mut ctx, pipeline).expect("parse failed");
    }
    pm.run(&ctx, &module).unwrap();
}

#[test]
fn failed_parse_leaves_the_pipeline() {
    let mut ctx = registered_context();
    let pm = Owned::<PassManager>::new(&mut ctx);
    let p = *pm.get();
    p.parse(&mut ctx, "builtin.module(cse)").unwrap();
    match p.parse(&mut ctx, "builtin.module(cse") {
        Err(Error::PipelineParse(_)) => {}
        _ => panic!("an unclosed pipeline must not parse"),
    }
    assert_eq!(p.print(&ctx), "builtin.module(cse)");
    let loc = Location::new_unknown(&mut ctx);
    let module = Module::create(&mut ctx, &loc);
    assert!(p.run(&ctx, &module).is_ok());
    pm.release(&mut ctx);
}

#[test]
fn unregistered_passes_and_wrong_anchors_are_refused() {
    let mut ctx = registered_context();
    let pm = PassManager::new(&mut ctx);
    assert!(matches!(pm.parse(&mut ctx, "builtin.module(no-such-pass)"), Err(Error::PipelineParse(_))));
    assert!(matches!(pm.parse(&mut ctx, "hw.module(cse)"), Err(Error::PipelineParse(_))));
    assert!(matches!(pm.parse(&mut ctx, "builtin.module(cse),builtin.module(cse)"), Err(Error::PipelineParse(_))));
    assert_eq!(pm.print(&ctx), "builtin.module()");
}

#[test]
fn nested_managers_run() {
    let mut ctx = Context::new();
    ctx.register_pass("no-op");
    let pm = PassManager::new(&mut ctx);
    pm.enable_verifier(&mut ctx, true);
    let outer = pm.nest(&mut ctx, "outer.op").unwrap();
    let inner = outer.nest(&mut ctx, "inner.op").unwrap();
    assert!(inner.parse_pass(&mut ctx, "no-op").is_ok());
    assert_eq!(pm.print(&ctx), "builtin.module(outer.op(inner.op(no-op)))");
    assert_eq!(inner.print(&ctx), "inner.op(no-op)");

    let loc = Location::new_unknown(&mut ctx);
    let module = Module::create(&mut ctx, &loc);
    let body = module.body(&ctx).unwrap();
    let region = circt::Region::new(&mut ctx);
    let block = circt::Block::new(&mut ctx);
    let b = *block.get();
    region.get().append_block(&mut ctx, block);
    let mut outer_state = circt::OperationState::new("outer.op", &loc);
    outer_state.add_region(region);
    let outer_op = outer_state.create(&mut ctx).unwrap();
    body.append_op(&mut ctx, &outer_op);
    let inner_op = circt::OperationState::new("inner.op", &loc).create(&mut ctx).unwrap();
    b.append_op(&mut ctx, &inner_op);
    assert_eq!(inner_op.parent_block(&ctx), Some(b));
    assert!(pm.run(&ctx, &module).is_ok());
}

#[test]
fn passes_added_in_order() {
    let mut ctx = registered_context();
    let pm = PassManager::new(&mut ctx);
    assert!(pm.add_pass(&mut ctx, &passes::cse()));
    pm.parse_pass(&mut ctx, "canonicalize, cse").unwrap();
    let n = pm.nest(&mut ctx, "hw.module").unwrap();
    assert!(n.add_pass(&mut ctx, &passes::inliner()));
    assert_eq!(pm.print(&ctx), "builtin.module(cse,canonicalize,cse,hw.module(inline))");
}

#[test]
fn run_on_another_anchor_fails() {
    let mut ctx = registered_context();
    let pm = PassManager::new_anchored_on(&mut ctx, "hw.module");
    let loc = Location::new_unknown(&mut ctx);
    let module = Module::create(&mut ctx, &loc);
    match pm.run(&ctx, &module) {
        Err(Error::PassManagerRunFailure(name)) => assert_eq!(name, "builtin.module"),
        _ => panic!("a hw.module manager does not run on a builtin.module"),
    }
}

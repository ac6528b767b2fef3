use cranelift::codegen::Context;
use cranelift::codegen::ir::Function;
use cranelift::codegen::ir::UserFuncName;
use cranelift::codegen::ir::types;
use cranelift::prelude::AbiParam;
use cranelift::prelude::Configurable;
use cranelift::prelude::FunctionBuilder;
use cranelift::prelude::FunctionBuilderContext;
use cranelift::prelude::InstBuilder;
use cranelift::prelude::Signature;
use cranelift::prelude::isa;
use cranelift::prelude::settings;
use cranelift_module::Linkage;
use cranelift_module::Module;
use ragec::ast::Expr;
use ragec::ast::Lit;
use ragec::ast::Stmt;
use ragec::fbits::f32_bits_of_i64;
use ragec::fbits::f64_bits_of_i64;
use ragec::lower::RageParser;
use ragec::runtime::gen_libc;
use ragec::sink::open_entry_block;
use ragec::types::RageType;

fn decl(name: &str, ty: &str) -> Stmt {
    Stmt::VarDeclaration { identifier: name.to_string(), typing: ty.to_string() }
}

fn def_num(name: &str, lexeme: &str) -> Stmt {
    Stmt::VarDefinition { identifier: name.to_string(), value: Lit::Number(lexeme.to_string()) }
}

fn call(callee: &str, args: Vec<Expr>) -> Stmt {
    Stmt::FnCall { identifier: callee.to_string(), args }
}

/// Drive the whole pipeline against the real backend: declare the
/// runtime, lower the statements, add the implicit return, and emit an
/// object file, whose bytes are returned.
fn compile_to_object(stmts: Vec<Stmt>) -> Vec<u8> {
    let mut shared_builder = settings::builder();
    shared_builder.enable("is_pic").unwrap();
    let shared_flags = settings::Flags::new(shared_builder);

    let isa_builder = isa::lookup(target_lexicon::Triple::host()).unwrap();
    let isa = isa_builder.finish(shared_flags).unwrap();
    let call_conv = isa.default_call_conv();

    let mut sig = Signature::new(call_conv);
    sig.returns.push(AbiParam::new(types::I32));

    let obj_builder = cranelift_object::ObjectBuilder::new(
        isa,
        "main",
        cranelift_module::default_libcall_names(),
    )
    .unwrap();
    let mut obj_module = cranelift_object::ObjectModule::new(obj_builder);

    let fid = obj_module.declare_function("main", Linkage::Export, &sig).unwrap();

    let mut cl_fn = Function::with_name_signature(UserFuncName::user(0, 0), sig);
    let mut cl_fn_builder_ctx = FunctionBuilderContext::new();
    let mut cl_fn_builder = FunctionBuilder::new(&mut cl_fn, &mut cl_fn_builder_ctx);

    let libc_decl = gen_libc(&mut obj_module, &mut cl_fn_builder).unwrap();

    open_entry_block(&mut cl_fn_builder);

    let mut cl_fn_builder = RageParser::parse(&stmts, cl_fn_builder, &libc_decl).unwrap();

    let val = cl_fn_builder.ins().iconst(types::I32, 0);
    cl_fn_builder.ins().return_(&[val]);
    cl_fn_builder.seal_all_blocks();
    cl_fn_builder.finalize();

    let mut context = Context::for_function(cl_fn);
    obj_module.define_function(fid, &mut context).unwrap();
    let res = obj_module.finish();
    res.object.write().unwrap()
}

#[test]
fn end_to_end_scenario_compiles() {
    let bytes = compile_to_object(vec![
        decl("x", "i8"),
        def_num("x", "65"),
        call("libc_putchar", vec![Expr::Identifier("x".to_string())]),
    ]);
    assert!(!bytes.is_empty());
}

#[test]
fn every_supported_width_compiles() {
    let bytes = compile_to_object(vec![
        decl("a", "i8"),
        decl("b", "i16"),
        decl("c", "i32"),
        decl("d", "i64"),
        decl("e", "bool"),
        decl("f", "char"),
        def_num("a", "1"),
        def_num("b", "2"),
        def_num("c", "3"),
        def_num("d", "4"),
        Stmt::VarDefinition {
            identifier: "e".to_string(),
            value: Lit::Boolean("false".to_string()),
        },
        Stmt::VarDefinition {
            identifier: "f".to_string(),
            value: Lit::Char("Z".to_string()),
        },
    ]);
    assert!(!bytes.is_empty());
}

#[test]
fn float_definitions_compile() {
    let bytes = compile_to_object(vec![
        decl("f", "f32"),
        decl("d", "f64"),
        def_num("f", "65"),
        def_num("d", "-7"),
    ]);
    assert!(!bytes.is_empty());
}

#[test]
fn literal_call_arguments_compile() {
    let bytes = compile_to_object(vec![call(
        "libc_putchar",
        vec![Expr::Literal(Lit::Char("H".to_string()))],
    )]);
    assert!(!bytes.is_empty());
}

#[test]
fn parse_reports_the_failing_statement() {
    let mut shared_builder = settings::builder();
    shared_builder.enable("is_pic").unwrap();
    let shared_flags = settings::Flags::new(shared_builder);
    let isa_builder = isa::lookup(target_lexicon::Triple::host()).unwrap();
    let isa = isa_builder.finish(shared_flags).unwrap();
    let mut sig = Signature::new(isa.default_call_conv());
    sig.returns.push(AbiParam::new(types::I32));
    let obj_builder = cranelift_object::ObjectBuilder::new(
        isa,
        "main",
        cranelift_module::default_libcall_names(),
    )
    .unwrap();
    let mut obj_module = cranelift_object::ObjectModule::new(obj_builder);
    let mut cl_fn = Function::with_name_signature(UserFuncName::user(0, 0), sig);
    let mut cl_fn_builder_ctx = FunctionBuilderContext::new();
    let mut cl_fn_builder = FunctionBuilder::new(&mut cl_fn, &mut cl_fn_builder_ctx);
    let libc_decl = gen_libc(&mut obj_module, &mut cl_fn_builder).unwrap();
    open_entry_block(&mut cl_fn_builder);

    let stmts = vec![decl("x", "i8"), def_num("y", "1")];
    let d = match RageParser::parse(&stmts, cl_fn_builder, &libc_decl) {
        Ok(_) => panic!("lowering should have failed"),
        Err(d) => d,
    };
    assert_eq!(d.stmt_index, 1);
    assert_eq!(d.error, ragec::errors::LowerError::UndeclaredVariable);
}

#[test]
fn emitted_ir_holds_the_lowered_instructions() {
    let mut shared_builder = settings::builder();
    shared_builder.enable("is_pic").unwrap();
    let shared_flags = settings::Flags::new(shared_builder);
    let isa_builder = isa::lookup(target_lexicon::Triple::host()).unwrap();
    let isa = isa_builder.finish(shared_flags).unwrap();
    let mut sig = Signature::new(isa.default_call_conv());
    sig.returns.push(AbiParam::new(types::I32));
    let obj_builder = cranelift_object::ObjectBuilder::new(
        isa,
        "main",
        cranelift_module::default_libcall_names(),
    )
    .unwrap();
    let mut obj_module = cranelift_object::ObjectModule::new(obj_builder);
    let mut cl_fn = Function::with_name_signature(UserFuncName::user(0, 0), sig);
    let mut cl_fn_builder_ctx = FunctionBuilderContext::new();
    let mut cl_fn_builder = FunctionBuilder::new(&mut cl_fn, &mut cl_fn_builder_ctx);
    let libc_decl = gen_libc(&mut obj_module, &mut cl_fn_builder).unwrap();
    open_entry_block(&mut cl_fn_builder);

    let stmts = vec![
        decl("x", "i8"),
        def_num("x", "65"),
        call("libc_putchar", vec![Expr::Identifier("x".to_string())]),
    ];
    let mut cl_fn_builder = RageParser::parse(&stmts, cl_fn_builder, &libc_decl).unwrap();
    let val = cl_fn_builder.ins().iconst(types::I32, 0);
    cl_fn_builder.ins().return_(&[val]);
    cl_fn_builder.seal_all_blocks();
    cl_fn_builder.finalize();

    let text = format!("{}", cl_fn.display());
    assert!(text.contains("iconst.i8 65"), "missing constant in:\n{}", text);
    assert!(text.contains("call fn0"), "missing runtime call in:\n{}", text);
    assert!(text.contains("return"), "missing return in:\n{}", text);
}

#[test]
fn to_cl_type_matches_backend_tags() {
    assert_eq!(RageType::I8.to_cl_type(), Ok(types::I8));
    assert_eq!(RageType::I16.to_cl_type(), Ok(types::I16));
    assert_eq!(RageType::I32.to_cl_type(), Ok(types::I32));
    assert_eq!(RageType::I64.to_cl_type(), Ok(types::I64));
    assert_eq!(RageType::F32.to_cl_type(), Ok(types::F32));
    assert_eq!(RageType::F64.to_cl_type(), Ok(types::F64));
    assert_eq!(RageType::Boolean.to_cl_type(), Ok(types::I8));
    assert_eq!(RageType::Char.to_cl_type(), Ok(types::I8));
    assert!(RageType::String.to_cl_type().is_err());
    assert!(RageType::Pointer.to_cl_type().is_err());
    assert!(RageType::Null.to_cl_type().is_err());
}

#[test]
fn integer_to_float_encodings_match_the_machine() {
    let cases: [i64; 16] = [
        0,
        1,
        -1,
        65,
        255,
        16777215,
        16777216,
        16777217,
        -16777217,
        123456789,
        9007199254740993,
        -9007199254740993,
        999999999999999999,
        i64::MAX,
        i64::MIN,
        i64::MIN + 1,
    ];
    for v in cases {
        assert_eq!(f32_bits_of_i64(v), (v as f32).to_bits(), "binary32 of {}", v);
        assert_eq!(f64_bits_of_i64(v), (v as f64).to_bits(), "binary64 of {}", v);
    }
}

use ragec::ast::Expr;
use ragec::ast::Lit;
use ragec::ast::Stmt;
use ragec::errors::Diagnostic;
use ragec::errors::LowerError;
use ragec::ir::IrOp;
use ragec::lower::RageParser;
use ragec::runtime::RuntimeTable;
use ragec::types::MachineType;
use ragec::types::RageType;

fn table() -> RuntimeTable {
    RuntimeTable { put_char: 11, get_char: 12 }
}

fn decl(name: &str, ty: &str) -> Stmt {
    Stmt::VarDeclaration { identifier: name.to_string(), typing: ty.to_string() }
}

fn def_num(name: &str, lexeme: &str) -> Stmt {
    Stmt::VarDefinition { identifier: name.to_string(), value: Lit::Number(lexeme.to_string()) }
}

fn def_lit(name: &str, value: Lit) -> Stmt {
    Stmt::VarDefinition { identifier: name.to_string(), value }
}

fn call(callee: &str, args: Vec<Expr>) -> Stmt {
    Stmt::FnCall { identifier: callee.to_string(), args }
}

/// Run the lowering engine alone (no backend) over a statement list.
fn lower(stmts: Vec<Stmt>) -> Result<Vec<IrOp>, Diagnostic> {
    let mut lowerer = RageParser::new(table());
    for (i, s) in stmts.iter().enumerate() {
        if let Err(error) = lowerer.lower_stmt(s) {
            return Err(Diagnostic { stmt_index: i, error });
        }
    }
    Ok(lowerer.ops)
}

#[test]
fn duplicate_declaration_is_rejected() {
    let r = lower(vec![decl("x", "i8"), decl("x", "i32")]);
    assert_eq!(
        r,
        Err(Diagnostic { stmt_index: 1, error: LowerError::DuplicateDeclaration })
    );
}

#[test]
fn duplicate_declaration_does_not_corrupt_slots() {
    let mut lowerer = RageParser::new(table());
    lowerer.lower_stmt(&decl("x", "i8")).unwrap();
    assert!(lowerer.lower_stmt(&decl("x", "i32")).is_err());
    lowerer.lower_stmt(&decl("y", "i16")).unwrap();
    assert_eq!(
        lowerer.ops,
        vec![
            IrOp::DeclareVar { slot: 0, ty: MachineType::Int8 },
            IrOp::DeclareVar { slot: 1, ty: MachineType::Int16 },
        ]
    );
}

#[test]
fn char_literal_widens_to_declared_type() {
    let r = lower(vec![
        decl("x", "i32"),
        def_lit("x", Lit::Char("A".to_string())),
    ])
    .unwrap();
    assert_eq!(
        r,
        vec![
            IrOp::DeclareVar { slot: 0, ty: MachineType::Int32 },
            IrOp::DefConst { slot: 0, ty: MachineType::Int32, value: 65 },
        ]
    );
}

#[test]
fn bool_literal_widens_to_declared_type() {
    let r = lower(vec![
        decl("x", "i64"),
        def_lit("x", Lit::Boolean("true".to_string())),
    ])
    .unwrap();
    assert_eq!(r[1], IrOp::DefConst { slot: 0, ty: MachineType::Int64, value: 1 });
}

#[test]
fn slots_are_consecutive_and_never_reused() {
    let r = lower(vec![
        decl("a", "i8"),
        decl("b", "i32"),
        def_num("a", "1"),
        decl("c", "char"),
        def_num("a", "2"),
    ])
    .unwrap();
    let slots: Vec<u32> = r
        .iter()
        .filter_map(|op| match op {
            IrOp::DeclareVar { slot, .. } => Some(*slot),
            _ => None,
        })
        .collect();
    assert_eq!(slots, vec![0, 1, 2]);
    assert_eq!(r[2], IrOp::DefConst { slot: 0, ty: MachineType::Int8, value: 1 });
    assert_eq!(r[4], IrOp::DefConst { slot: 0, ty: MachineType::Int8, value: 2 });
}

#[test]
fn integer_and_char_literals_round_trip() {
    let by_number = lower(vec![decl("c", "char"), def_num("c", "65")]).unwrap();
    let by_char = lower(vec![
        decl("c", "char"),
        def_lit("c", Lit::Char("A".to_string())),
    ])
    .unwrap();
    assert_eq!(by_number, by_char);
    assert_eq!(by_number[1], IrOp::DefConst { slot: 0, ty: MachineType::Int8, value: 65 });
}

#[test]
fn undeclared_assignment_fails() {
    let r = lower(vec![def_num("ghostly", "1")]);
    assert_eq!(
        r,
        Err(Diagnostic { stmt_index: 0, error: LowerError::UndeclaredVariable })
    );
}

#[test]
fn undeclared_read_fails() {
    let r = lower(vec![call(
        "libc_putchar",
        vec![Expr::Identifier("nope".to_string())],
    )]);
    assert_eq!(
        r,
        Err(Diagnostic { stmt_index: 0, error: LowerError::UndeclaredVariable })
    );
}

#[test]
fn end_to_end_scenario_ops() {
    let r = lower(vec![
        decl("x", "i8"),
        def_num("x", "65"),
        call("libc_putchar", vec![Expr::Identifier("x".to_string())]),
    ])
    .unwrap();
    assert_eq!(
        r,
        vec![
            IrOp::DeclareVar { slot: 0, ty: MachineType::Int8 },
            IrOp::DefConst { slot: 0, ty: MachineType::Int8, value: 65 },
            IrOp::ArgUse { slot: 0 },
            IrOp::CallRt { func: 11, argc: 1 },
        ]
    );
}

#[test]
fn getchar_call_uses_its_own_handle() {
    let r = lower(vec![
        decl("x", "i8"),
        call("libc_getchar", vec![Expr::Identifier("x".to_string())]),
    ])
    .unwrap();
    assert_eq!(r[2], IrOp::CallRt { func: 12, argc: 1 });
}

#[test]
fn literal_call_arguments_use_their_own_widths() {
    let r = lower(vec![call(
        "libc_putchar",
        vec![Expr::Literal(Lit::Number("66".to_string()))],
    )])
    .unwrap();
    assert_eq!(r[0], IrOp::ArgConst { ty: MachineType::Int64, value: 66 });
    let r = lower(vec![call(
        "libc_putchar",
        vec![Expr::Literal(Lit::Char("B".to_string()))],
    )])
    .unwrap();
    assert_eq!(r[0], IrOp::ArgConst { ty: MachineType::Int8, value: 66 });
}

#[test]
fn call_arguments_keep_their_order() {
    let r = lower(vec![
        decl("x", "i8"),
        call(
            "libc_putchar",
            vec![
                Expr::Literal(Lit::Number("1".to_string())),
                Expr::Identifier("x".to_string()),
                Expr::Literal(Lit::Char("C".to_string())),
            ],
        ),
    ])
    .unwrap();
    assert_eq!(
        r,
        vec![
            IrOp::DeclareVar { slot: 0, ty: MachineType::Int8 },
            IrOp::ArgConst { ty: MachineType::Int64, value: 1 },
            IrOp::ArgUse { slot: 0 },
            IrOp::ArgConst { ty: MachineType::Int8, value: 67 },
            IrOp::CallRt { func: 11, argc: 3 },
        ]
    );
}

#[test]
fn unknown_function_fails() {
    let r = lower(vec![call(
        "libc_exit",
        vec![Expr::Literal(Lit::Number("0".to_string()))],
    )]);
    assert_eq!(
        r,
        Err(Diagnostic { stmt_index: 0, error: LowerError::UnknownFunction })
    );
}

#[test]
fn call_arity_is_passed_through() {
    let r = lower(vec![call("libc_getchar", vec![])]).unwrap();
    assert_eq!(r, vec![IrOp::CallRt { func: 12, argc: 0 }]);
}

#[test]
fn unsupported_type_declaration_fails_cleanly() {
    let r = lower(vec![decl("s", "str"), def_num("s", "1")]);
    assert_eq!(
        r,
        Err(Diagnostic { stmt_index: 0, error: LowerError::Unsupported })
    );
}

#[test]
fn unsupported_literals_fail_cleanly() {
    let r = lower(vec![decl("x", "i8"), def_lit("x", Lit::Null)]);
    assert_eq!(
        r,
        Err(Diagnostic { stmt_index: 1, error: LowerError::Unsupported })
    );
    let r = lower(vec![
        decl("x", "i8"),
        def_lit("x", Lit::Str("hi".to_string())),
    ]);
    assert_eq!(
        r,
        Err(Diagnostic { stmt_index: 1, error: LowerError::Unsupported })
    );
}

#[test]
fn unknown_type_fails() {
    let r = lower(vec![decl("x", "u8")]);
    assert_eq!(
        r,
        Err(Diagnostic { stmt_index: 0, error: LowerError::UnknownType })
    );
}

#[test]
fn malformed_literals_fail() {
    for lexeme in ["", "abc", "1x", "9223372036854775808", "-9223372036854775809", "+"] {
        let r = lower(vec![decl("x", "i64"), def_num("x", lexeme)]);
        assert_eq!(
            r,
            Err(Diagnostic { stmt_index: 1, error: LowerError::LiteralParseError }),
            "lexeme {:?}",
            lexeme
        );
    }
}

#[test]
fn extreme_integer_literals_lower() {
    let r = lower(vec![
        decl("x", "i64"),
        def_num("x", "9223372036854775807"),
        def_num("x", "-9223372036854775808"),
        def_num("x", "+17"),
    ])
    .unwrap();
    assert_eq!(r[1], IrOp::DefConst { slot: 0, ty: MachineType::Int64, value: i64::MAX });
    assert_eq!(r[2], IrOp::DefConst { slot: 0, ty: MachineType::Int64, value: i64::MIN });
    assert_eq!(r[3], IrOp::DefConst { slot: 0, ty: MachineType::Int64, value: 17 });
}

#[test]
fn multi_character_char_literal_fails() {
    let r = lower(vec![
        decl("c", "char"),
        def_lit("c", Lit::Char("ab".to_string())),
    ]);
    assert_eq!(
        r,
        Err(Diagnostic { stmt_index: 1, error: LowerError::LiteralParseError })
    );
}

#[test]
fn end_of_input_lowers_to_nothing() {
    let r = lower(vec![decl("x", "i8"), Stmt::EndOfInput]).unwrap();
    assert_eq!(r.len(), 1);
}

#[test]
fn type_registry_resolves_every_keyword() {
    assert_eq!(RageType::from_str("i8"), Some(RageType::I8));
    assert_eq!(RageType::from_str("i16"), Some(RageType::I16));
    assert_eq!(RageType::from_str("i32"), Some(RageType::I32));
    assert_eq!(RageType::from_str("i64"), Some(RageType::I64));
    assert_eq!(RageType::from_str("f32"), Some(RageType::F32));
    assert_eq!(RageType::from_str("f64"), Some(RageType::F64));
    assert_eq!(RageType::from_str("bool"), Some(RageType::Boolean));
    assert_eq!(RageType::from_str("char"), Some(RageType::Char));
    assert_eq!(RageType::from_str("str"), Some(RageType::String));
    assert_eq!(RageType::from_str("ptr"), Some(RageType::Pointer));
    assert_eq!(RageType::from_str("null"), Some(RageType::Null));
    assert_eq!(RageType::from_str("i128"), None);
    assert_eq!(RageType::from_str(""), None);
}

#[test]
fn machine_type_mapping() {
    assert_eq!(RageType::I8.machine_type(), Ok(MachineType::Int8));
    assert_eq!(RageType::Boolean.machine_type(), Ok(MachineType::Int8));
    assert_eq!(RageType::Char.machine_type(), Ok(MachineType::Int8));
    assert_eq!(RageType::I16.machine_type(), Ok(MachineType::Int16));
    assert_eq!(RageType::I32.machine_type(), Ok(MachineType::Int32));
    assert_eq!(RageType::I64.machine_type(), Ok(MachineType::Int64));
    assert_eq!(RageType::F32.machine_type(), Ok(MachineType::Float32));
    assert_eq!(RageType::F64.machine_type(), Ok(MachineType::Float64));
    assert_eq!(RageType::String.machine_type(), Err(LowerError::Unsupported));
    assert_eq!(RageType::Pointer.machine_type(), Err(LowerError::Unsupported));
    assert_eq!(RageType::Null.machine_type(), Err(LowerError::Unsupported));
}

#[test]
fn float_definitions_carry_ieee_encodings() {
    let r = lower(vec![decl("f", "f32"), def_num("f", "65")]).unwrap();
    assert_eq!(r[1], IrOp::DefConstF32 { slot: 0, bits: (65.0f32).to_bits() });
    let r = lower(vec![decl("d", "f64"), def_num("d", "-3")]).unwrap();
    assert_eq!(r[1], IrOp::DefConstF64 { slot: 0, bits: (-3.0f64).to_bits() });
}

use whale::ir::lower_ast::frontend as ast;
use whale::ir::lower_ast::{fits_identities, lower_o0, LowerError};
use whale::ir::{verify_module, ConstValue, DataLayout, FloatBits, Type};

fn i32_ty() -> ast::TypeRef {
    ast::TypeRef::Int { bits: 32, signed: true }
}

fn int_lit(bits: u16, signed: bool, value: i128) -> ast::Expr {
    ast::Expr::Lit(ast::Lit::Int { bits, signed, value })
}

fn var(name: &str) -> ast::Expr {
    ast::Expr::Var(name.into())
}

fn add(left: ast::Expr, right: ast::Expr) -> ast::Expr {
    ast::Expr::Binary { left: Box::new(left), op: ast::BinOpRef::Add, right: Box::new(right) }
}

fn function(ret: ast::TypeRef, body: Vec<ast::Stmt>) -> ast::Function {
    ast::Function { name: "f".into(), parameters: vec![], return_type: ret, body }
}

fn program(globals: Vec<ast::GlobalConst>, functions: Vec<ast::Function>) -> ast::Program {
    ast::Program { globals, functions }
}

fn lower(p: &ast::Program) -> Result<whale::ir::Module, LowerError> {
    assert!(fits_identities(p));
    lower_o0(p, "x86_64-whale-linux", DataLayout::default_64bit_le())
}

fn global(name: &str, ty: ast::TypeRef, init: ast::Expr) -> ast::GlobalConst {
    ast::GlobalConst { name: name.into(), ty, init }
}

#[test]
fn unknown_names_are_reported_by_name() {
    let p = program(vec![], vec![function(i32_ty(), vec![ast::Stmt::Return(Some(var("nowhere")))])]);
    assert!(matches!(lower(&p), Err(LowerError::UnknownVariable(n)) if n == "nowhere"));
}

#[test]
fn loop_jumps_outside_a_loop_are_errors() {
    let p = program(vec![], vec![function(ast::TypeRef::Void, vec![ast::Stmt::Break])]);
    assert!(matches!(lower(&p), Err(LowerError::BreakOutsideLoop)));
    let p = program(vec![], vec![function(ast::TypeRef::Void, vec![ast::Stmt::Continue])]);
    assert!(matches!(lower(&p), Err(LowerError::ContinueOutsideLoop)));
    let inside = ast::Stmt::While {
        cond: ast::Expr::Lit(ast::Lit::Bool(false)),
        body: vec![ast::Stmt::Continue, ast::Stmt::Break],
    };
    let p = program(vec![], vec![function(ast::TypeRef::Void, vec![inside])]);
    let m = lower(&p).unwrap();
    verify_module(&m).unwrap();
}

#[test]
fn named_constants_cannot_be_assigned_and_slots_are_not_constant() {
    let decl = ast::Stmt::ConstDecl { name: "k".into(), ty: i32_ty(), init: int_lit(32, true, 3) };
    let assign = ast::Stmt::Assign { name: "k".into(), value: int_lit(32, true, 4) };
    let p = program(vec![], vec![function(ast::TypeRef::Void, vec![decl, assign])]);
    assert!(matches!(lower(&p), Err(LowerError::AssignToConst(n)) if n == "k"));

    let slot = ast::Stmt::VarDecl { name: "v".into(), ty: i32_ty(), init: Some(int_lit(32, true, 1)) };
    let constant = ast::Stmt::ConstDecl { name: "k".into(), ty: i32_ty(), init: var("v") };
    let p = program(vec![], vec![function(ast::TypeRef::Void, vec![slot, constant])]);
    assert!(matches!(lower(&p), Err(LowerError::NonConstExpr)));
}

#[test]
fn unsupported_widths_name_the_width() {
    let bad_int = ast::TypeRef::Int { bits: 7, signed: true };
    let p = program(vec![], vec![function(bad_int, vec![])]);
    assert!(matches!(lower(&p), Err(LowerError::UnsupportedType(m)) if m == "integer width 7"));
    let bad_float = ast::TypeRef::Float { bits: 24 };
    let p = program(vec![], vec![function(bad_float, vec![])]);
    assert!(matches!(lower(&p), Err(LowerError::UnsupportedType(m)) if m == "float width 24"));
}

#[test]
fn non_void_functions_must_return_a_value() {
    let p = program(vec![], vec![function(i32_ty(), vec![ast::Stmt::Return(None)])]);
    assert!(matches!(lower(&p), Err(LowerError::UnsupportedStmt)));
}

#[test]
fn mismatched_operands_report_both_types() {
    let e = add(int_lit(32, true, 1), int_lit(64, true, 1));
    let p = program(vec![], vec![function(i32_ty(), vec![ast::Stmt::Return(Some(e))])]);
    match lower(&p) {
        Err(LowerError::TypeMismatch { expected, got }) => {
            assert_eq!(expected, Type::I32);
            assert_eq!(got, Type::I64);
        },
        other => panic!("unexpected {other:?}"),
    }
}

#[test]
fn constant_arithmetic_wraps_to_its_width_and_floats_are_not_folded() {
    let g = global("wrapped", ast::TypeRef::Int { bits: 8, signed: true }, add(int_lit(8, true, 127), int_lit(8, true, 1)));
    let u = global("unsigned", ast::TypeRef::Int { bits: 8, signed: false }, add(int_lit(8, false, 255), int_lit(8, false, 2)));
    let s = global("sum", i32_ty(), add(var("five"), int_lit(32, true, 2)));
    let five = global("five", i32_ty(), add(int_lit(32, true, 2), int_lit(32, true, 3)));
    let p = program(vec![g, u, five, s], vec![]);
    let m = lower(&p).unwrap();
    assert_eq!(m.globals[0].init, ConstValue::I(-128));
    assert_eq!(m.globals[1].init, ConstValue::U(1));
    assert_eq!(m.globals[2].init, ConstValue::I(5));
    assert_eq!(m.globals[3].init, ConstValue::I(7));
    verify_module(&m).unwrap();

    let f = ast::Expr::Lit(ast::Lit::Float { bits: 32, value: FloatBits::F32(0x3f80_0000) });
    let g = global("g", ast::TypeRef::Float { bits: 32 }, add(f.clone(), f));
    let p = program(vec![g], vec![]);
    assert!(matches!(lower(&p), Err(LowerError::UnsupportedExpr)));
}

#[test]
fn module_constants_see_only_earlier_constants() {
    let later = global("a", i32_ty(), var("b"));
    let b = global("b", i32_ty(), int_lit(32, true, 1));
    let p = program(vec![later, b], vec![]);
    assert!(matches!(lower(&p), Err(LowerError::UnknownVariable(n)) if n == "b"));
}

#[test]
fn integer_literal_ranges_agree_in_globals_and_bodies() {
    for (value, ok) in [(-128i128, true), (127, true), (128, false), (-129, false)] {
        let g = global("g", ast::TypeRef::Int { bits: 8, signed: true }, int_lit(8, true, value));
        let in_global = lower(&program(vec![g], vec![]));
        let body = vec![ast::Stmt::Return(Some(int_lit(8, true, value)))];
        let in_body = lower(&program(vec![], vec![function(ast::TypeRef::Int { bits: 8, signed: true }, body)]));
        assert_eq!(in_global.is_ok(), ok);
        assert_eq!(in_body.is_ok(), ok);
        if !ok {
            assert!(matches!(in_global, Err(LowerError::InvalidLiteral { ty: Type::I8, value: ConstValue::I(v) }) if v == value));
            assert!(matches!(in_body, Err(LowerError::InvalidLiteral { ty: Type::I8, value: ConstValue::I(v) }) if v == value));
        }
    }
    let negative_unsigned = int_lit(8, false, -1);
    let in_body = lower(&program(vec![], vec![function(ast::TypeRef::Int { bits: 8, signed: false }, vec![ast::Stmt::Return(Some(negative_unsigned))])]));
    assert!(matches!(in_body, Err(LowerError::InvalidLiteral { ty: Type::U8, value: ConstValue::I(-1) })));
}

#[test]
fn the_first_error_in_source_order_is_reported() {
    let first = ast::Stmt::Return(Some(var("first")));
    let second = ast::Stmt::Return(Some(var("second")));
    let p = program(vec![], vec![function(i32_ty(), vec![first, second])]);
    assert!(matches!(lower(&p), Err(LowerError::UnknownVariable(n)) if n == "first"));
    let body_error = function(i32_ty(), vec![ast::Stmt::Return(Some(var("late")))]);
    let bad_global = global("g", ast::TypeRef::Int { bits: 3, signed: true }, int_lit(32, true, 1));
    let p = program(vec![bad_global], vec![body_error]);
    assert!(matches!(lower(&p), Err(LowerError::UnsupportedType(m)) if m == "integer width 3"));
}

#[test]
fn shadowing_and_block_scopes_follow_the_latest_binding() {
    let outer = ast::Stmt::VarDecl { name: "x".into(), ty: i32_ty(), init: Some(int_lit(32, true, 1)) };
    let inner = ast::Stmt::If {
        cond: ast::Expr::Lit(ast::Lit::Bool(true)),
        then_body: vec![ast::Stmt::VarDecl { name: "y".into(), ty: ast::TypeRef::Bool, init: None }],
        else_body: vec![],
    };
    let after = ast::Stmt::Return(Some(var("y")));
    let p = program(vec![], vec![function(ast::TypeRef::Bool, vec![outer.clone(), inner, after])]);
    assert!(matches!(lower(&p), Err(LowerError::UnknownVariable(n)) if n == "y"));
    let shadow = ast::Stmt::VarDecl { name: "x".into(), ty: ast::TypeRef::Bool, init: None };
    let p = program(vec![], vec![function(ast::TypeRef::Bool, vec![outer, shadow, ast::Stmt::Return(Some(var("x")))])]);
    let m = lower(&p).unwrap();
    verify_module(&m).unwrap();
}

#[test]
fn identity_budget_is_checked_per_function() {
    let p = program(vec![], vec![function(ast::TypeRef::Void, vec![])]);
    assert!(fits_identities(&p));
    let mut big = function(ast::TypeRef::Void, vec![]);
    big.parameters = (0..3).map(|i| ast::Parameter { name: format!("p{i}"), ty: ast::TypeRef::Bool }).collect();
    assert!(fits_identities(&program(vec![], vec![big])));
}

#[test]
fn lowering_keeps_one_instruction_per_source_operation() {
    let cmp = ast::Expr::Cmp {
        left: Box::new(int_lit(32, true, 1)),
        op: ast::CmpOpRef::Lt,
        right: Box::new(int_lit(32, true, 2)),
    };
    let body = vec![
        ast::Stmt::ConstDecl { name: "c".into(), ty: i32_ty(), init: add(int_lit(32, true, 1), int_lit(32, true, 2)) },
        ast::Stmt::ExprStmt(cmp),
        ast::Stmt::Return(None),
        ast::Stmt::ExprStmt(add(var("c"), int_lit(32, true, 4))),
    ];
    let m = lower(&program(vec![], vec![function(ast::TypeRef::Void, body)])).unwrap();
    let all: Vec<&whale::ir::Instruction> = m.functions[0].blocks.iter().flat_map(|b| &b.instructions).collect();
    let bins = all.iter().filter(|i| matches!(i, whale::ir::Instruction::Bin { .. })).count();
    let cmps = all.iter().filter(|i| matches!(i, whale::ir::Instruction::Cmp { .. })).count();
    let decls = all.iter().filter(|i| matches!(i, whale::ir::Instruction::ConstDecl { .. })).count();
    assert_eq!((bins, cmps, decls), (1, 1, 1));
}

#[test]
fn verification_errors_name_the_function_at_fault() {
    let f = |name: &str| ast::Function {
        name: name.into(),
        parameters: vec![],
        return_type: ast::TypeRef::Void,
        body: vec![ast::Stmt::Return(None)],
    };
    let mut m = lower(&program(vec![], vec![f("good"), f("bad")])).unwrap();
    verify_module(&m).unwrap();
    m.functions[1].value_types.push((whale::ir::ValueId(77), Type::I32));
    let err = verify_module(&m).unwrap_err();
    assert!(matches!(
        err,
        whale::ir::VerifyError::UnexpectedValueType { ref func, value } if func == "bad" && value == whale::ir::ValueId(77)
    ));
}

#[test]
fn numeric_ranges_and_storage_widths_are_checked() {
    let lowers = |bits: u16, text: &str| -> bool {
        match whale::ir::lower_ast::envelope::parse_decimal(text) {
            Err(_) => false,
            Ok(value) => {
                let ty = ast::TypeRef::Int { bits, signed: false };
                lower(&program(vec![global("g", ty, int_lit(bits, false, value))], vec![])).is_ok()
            },
        }
    };
    assert!(lowers(128, "1"));
    for value in ["-1", "+1", "1.0", " 1", "1e2", "", "340282366920938463463374607431768211456"] {
        assert!(!lowers(128, value), "{value}");
    }
    assert!(!lowers(8, &u128::MAX.to_string()));
    assert!(!lowers(8, "256"));
    for value in ["nan", "1.5", "0x1234", "0x100000000", "0xzzzzzzzz"] {
        assert!(FloatBits::parse(32, value).is_err(), "{value}");
    }
}

#[test]
fn binary_operands_keep_their_order_and_if_branches_to_then_first() {
    let sub = ast::Expr::Binary {
        left: Box::new(int_lit(32, true, 7)),
        op: ast::BinOpRef::Sub,
        right: Box::new(int_lit(32, true, 2)),
    };
    let m = lower(&program(vec![], vec![function(i32_ty(), vec![ast::Stmt::Return(Some(sub))])])).unwrap();
    let ins = &m.functions[0].blocks[0].instructions;
    match (&ins[0], &ins[1], &ins[2]) {
        (
            whale::ir::Instruction::Const { dst: a, value: ConstValue::I(7), .. },
            whale::ir::Instruction::Const { dst: b, value: ConstValue::I(2), .. },
            whale::ir::Instruction::Bin { lhs, rhs, .. },
        ) => assert!(lhs == a && rhs == b),
        _ => panic!("{ins:?}"),
    }
    let branch = ast::Stmt::If {
        cond: ast::Expr::Lit(ast::Lit::Bool(true)),
        then_body: vec![ast::Stmt::ExprStmt(int_lit(32, true, 1))],
        else_body: vec![],
    };
    let m = lower(&program(vec![], vec![function(ast::TypeRef::Void, vec![branch])])).unwrap();
    let f = &m.functions[0];
    let then_id = match &f.blocks[0].terminator {
        Some(whale::ir::Terminator::CBr { then_bb, else_bb, .. }) => {
            assert_eq!(else_bb.0, then_bb.0 + 1);
            *then_bb
        },
        other => panic!("{other:?}"),
    };
    let then_block = f.blocks.iter().find(|b| b.id == then_id).unwrap();
    assert!(matches!(then_block.instructions.as_slice(), [whale::ir::Instruction::Const { value: ConstValue::I(1), .. }]));
}

#[test]
fn straight_line_bodies_are_closed_in_their_entry_block() {
    let body = || vec![ast::Stmt::ExprStmt(int_lit(32, true, 1))];
    let m = lower(&program(vec![], vec![function(ast::TypeRef::Void, body())])).unwrap();
    assert!(matches!(
        &m.functions[0].blocks[0].terminator,
        Some(whale::ir::Terminator::Ret { ty: Type::Void, value: None })
    ));
    let m = lower(&program(vec![], vec![function(i32_ty(), body())])).unwrap();
    match &m.functions[0].blocks[0].terminator {
        Some(whale::ir::Terminator::Trap { reason }) => assert_eq!(reason, "missing return"),
        other => panic!("{other:?}"),
    }
}

#[test]
fn lowered_module_constants_pass_the_verifier() {
    let a = global("a", i32_ty(), add(int_lit(32, true, 1), int_lit(32, true, 2)));
    let b = global("b", i32_ty(), add(var("a"), int_lit(32, true, 4)));
    let m = lower(&program(vec![a, b], vec![])).unwrap();
    assert!(verify_module(&m).is_ok());
    assert!(matches!(m.globals[1].init, ConstValue::I(7)));
}

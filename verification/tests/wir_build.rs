use whale::wir::builder::build;
use whale::wir::instruction::Instruction;
use whale::wir::source::{Expr, Statement, AST};
use whale::wir::value::{Value, WIRType};

#[test]
fn each_statement_becomes_one_instruction_in_order() {
    let ast = AST {
        statements: vec![
            Statement::Print("Hello World".into()),
            Statement::Assign("a".into(), Expr::Integer(10)),
            Statement::Assign("b".into(), Expr::Bool(true)),
            Statement::Assign("c".into(), Expr::Identifier("a".into())),
            Statement::Assign("d".into(), Expr::String("text".into())),
        ],
    };
    let module = build(ast);
    let instrs = module.get();
    assert_eq!(instrs.len(), 5);
    assert!(matches!(&instrs[0], Instruction::Print { format, args } if format == "Hello World" && args.is_empty()));
    assert!(matches!(&instrs[1], Instruction::Store { name, value: Value::Integer(10) } if name == "a"));
    assert!(matches!(&instrs[2], Instruction::Store { name, value: Value::Boolean(true) } if name == "b"));
    assert!(matches!(&instrs[3], Instruction::Store { name, value: Value::Identifier(id) } if name == "c" && id == "a"));
    assert!(matches!(&instrs[4], Instruction::Store { name, value: Value::String(s) } if name == "d" && s == "text"));
    assert!(build(AST { statements: vec![] }).instructions.is_empty());
}

#[test]
fn word_types_copy_structurally() {
    let t = WIRType::Ptr(Box::new(WIRType::Array(Box::new(WIRType::Char))));
    assert_eq!(format!("{:?}", t.clone()), format!("{:?}", t));
}

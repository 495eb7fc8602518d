//! From source statements to word-level instructions, one for one.
use vstd::prelude::*;
use crate::wir::WIRModule;
use crate::wir::instruction::Instruction;
use crate::wir::source::{AST, Expr, Statement};
use crate::wir::value::Value;

verus! {

/// `v` holds the value that the source expression `e` writes.
pub open spec fn holds(v: Value, e: Expr) -> bool {
    match (e, v) {
        (Expr::Integer(x), Value::Integer(y)) => x == y,
        (Expr::String(s), Value::String(t)) => s@ == t@,
        (Expr::Bool(a), Value::Boolean(b)) => a == b,
        (Expr::Identifier(a), Value::Identifier(b)) => a@ == b@,
        _ => false,
    }
}

/// `i` is the instruction for statement `s`: a print of the text without
/// arguments, or a store of the assigned value under its name.
pub open spec fn built_from(i: Instruction, s: Statement) -> bool {
    match (s, i) {
        (Statement::Print(t), Instruction::Print { format, args }) => format@ == t@ && args@.len() == 0,
        (Statement::Assign(n, e), Instruction::Store { name, value }) => name@ == n@ && holds(value, e),
        _ => false,
    }
}

fn value_of(e: &Expr) -> (r: Value)
    ensures
        holds(r, *e),
{
    match e {
        Expr::Integer(i) => Value::Integer(*i),
        Expr::String(s) => Value::String(s.clone()),
        Expr::Bool(b) => Value::Boolean(*b),
        Expr::Identifier(id) => Value::Identifier(id.clone()),
    }
}

/// One instruction per statement, in order.
pub fn build(ast: AST) -> (r: WIRModule)
    ensures
        r.instructions@.len() == ast.statements@.len(),
        forall|i: int| 0 <= i < ast.statements@.len() ==> built_from(#[trigger] r.instructions@[i], ast.statements@[i]),
{
    let mut module = WIRModule::new();
    let mut i: usize = 0;
    while i < ast.statements.len()
        invariant
            0 <= i <= ast.statements@.len(),
            module.instructions@.len() == i,
            forall|j: int| 0 <= j < i ==> built_from(#[trigger] module.instructions@[j], ast.statements@[j]),
        decreases ast.statements.len() - i,
    {
        let instr = match &ast.statements[i] {
            Statement::Print(text) => Instruction::Print { format: text.clone(), args: Vec::new() },
            Statement::Assign(name, val) => Instruction::Store { name: name.clone(), value: value_of(val) },
        };
        let ghost before = module.instructions@;
        module.push(instr);
        proof {
            assert forall|j: int| 0 <= j < i + 1 implies built_from(#[trigger] module.instructions@[j], ast.statements@[j]) by {
                if j < i {
                    assert(module.instructions@[j] == before[j]);
                }
            }
        }
        i += 1;
    }
    module
}

} // verus!

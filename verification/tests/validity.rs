use semantic_analyzer::analyze;
use semantic_analyzer::analyzer::{
    block_is_well_formed, is_valid, is_well_formed, statement_is_well_formed,
};
use semantic_analyzer::ast::{Expr, Iterable, LiteralForm, Parameter, Program, Stmt};
use semantic_analyzer::position::SourcePosition;
use semantic_analyzer::samples;
use semantic_analyzer::types::Type;

fn at(line: u32, column: u32) -> SourcePosition {
    SourcePosition::new(line, column)
}

fn one(line: u32) -> Expr {
    Expr::literal(LiteralForm::Integer, "1", at(line, 9))
}

fn annotated(annotation: Type, line: u32) -> Stmt {
    Stmt::declaration("x", false, Some(annotation), one(line), at(line, 1))
}

#[test]
fn known_types_hold_no_unknown() {
    assert!(Type::Int.is_known());
    assert!(Type::Unit.is_known());
    assert!(Type::Array(Box::new(Type::Array(Box::new(Type::Str)))).is_known());
    assert!(Type::Function(vec![Type::Int, Type::Bool], Box::new(Type::Unit)).is_known());
    assert!(!Type::Unknown.is_known());
    assert!(!Type::Array(Box::new(Type::Unknown)).is_known());
    assert!(!Type::Function(vec![Type::Int, Type::Unknown], Box::new(Type::Unit)).is_known());
    assert!(!Type::Function(vec![Type::Int], Box::new(Type::Array(Box::new(Type::Unknown)))).is_known());
}

#[test]
fn a_tree_without_unknown_is_well_formed() {
    assert!(is_well_formed(&Program { statements: vec![] }));
    assert!(is_well_formed(&Program {
        statements: vec![
            samples::suma(1),
            samples::dividir(5),
            samples::division(14),
            annotated(Type::Float, 18),
            Stmt::Break { at: at(19, 1) },
        ],
    }));
}

#[test]
fn an_unknown_annotation_is_malformed() {
    assert!(statement_is_well_formed(&annotated(Type::Int, 1)));
    assert!(!statement_is_well_formed(&annotated(Type::Unknown, 1)));
    assert!(!statement_is_well_formed(&annotated(Type::Array(Box::new(Type::Unknown)), 1)));
    assert!(!block_is_well_formed(&vec![annotated(Type::Int, 1), annotated(Type::Unknown, 2)]));
    assert!(!block_is_well_formed(&vec![annotated(Type::Unknown, 1), annotated(Type::Int, 2)]));
}

#[test]
fn an_unknown_type_at_any_depth_is_malformed() {
    let bad = || vec![annotated(Type::Unknown, 3)];
    let good = || vec![annotated(Type::Int, 3)];
    let condition = || Expr::literal(LiteralForm::Boolean, "true", at(2, 4));
    assert!(!statement_is_well_formed(&Stmt::conditional(condition(), bad(), None, at(2, 1))));
    assert!(!statement_is_well_formed(&Stmt::conditional(condition(), good(), Some(bad()), at(2, 1))));
    assert!(statement_is_well_formed(&Stmt::conditional(condition(), good(), Some(good()), at(2, 1))));
    assert!(!statement_is_well_formed(&Stmt::block(bad(), at(2, 1))));
    let range = Iterable::Range { start: one(2), end: one(2) };
    assert!(!statement_is_well_formed(&Stmt::for_each("i", range, bad(), at(2, 1))));
    assert!(!statement_is_well_formed(&Stmt::function("f", vec![], Type::Unit, bad(), at(2, 1))));
    assert!(!statement_is_well_formed(&Stmt::function("f", vec![], Type::Unknown, good(), at(2, 1))));
    assert!(!statement_is_well_formed(&Stmt::function(
        "f",
        vec![Parameter::new("a", Type::Int, at(2, 6)), Parameter::new("b", Type::Unknown, at(2, 14))],
        Type::Unit,
        good(),
        at(2, 1),
    )));
}

#[test]
fn a_program_is_valid_where_nothing_is_reported() {
    let clean = Program { statements: vec![samples::sumar(1), samples::restar(5)] };
    assert!(is_valid(&clean));
    assert_eq!(analyze(&clean), vec![]);
    let faulty = Program { statements: vec![samples::sumar(1), samples::probar(5)] };
    assert!(!is_valid(&faulty));
    assert_eq!(analyze(&faulty).len(), 1);
    assert!(is_valid(&Program { statements: vec![] }));
}

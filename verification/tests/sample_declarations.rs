use semantic_analyzer::analyze;
use semantic_analyzer::analyzer::{copy_parameters, register_block, register_statement};
use semantic_analyzer::ast::{Arithmetic, BinaryOp, Expr, Parameter, Program, Stmt};
use semantic_analyzer::diagnostics::{Diagnostic, ErrorKind};
use semantic_analyzer::position::SourcePosition;
use semantic_analyzer::samples::{
    dividir, division, multiplicar, otra_funcion, probar, resta, restar, suma, sumar,
};
use semantic_analyzer::scope::ScopeManager;
use semantic_analyzer::types::Type;

fn at(line: u32, column: u32) -> SourcePosition {
    SourcePosition::new(line, column)
}

fn kinds(statements: Vec<Stmt>) -> Vec<ErrorKind> {
    analyze(&Program { statements }).iter().map(|d| d.kind).collect()
}

#[test]
fn suma_is_the_sum_of_its_two_parameters() {
    let expected = Stmt::Function {
        name: "suma".to_string(),
        params: vec![
            Parameter { name: "a".to_string(), ty: Type::Int, at: at(11, 9) },
            Parameter { name: "b".to_string(), ty: Type::Int, at: at(11, 17) },
        ],
        return_type: Type::Int,
        body: vec![Stmt::Return {
            result: Some(Expr::Binary {
                op: BinaryOp::Arithmetic(Arithmetic::Add),
                left: Box::new(Expr::Identifier { name: "a".to_string(), at: at(12, 12) }),
                right: Box::new(Expr::Identifier { name: "b".to_string(), at: at(12, 16) }),
                at: at(12, 12),
            }),
            at: at(12, 5),
        }],
        at: at(11, 1),
    };
    assert_eq!(suma(11), expected);
}

#[test]
fn the_arithmetic_samples_differ_in_name_and_operator() {
    let operator = |decl: &Stmt| match decl {
        Stmt::Function { name, body, .. } => match &body[0] {
            Stmt::Return { result: Some(Expr::Binary { op, .. }), .. } => (name.clone(), *op),
            _ => panic!("no return of a binary operation"),
        },
        _ => panic!("no function"),
    };
    assert_eq!(operator(&suma(1)), ("suma".to_string(), BinaryOp::Arithmetic(Arithmetic::Add)));
    assert_eq!(operator(&sumar(1)), ("sumar".to_string(), BinaryOp::Arithmetic(Arithmetic::Add)));
    assert_eq!(operator(&restar(1)), ("restar".to_string(), BinaryOp::Arithmetic(Arithmetic::Sub)));
    assert_eq!(
        operator(&multiplicar(1)),
        ("multiplicar".to_string(), BinaryOp::Arithmetic(Arithmetic::Mul))
    );
}

#[test]
fn the_samples_that_keep_the_rules_are_clean() {
    assert_eq!(kinds(vec![suma(1)]), vec![]);
    assert_eq!(kinds(vec![sumar(1)]), vec![]);
    assert_eq!(kinds(vec![restar(1)]), vec![]);
    assert_eq!(kinds(vec![multiplicar(1)]), vec![]);
    assert_eq!(kinds(vec![dividir(1)]), vec![]);
    assert_eq!(kinds(vec![suma(1), sumar(5), restar(9), multiplicar(13), dividir(17)]), vec![]);
}

#[test]
fn test_calls_multiplicar_wrongly_twice() {
    let diagnostics = analyze(&Program { statements: vec![multiplicar(36), semantic_analyzer::samples::test(40)] });
    assert_eq!(
        diagnostics,
        vec![
            Diagnostic::arity_mismatch(&"multiplicar".to_string(), 2, 1, at(42, 18)),
            Diagnostic::argument_type_mismatch(&Type::Int, &Type::Str, at(45, 31)),
        ]
    );
    assert_eq!(kinds(vec![semantic_analyzer::samples::test(1)]), vec![ErrorKind::UndeclaredFunction, ErrorKind::UndeclaredFunction]);
}

#[test]
fn otra_funcion_breaks_outside_a_loop() {
    let diagnostics = analyze(&Program { statements: vec![otra_funcion(52)] });
    assert_eq!(diagnostics, vec![Diagnostic::break_outside_loop(at(53, 5))]);
}

#[test]
fn division_returns_a_decimal_for_an_integer() {
    let diagnostics = analyze(&Program { statements: vec![division(57)] });
    assert_eq!(
        diagnostics,
        vec![Diagnostic::return_type_mismatch(&Type::Int, &Type::Float, at(58, 5))]
    );
}

#[test]
fn resta_misses_its_return() {
    let diagnostics = analyze(&Program { statements: vec![resta(62)] });
    assert_eq!(diagnostics, vec![Diagnostic::missing_return(&"resta".to_string(), at(62, 1))]);
}

#[test]
fn probar_calls_sumar_with_one_argument() {
    let diagnostics = analyze(&Program { statements: vec![sumar(38), probar(43)] });
    assert_eq!(
        diagnostics,
        vec![Diagnostic::arity_mismatch(&"sumar".to_string(), 2, 1, at(44, 15))]
    );
}

#[test]
fn lines_beyond_the_last_count_as_the_last() {
    match dividir(u32::MAX - 2) {
        Stmt::Function { body, at: place, .. } => {
            assert_eq!(place, at(u32::MAX - 2, 1));
            match &body[0] {
                Stmt::If { then_branch, else_branch, at: place, .. } => {
                    assert_eq!(*place, at(u32::MAX - 1, 5));
                    match &then_branch[1] {
                        Stmt::Return { at: place, .. } => assert_eq!(*place, at(u32::MAX, 9)),
                        _ => panic!("no return"),
                    }
                    match &else_branch.as_ref().unwrap()[0] {
                        Stmt::Return { at: place, .. } => assert_eq!(*place, at(u32::MAX, 9)),
                        _ => panic!("no return"),
                    }
                }
                _ => panic!("no if"),
            }
        }
        _ => panic!("no function"),
    }
}

#[test]
fn the_first_pass_registers_functions_at_any_depth() {
    let mut manager = ScopeManager::new();
    let nested = Stmt::block(vec![Stmt::conditional(
        Expr::identifier("c", at(1, 4)),
        vec![suma(2)],
        Some(vec![restar(6), suma(10)]),
        at(1, 1),
    )], at(1, 1));
    register_block(&mut manager, &vec![nested, sumar(20)]);
    assert_eq!(manager.depth(), 1);
    assert_eq!(manager.lookup_function(&"suma".to_string()).unwrap().declared_at, at(2, 1));
    assert_eq!(manager.lookup_function(&"restar".to_string()).unwrap().declared_at, at(6, 1));
    assert_eq!(manager.lookup_function(&"sumar".to_string()).unwrap().params.len(), 2);
    register_statement(&mut manager, &Stmt::Break { at: at(30, 1) });
    register_statement(&mut manager, &multiplicar(31));
    assert_eq!(manager.lookup_function(&"multiplicar".to_string()).unwrap().return_type, Type::Int);
    assert!(manager.lookup_function(&"dividir".to_string()).is_none());
}

#[test]
fn copied_parameters_are_equal() {
    let params = vec![
        Parameter::new("a", Type::Int, at(1, 9)),
        Parameter::new("b", Type::Array(Box::new(Type::Float)), at(1, 17)),
    ];
    assert_eq!(copy_parameters(&params), params);
    assert_eq!(copy_parameters(&vec![]), vec![]);
}

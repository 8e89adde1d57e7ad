use semantic_analyzer::ast::{Arithmetic, BinaryOp, Comparison, Expr, LiteralForm, Logical, Parameter};
use semantic_analyzer::context::{
    accepts_arithmetic, accepts_binary, type_of_binary, type_of_element, type_of_literal,
    AnalysisContext,
};
use semantic_analyzer::diagnostics::{Diagnostic, ErrorKind};
use semantic_analyzer::position::SourcePosition;
use semantic_analyzer::scope::FunctionSignature;
use semantic_analyzer::types::Type;

fn at(line: u32, column: u32) -> SourcePosition {
    SourcePosition::new(line, column)
}

fn num(text: &str, column: u32) -> Expr {
    Expr::literal(LiteralForm::Integer, text, at(1, column))
}

fn dec(text: &str, column: u32) -> Expr {
    Expr::literal(LiteralForm::Decimal, text, at(1, column))
}

fn boolean(text: &str, column: u32) -> Expr {
    Expr::literal(LiteralForm::Boolean, text, at(1, column))
}

fn text(content: &str, column: u32) -> Expr {
    Expr::literal(LiteralForm::Text, content, at(1, column))
}

fn var(name: &str, column: u32) -> Expr {
    Expr::identifier(name, at(1, column))
}

fn arith(op: Arithmetic, left: Expr, right: Expr) -> Expr {
    let place = left.position();
    Expr::binary(BinaryOp::Arithmetic(op), left, right, place)
}

fn compare(op: Comparison, left: Expr, right: Expr) -> Expr {
    let place = left.position();
    Expr::binary(BinaryOp::Comparison(op), left, right, place)
}

fn logic(op: Logical, left: Expr, right: Expr) -> Expr {
    let place = left.position();
    Expr::binary(BinaryOp::Logical(op), left, right, place)
}

/// A context with `n: i32`, `x: f64`, `flag: bool`, `datos: [i32]` and the
/// function `multiplicar(a: i32, b: i32) -> i32`.
fn context() -> AnalysisContext {
    let mut ctx = AnalysisContext::new();
    ctx.scopes.declare("n".to_string(), Type::Int, false, at(0, 1)).unwrap();
    ctx.scopes.declare("x".to_string(), Type::Float, true, at(0, 2)).unwrap();
    ctx.scopes.declare("flag".to_string(), Type::Bool, false, at(0, 3)).unwrap();
    ctx.scopes
        .declare("datos".to_string(), Type::Array(Box::new(Type::Int)), false, at(0, 4))
        .unwrap();
    ctx.scopes.register_function(FunctionSignature {
        name: "multiplicar".to_string(),
        params: vec![
            Parameter::new("a", Type::Int, at(0, 20)),
            Parameter::new("b", Type::Int, at(0, 28)),
        ],
        return_type: Type::Int,
        declared_at: at(0, 5),
    });
    ctx
}

fn check(e: Expr) -> (Type, Vec<Diagnostic>) {
    let mut ctx = context();
    let ty = ctx.check_expression(&e);
    (ty, ctx.diagnostics.finish())
}

fn kinds(diagnostics: &Vec<Diagnostic>) -> Vec<ErrorKind> {
    diagnostics.iter().map(|d| d.kind).collect()
}

#[test]
fn literals_have_the_type_of_their_form() {
    assert_eq!(type_of_literal(LiteralForm::Integer), Type::Int);
    assert_eq!(type_of_literal(LiteralForm::Decimal), Type::Float);
    assert_eq!(type_of_literal(LiteralForm::Boolean), Type::Bool);
    assert_eq!(type_of_literal(LiteralForm::Character), Type::Char);
    assert_eq!(type_of_literal(LiteralForm::Text), Type::Str);
    assert_eq!(check(num("42", 1)), (Type::Int, vec![]));
    assert_eq!(check(dec("3.1415", 1)), (Type::Float, vec![]));
    assert_eq!(check(text("Juan Perez", 1)), (Type::Str, vec![]));
    assert_eq!(
        check(Expr::literal(LiteralForm::Character, "\n", at(1, 1))),
        (Type::Char, vec![])
    );
    assert_eq!(check(boolean("true", 1)), (Type::Bool, vec![]));
}

#[test]
fn a_declared_identifier_has_its_declared_type() {
    assert_eq!(check(var("n", 3)), (Type::Int, vec![]));
    assert_eq!(check(var("datos", 3)), (Type::Array(Box::new(Type::Int)), vec![]));
}

#[test]
fn an_undeclared_identifier_is_reported_and_unknown() {
    let (ty, diagnostics) = check(var("z", 8));
    assert_eq!(ty, Type::Unknown);
    assert_eq!(diagnostics, vec![Diagnostic::undeclared_variable(&"z".to_string(), at(1, 8))]);
}

#[test]
fn homogeneous_array_literal_is_accepted() {
    let e = Expr::array(vec![num("1", 2), num("2", 5), num("3", 8)], at(1, 1));
    assert_eq!(check(e), (Type::Array(Box::new(Type::Int)), vec![]));
}

#[test]
fn mixed_array_literal_is_inconsistent() {
    let e = Expr::array(vec![num("1", 2), num("2", 5), dec("3.5", 8), num("4", 13)], at(1, 1));
    let (ty, diagnostics) = check(e);
    assert_eq!(ty, Type::Unknown);
    assert_eq!(diagnostics, vec![Diagnostic::inconsistent_array(at(1, 1))]);
}

#[test]
fn an_empty_array_literal_has_no_element_type() {
    let (ty, diagnostics) = check(Expr::array(vec![], at(1, 1)));
    assert_eq!(ty, Type::Unknown);
    assert_eq!(kinds(&diagnostics), vec![ErrorKind::InconsistentArrayType]);
}

#[test]
fn an_unknown_element_is_not_reported_twice() {
    let e = Expr::array(vec![num("1", 2), var("z", 5), num("3", 8)], at(1, 1));
    let (ty, diagnostics) = check(e);
    assert_eq!(ty, Type::Unknown);
    assert_eq!(kinds(&diagnostics), vec![ErrorKind::UndeclaredVariable]);
}

#[test]
fn integer_index_is_accepted() {
    let e = Expr::index(var("datos", 1), num("1", 7), at(1, 1));
    assert_eq!(check(e), (Type::Int, vec![]));
    let by_variable = Expr::index(var("datos", 1), var("n", 7), at(1, 1));
    assert_eq!(check(by_variable), (Type::Int, vec![]));
}

#[test]
fn decimal_index_is_not_an_integer_index() {
    let e = Expr::index(var("datos", 1), dec("3.5", 7), at(1, 1));
    let (ty, diagnostics) = check(e);
    assert_eq!(ty, Type::Int);
    assert_eq!(diagnostics, vec![Diagnostic::non_integer_index(&Type::Float, at(1, 7))]);
}

#[test]
fn indexing_what_is_no_array_is_a_type_mismatch() {
    let e = Expr::index(var("n", 1), num("0", 3), at(1, 1));
    let (ty, diagnostics) = check(e);
    assert_eq!(ty, Type::Unknown);
    assert_eq!(diagnostics, vec![Diagnostic::not_an_array(&Type::Int, at(1, 1))]);
}

#[test]
fn arithmetic_on_one_numeric_type_keeps_it() {
    assert_eq!(check(arith(Arithmetic::Add, var("n", 1), num("5", 5))), (Type::Int, vec![]));
    assert_eq!(check(arith(Arithmetic::Mul, var("x", 1), dec("2.0", 5))), (Type::Float, vec![]));
    assert_eq!(check(arith(Arithmetic::Rem, dec("1.5", 1), dec("2.0", 7))), (Type::Float, vec![]));
}

#[test]
fn precedence_sensitive_expression_is_same_type_throughout() {
    // 10 + 2 * 3 - 1 % 2, as a parser groups it
    let product = arith(Arithmetic::Mul, num("2", 6), num("3", 10));
    let sum = arith(Arithmetic::Add, num("10", 1), product);
    let remainder = arith(Arithmetic::Rem, num("1", 14), num("2", 18));
    assert_eq!(check(arith(Arithmetic::Sub, sum, remainder)), (Type::Int, vec![]));
}

#[test]
fn mixed_arithmetic_is_a_type_mismatch() {
    let (ty, diagnostics) = check(arith(Arithmetic::Add, var("n", 1), dec("2.5", 5)));
    assert_eq!(ty, Type::Unknown);
    assert_eq!(diagnostics, vec![Diagnostic::operand_mismatch(&Type::Int, &Type::Float, at(1, 1))]);
    let (_, other) = check(arith(Arithmetic::Sub, var("flag", 1), var("flag", 8)));
    assert_eq!(kinds(&other), vec![ErrorKind::TypeMismatch]);
}

#[test]
fn one_mistake_is_reported_once() {
    // (z + 1) * 2 where z is undeclared
    let inner = arith(Arithmetic::Add, var("z", 2), num("1", 6));
    let (ty, diagnostics) = check(arith(Arithmetic::Mul, inner, num("2", 11)));
    assert_eq!(ty, Type::Int);
    assert_eq!(kinds(&diagnostics), vec![ErrorKind::UndeclaredVariable]);
}

#[test]
fn independent_mistakes_are_all_reported_in_order() {
    // z + (n + 2.5) + w
    let middle = arith(Arithmetic::Add, var("n", 6), dec("2.5", 10));
    let left = arith(Arithmetic::Add, var("z", 1), middle);
    let (_, diagnostics) = check(arith(Arithmetic::Add, left, var("w", 18)));
    assert_eq!(
        kinds(&diagnostics),
        vec![ErrorKind::UndeclaredVariable, ErrorKind::TypeMismatch, ErrorKind::UndeclaredVariable]
    );
    assert_eq!(diagnostics[0].position, at(1, 1));
    assert_eq!(diagnostics[1].position, at(1, 6));
    assert_eq!(diagnostics[2].position, at(1, 18));
}

#[test]
fn comparison_of_one_type_is_boolean() {
    assert_eq!(check(compare(Comparison::GreaterOrEqual, var("n", 1), num("10", 6))), (Type::Bool, vec![]));
    assert_eq!(check(compare(Comparison::NotEqual, var("x", 1), dec("1.0", 6))), (Type::Bool, vec![]));
    assert_eq!(check(compare(Comparison::Equal, var("flag", 1), boolean("true", 9))), (Type::Bool, vec![]));
    assert_eq!(check(compare(Comparison::Less, text("a", 1), text("b", 7))), (Type::Bool, vec![]));
}

#[test]
fn comparison_of_two_types_is_a_type_mismatch() {
    let (ty, diagnostics) = check(compare(Comparison::Equal, var("n", 1), dec("1.0", 6)));
    assert_eq!(ty, Type::Bool);
    assert_eq!(kinds(&diagnostics), vec![ErrorKind::TypeMismatch]);
    let (_, ordering) = check(compare(Comparison::Less, var("flag", 1), boolean("true", 8)));
    assert_eq!(kinds(&ordering), vec![ErrorKind::TypeMismatch]);
    let (_, arrays) = check(compare(Comparison::Equal, var("datos", 1), var("datos", 10)));
    assert_eq!(kinds(&arrays), vec![ErrorKind::TypeMismatch]);
}

#[test]
fn boolean_operators_take_booleans() {
    // flag && !flag || n == 2
    let negated = Expr::not(var("flag", 10), at(1, 9));
    let both = logic(Logical::And, var("flag", 1), negated);
    let equal = compare(Comparison::Equal, var("n", 18), num("2", 23));
    assert_eq!(check(logic(Logical::Or, both, equal)), (Type::Bool, vec![]));
    let (ty, diagnostics) = check(logic(Logical::And, var("n", 1), var("flag", 6)));
    assert_eq!(ty, Type::Bool);
    assert_eq!(kinds(&diagnostics), vec![ErrorKind::TypeMismatch]);
    let (ty, diagnostics) = check(Expr::not(var("n", 2), at(1, 1)));
    assert_eq!(ty, Type::Bool);
    assert_eq!(diagnostics, vec![Diagnostic::type_mismatch(&Type::Bool, &Type::Int, at(1, 1))]);
}

#[test]
fn a_correct_call_has_the_declared_return_type() {
    let e = Expr::call("multiplicar", vec![num("5", 13), var("n", 16)], at(1, 1));
    assert_eq!(check(e), (Type::Int, vec![]));
}

#[test]
fn a_call_with_one_argument_of_two_is_an_arity_mismatch() {
    let e = Expr::call("multiplicar", vec![num("5", 13)], at(1, 1));
    let (ty, diagnostics) = check(e);
    assert_eq!(ty, Type::Int);
    assert_eq!(
        diagnostics,
        vec![Diagnostic::arity_mismatch(&"multiplicar".to_string(), 2, 1, at(1, 1))]
    );
    assert_eq!(diagnostics[0].message, "function `multiplicar` expected 2 arguments, got 1");
}

#[test]
fn a_call_with_too_many_arguments_is_an_arity_mismatch() {
    let e = Expr::call("multiplicar", vec![num("5", 13), num("6", 16), dec("7.0", 19)], at(1, 1));
    let (_, diagnostics) = check(e);
    assert_eq!(
        diagnostics,
        vec![Diagnostic::arity_mismatch(&"multiplicar".to_string(), 2, 3, at(1, 1))]
    );
}

#[test]
fn a_wrong_argument_is_reported_at_the_argument() {
    let e = Expr::call("multiplicar", vec![text("hola", 13), num("10", 21)], at(1, 1));
    let (ty, diagnostics) = check(e);
    assert_eq!(ty, Type::Int);
    assert_eq!(
        diagnostics,
        vec![Diagnostic::argument_type_mismatch(&Type::Int, &Type::Str, at(1, 13))]
    );
}

#[test]
fn wrong_arity_and_wrong_argument_are_two_diagnostics() {
    let e = Expr::call("multiplicar", vec![text("hola", 13)], at(1, 1));
    let (_, diagnostics) = check(e);
    assert_eq!(kinds(&diagnostics), vec![ErrorKind::ArityMismatch, ErrorKind::ArgumentTypeMismatch]);
}

#[test]
fn each_wrong_argument_is_reported() {
    let e = Expr::call("multiplicar", vec![text("hola", 13), boolean("true", 21)], at(1, 1));
    let (_, diagnostics) = check(e);
    assert_eq!(
        diagnostics,
        vec![
            Diagnostic::argument_type_mismatch(&Type::Int, &Type::Str, at(1, 13)),
            Diagnostic::argument_type_mismatch(&Type::Int, &Type::Bool, at(1, 21)),
        ]
    );
}

#[test]
fn a_call_of_an_undeclared_function_is_reported() {
    let e = Expr::call("sumar", vec![num("5", 7), num("10", 10)], at(1, 1));
    let (ty, diagnostics) = check(e);
    assert_eq!(ty, Type::Unknown);
    assert_eq!(diagnostics, vec![Diagnostic::undeclared_function(&"sumar".to_string(), at(1, 1))]);
}

#[test]
fn a_variable_is_no_function() {
    let e = Expr::call("n", vec![], at(1, 1));
    let (_, diagnostics) = check(e);
    assert_eq!(kinds(&diagnostics), vec![ErrorKind::UndeclaredFunction]);
}

#[test]
fn checking_an_expression_leaves_the_context_alone() {
    let mut ctx = context();
    let e = arith(Arithmetic::Add, var("z", 1), dec("2.5", 5));
    let _ = ctx.check_expression(&e);
    assert_eq!(ctx.scopes.depth(), 1);
    assert_eq!(ctx.loop_depth, 0);
    assert_eq!(ctx.return_type, None);
    assert!(ctx.scopes.lookup(&"n".to_string()).is_some());
}

#[test]
fn operator_rules_on_plain_types() {
    assert!(accepts_arithmetic(&Type::Int, &Type::Int));
    assert!(accepts_arithmetic(&Type::Unknown, &Type::Float));
    assert!(!accepts_arithmetic(&Type::Int, &Type::Float));
    assert!(!accepts_arithmetic(&Type::Bool, &Type::Bool));
    assert!(!accepts_arithmetic(&Type::Unknown, &Type::Str));
    assert!(accepts_binary(BinaryOp::Logical(Logical::Or), &Type::Bool, &Type::Unknown));
    assert!(!accepts_binary(BinaryOp::Logical(Logical::Or), &Type::Bool, &Type::Int));
    assert!(accepts_binary(BinaryOp::Comparison(Comparison::Equal), &Type::Bool, &Type::Bool));
    assert!(!accepts_binary(BinaryOp::Comparison(Comparison::Greater), &Type::Bool, &Type::Bool));
    assert_eq!(
        type_of_binary(BinaryOp::Arithmetic(Arithmetic::Add), Type::Unknown, Type::Int),
        Type::Int
    );
    assert_eq!(
        type_of_binary(BinaryOp::Arithmetic(Arithmetic::Add), Type::Int, Type::Float),
        Type::Unknown
    );
    assert_eq!(
        type_of_binary(BinaryOp::Comparison(Comparison::Less), Type::Int, Type::Float),
        Type::Bool
    );
    assert_eq!(type_of_element(&Type::Array(Box::new(Type::Char))), Type::Char);
    assert_eq!(type_of_element(&Type::Int), Type::Unknown);
}

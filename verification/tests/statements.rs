use semantic_analyzer::analyze;
use semantic_analyzer::ast::{
    Arithmetic, BinaryOp, Comparison, Expr, Iterable, LiteralForm, Parameter, Program, Stmt,
};
use semantic_analyzer::context::AnalysisContext;
use semantic_analyzer::diagnostics::{Diagnostic, ErrorKind};
use semantic_analyzer::position::SourcePosition;
use semantic_analyzer::statements::{returns_on_every_path, statement_returns};
use semantic_analyzer::types::Type;

fn at(line: u32, column: u32) -> SourcePosition {
    SourcePosition::new(line, column)
}

fn num(text: &str, line: u32, column: u32) -> Expr {
    Expr::literal(LiteralForm::Integer, text, at(line, column))
}

fn dec(text: &str, line: u32, column: u32) -> Expr {
    Expr::literal(LiteralForm::Decimal, text, at(line, column))
}

fn boolean(text: &str, line: u32, column: u32) -> Expr {
    Expr::literal(LiteralForm::Boolean, text, at(line, column))
}

fn var(name: &str, line: u32, column: u32) -> Expr {
    Expr::identifier(name, at(line, column))
}

fn sub(left: Expr, right: Expr) -> Expr {
    let place = left.position();
    Expr::binary(BinaryOp::Arithmetic(Arithmetic::Sub), left, right, place)
}

fn let_(name: &str, value: Expr, line: u32) -> Stmt {
    Stmt::declaration(name, false, None, value, at(line, 1))
}

fn let_mut(name: &str, value: Expr, line: u32) -> Stmt {
    Stmt::declaration(name, true, None, value, at(line, 1))
}

fn ret(value: Expr, line: u32) -> Stmt {
    Stmt::returning(Some(value), at(line, 5))
}

fn int_function(name: &str, body: Vec<Stmt>, line: u32) -> Stmt {
    Stmt::function(
        name,
        vec![
            Parameter::new("a", Type::Int, at(line, 10)),
            Parameter::new("b", Type::Int, at(line, 18)),
        ],
        Type::Int,
        body,
        at(line, 1),
    )
}

fn run(statements: Vec<Stmt>) -> Vec<Diagnostic> {
    analyze(&Program { statements })
}

fn kinds(diagnostics: &Vec<Diagnostic>) -> Vec<ErrorKind> {
    diagnostics.iter().map(|d| d.kind).collect()
}

#[test]
fn an_empty_program_is_valid() {
    assert_eq!(run(vec![]), vec![]);
}

#[test]
fn shadowing_in_an_inner_block_is_no_duplicate() {
    // let x = 1; { let x = true; }
    let inner = Stmt::block(vec![let_("x", boolean("true", 1, 22), 1)], at(1, 12));
    assert_eq!(run(vec![let_("x", num("1", 1, 9), 1), inner]), vec![]);
}

#[test]
fn redeclaration_in_the_same_scope_is_a_duplicate() {
    // let x = 1; let x = 2;
    let diagnostics = run(vec![let_("x", num("1", 1, 9), 1), let_("x", num("2", 2, 9), 2)]);
    assert_eq!(diagnostics, vec![Diagnostic::duplicate_declaration(&"x".to_string(), at(2, 1))]);
}

#[test]
fn the_first_declaration_stays_after_a_duplicate() {
    // let x = 1; let x = true; if x { }
    let diagnostics = run(vec![
        let_("x", num("1", 1, 9), 1),
        let_("x", boolean("true", 2, 9), 2),
        Stmt::conditional(var("x", 3, 4), vec![], None, at(3, 1)),
    ]);
    assert_eq!(
        kinds(&diagnostics),
        vec![ErrorKind::DuplicateDeclaration, ErrorKind::NonBooleanCondition]
    );
}

#[test]
fn an_initializer_sees_the_variables_before_it() {
    // let a = 1; let b = a - c;
    let diagnostics = run(vec![
        let_("a", num("1", 1, 9), 1),
        let_("b", sub(var("a", 2, 9), var("c", 2, 13)), 2),
    ]);
    assert_eq!(diagnostics, vec![Diagnostic::undeclared_variable(&"c".to_string(), at(2, 13))]);
}

#[test]
fn annotation_must_agree_with_the_value() {
    // let edad: i32 = 25.5;
    let s = Stmt::declaration("edad", false, Some(Type::Int), dec("25.5", 1, 17), at(1, 1));
    assert_eq!(
        run(vec![s]),
        vec![Diagnostic::type_mismatch(&Type::Int, &Type::Float, at(1, 17))]
    );
    // let peso: f64 = 3;
    let s = Stmt::declaration("peso", false, Some(Type::Float), num("3", 1, 17), at(1, 1));
    assert_eq!(kinds(&run(vec![s])), vec![ErrorKind::TypeMismatch]);
    // let edad: i32 = 25;
    let s = Stmt::declaration("edad", false, Some(Type::Int), num("25", 1, 17), at(1, 1));
    assert_eq!(run(vec![s]), vec![]);
}

#[test]
fn an_annotated_variable_has_the_annotated_type() {
    // let edad: i32 = true; let doble = edad - 1;
    let first = Stmt::declaration("edad", false, Some(Type::Int), boolean("true", 1, 17), at(1, 1));
    let second = let_("doble", sub(var("edad", 2, 13), num("1", 2, 20)), 2);
    assert_eq!(kinds(&run(vec![first, second])), vec![ErrorKind::TypeMismatch]);
}

#[test]
fn assignment_to_a_mutable_variable_is_accepted() {
    let diagnostics = run(vec![
        let_mut("y", num("10", 1, 13), 1),
        Stmt::assignment("y", None, num("20", 2, 5), at(2, 1)),
        Stmt::assignment("y", Some(Arithmetic::Add), num("1", 3, 6), at(3, 1)),
    ]);
    assert_eq!(diagnostics, vec![]);
}

#[test]
fn assignment_to_an_immutable_variable_is_reported_once() {
    // let y = 10; y = 20;
    let diagnostics = run(vec![
        let_("y", num("10", 1, 9), 1),
        Stmt::assignment("y", None, num("20", 2, 5), at(2, 1)),
    ]);
    assert_eq!(diagnostics, vec![Diagnostic::assign_to_immutable(&"y".to_string(), at(2, 1))]);
}

#[test]
fn assignment_to_an_undeclared_variable_is_reported() {
    let diagnostics = run(vec![Stmt::assignment("y", None, num("20", 1, 5), at(1, 1))]);
    assert_eq!(diagnostics, vec![Diagnostic::undeclared_variable(&"y".to_string(), at(1, 1))]);
    let compound = run(vec![Stmt::assignment("y", Some(Arithmetic::Sub), num("1", 1, 6), at(1, 1))]);
    assert_eq!(kinds(&compound), vec![ErrorKind::UndeclaredVariable]);
}

#[test]
fn assigned_value_must_have_the_declared_type() {
    let diagnostics = run(vec![
        let_mut("y", num("10", 1, 13), 1),
        Stmt::assignment("y", None, dec("2.5", 2, 5), at(2, 1)),
    ]);
    assert_eq!(
        diagnostics,
        vec![Diagnostic::type_mismatch(&Type::Int, &Type::Float, at(2, 5))]
    );
    let compound = run(vec![
        let_mut("y", num("10", 1, 13), 1),
        Stmt::assignment("y", Some(Arithmetic::Mul), dec("2.0", 2, 6), at(2, 1)),
    ]);
    assert_eq!(
        compound,
        vec![Diagnostic::operand_mismatch(&Type::Int, &Type::Float, at(2, 6))]
    );
    let on_bool = run(vec![
        let_mut("b", boolean("true", 1, 13), 1),
        Stmt::assignment("b", Some(Arithmetic::Add), boolean("true", 2, 6), at(2, 1)),
    ]);
    assert_eq!(kinds(&on_bool), vec![ErrorKind::TypeMismatch]);
}

#[test]
fn a_numeric_condition_is_not_boolean() {
    // let num = 5; if num { }
    let diagnostics = run(vec![
        let_("num", num("5", 1, 11), 1),
        Stmt::conditional(var("num", 2, 4), vec![], None, at(2, 1)),
    ]);
    assert_eq!(diagnostics, vec![Diagnostic::non_boolean_condition(&Type::Int, at(2, 4))]);
}

#[test]
fn an_if_without_else_is_valid() {
    let condition = Expr::binary(
        BinaryOp::Comparison(Comparison::Greater),
        num("3", 1, 4),
        num("2", 1, 8),
        at(1, 4),
    );
    assert_eq!(run(vec![Stmt::conditional(condition, vec![], None, at(1, 1))]), vec![]);
}

#[test]
fn each_branch_has_its_own_scope() {
    // if true { let t = 1; } else { let t = 2.5; let u = t; } let t = 'c';
    let program = vec![
        Stmt::conditional(
            boolean("true", 1, 4),
            vec![let_("t", num("1", 1, 19), 1)],
            Some(vec![let_("t", dec("2.5", 1, 40), 1), let_("u", var("t", 1, 53), 1)]),
            at(1, 1),
        ),
        let_("t", Expr::literal(LiteralForm::Character, "c", at(2, 9)), 2),
        let_("w", var("u", 3, 9), 3),
    ];
    assert_eq!(
        run(program),
        vec![Diagnostic::undeclared_variable(&"u".to_string(), at(3, 9))]
    );
}

#[test]
fn break_at_top_level_is_outside_a_loop() {
    assert_eq!(
        run(vec![Stmt::Break { at: at(1, 1) }]),
        vec![Diagnostic::break_outside_loop(at(1, 1))]
    );
}

#[test]
fn break_inside_a_for_loop_is_valid() {
    let range = Iterable::Range { start: num("0", 1, 10), end: num("3", 1, 13) };
    let body = vec![Stmt::conditional(
        boolean("true", 2, 8),
        vec![Stmt::Break { at: at(3, 9) }],
        None,
        at(2, 5),
    )];
    assert_eq!(run(vec![Stmt::for_each("i", range, body, at(1, 1))]), vec![]);
}

#[test]
fn break_after_a_loop_is_outside_again() {
    let range = Iterable::Range { start: num("0", 1, 10), end: num("3", 1, 13) };
    let program = vec![
        Stmt::for_each("i", range, vec![Stmt::Break { at: at(2, 5) }], at(1, 1)),
        Stmt::Break { at: at(4, 1) },
    ];
    assert_eq!(run(program), vec![Diagnostic::break_outside_loop(at(4, 1))]);
}

#[test]
fn a_loop_does_not_reach_into_a_function_declared_in_it() {
    // for i in 0..3 { fn f() { break; } break; }
    let range = Iterable::Range { start: num("0", 1, 10), end: num("3", 1, 13) };
    let inner = Stmt::function("f", vec![], Type::Unit, vec![Stmt::Break { at: at(2, 14) }], at(2, 5));
    let program = vec![Stmt::for_each("i", range, vec![inner, Stmt::Break { at: at(3, 5) }], at(1, 1))];
    assert_eq!(run(program), vec![Diagnostic::break_outside_loop(at(2, 14))]);
}

#[test]
fn the_variable_of_a_range_is_an_integer() {
    // for i in 0..3 { let j = i - 1; let k = i - 1.5; }
    let range = Iterable::Range { start: num("0", 1, 10), end: num("3", 1, 13) };
    let body = vec![
        let_("j", sub(var("i", 2, 13), num("1", 2, 17)), 2),
        let_("k", sub(var("i", 3, 13), dec("1.5", 3, 17)), 3),
    ];
    assert_eq!(
        run(vec![Stmt::for_each("i", range, body, at(1, 1))]),
        vec![Diagnostic::operand_mismatch(&Type::Int, &Type::Float, at(3, 13))]
    );
}

#[test]
fn the_bounds_of_a_range_are_integers() {
    let range = Iterable::Range { start: dec("0.5", 1, 10), end: boolean("true", 1, 15) };
    assert_eq!(
        run(vec![Stmt::for_each("i", range, vec![], at(1, 1))]),
        vec![
            Diagnostic::type_mismatch(&Type::Int, &Type::Float, at(1, 10)),
            Diagnostic::type_mismatch(&Type::Int, &Type::Bool, at(1, 15)),
        ]
    );
}

#[test]
fn the_variable_of_an_array_loop_has_the_element_type() {
    // for x in [1.5, 2.5] { let y: f64 = x; let z: i32 = x; }
    let elements = Iterable::Elements(Expr::array(vec![dec("1.5", 1, 11), dec("2.5", 1, 16)], at(1, 10)));
    let body = vec![
        Stmt::declaration("y", false, Some(Type::Float), var("x", 2, 18), at(2, 5)),
        Stmt::declaration("z", false, Some(Type::Int), var("x", 3, 18), at(3, 5)),
    ];
    assert_eq!(
        run(vec![Stmt::for_each("x", elements, body, at(1, 1))]),
        vec![Diagnostic::type_mismatch(&Type::Int, &Type::Float, at(3, 18))]
    );
}

#[test]
fn a_loop_over_what_is_no_array_is_reported() {
    let elements = Iterable::Elements(num("5", 1, 10));
    assert_eq!(
        run(vec![Stmt::for_each("x", elements, vec![], at(1, 1))]),
        vec![Diagnostic::not_an_array(&Type::Int, at(1, 10))]
    );
}

#[test]
fn the_loop_variable_ends_with_the_loop() {
    let range = Iterable::Range { start: num("0", 1, 10), end: num("3", 1, 13) };
    let program = vec![Stmt::for_each("i", range, vec![], at(1, 1)), let_("j", var("i", 2, 9), 2)];
    assert_eq!(kinds(&run(program)), vec![ErrorKind::UndeclaredVariable]);
}

#[test]
fn the_loop_variable_is_immutable() {
    let range = Iterable::Range { start: num("0", 1, 10), end: num("3", 1, 13) };
    let body = vec![Stmt::assignment("i", None, num("7", 2, 9), at(2, 5))];
    assert_eq!(
        kinds(&run(vec![Stmt::for_each("i", range, body, at(1, 1))])),
        vec![ErrorKind::AssignToImmutable]
    );
}

#[test]
fn return_at_top_level_is_outside_a_function() {
    assert_eq!(
        run(vec![Stmt::returning(Some(num("5", 1, 8)), at(1, 1))]),
        vec![Diagnostic::return_outside_function(at(1, 1))]
    );
}

#[test]
fn a_returned_decimal_clashes_with_an_integer_result() {
    let f = int_function("division", vec![ret(dec("3.14", 2, 12), 2)], 1);
    assert_eq!(
        run(vec![f]),
        vec![Diagnostic::return_type_mismatch(&Type::Int, &Type::Float, at(2, 5))]
    );
}

#[test]
fn a_bare_return_suits_a_function_without_result_only() {
    let unit = Stmt::function("f", vec![], Type::Unit, vec![Stmt::returning(None, at(2, 5))], at(1, 1));
    assert_eq!(run(vec![unit]), vec![]);
    let int_result = int_function("g", vec![Stmt::returning(None, at(2, 5))], 1);
    assert_eq!(
        run(vec![int_result]),
        vec![Diagnostic::return_type_mismatch(&Type::Int, &Type::Unit, at(2, 5))]
    );
}

#[test]
fn a_body_without_return_misses_it() {
    // fn resta(a: i32, b: i32) -> i32 { let r = a - b; }
    let f = int_function("resta", vec![let_("r", sub(var("a", 2, 13), var("b", 2, 17)), 2)], 1);
    assert_eq!(run(vec![f]), vec![Diagnostic::missing_return(&"resta".to_string(), at(1, 1))]);
}

#[test]
fn a_body_that_ends_with_return_is_total() {
    // fn resta(a: i32, b: i32) -> i32 { let r = a - b; return r; }
    let f = int_function(
        "resta",
        vec![let_("r", sub(var("a", 2, 13), var("b", 2, 17)), 2), ret(var("r", 3, 12), 3)],
        1,
    );
    assert_eq!(run(vec![f]), vec![]);
}

#[test]
fn return_paths_are_followed_through_branches() {
    let returning = |line: u32| vec![ret(num("1", line, 12), line)];
    let both = Stmt::conditional(boolean("true", 2, 8), returning(3), Some(returning(5)), at(2, 5));
    assert!(statement_returns(&both));
    assert_eq!(run(vec![int_function("f", vec![both], 1)]), vec![]);

    let no_else = Stmt::conditional(boolean("true", 2, 8), returning(3), None, at(2, 5));
    assert!(!statement_returns(&no_else));
    assert_eq!(kinds(&run(vec![int_function("f", vec![no_else], 1)])), vec![ErrorKind::MissingReturn]);

    let one_side = Stmt::conditional(boolean("true", 2, 8), returning(3), Some(vec![]), at(2, 5));
    assert!(!statement_returns(&one_side));

    let nested = Stmt::conditional(
        boolean("true", 2, 8),
        vec![Stmt::block(returning(3), at(3, 9))],
        Some(vec![Stmt::conditional(boolean("false", 5, 12), returning(6), Some(returning(8)), at(5, 9))]),
        at(2, 5),
    );
    assert!(statement_returns(&nested));

    let not_last = vec![ret(num("1", 2, 12), 2), let_("x", num("1", 3, 9), 3)];
    assert!(!returns_on_every_path(&not_last));
    assert!(!returns_on_every_path(&vec![]));
    let range = Iterable::Range { start: num("0", 1, 10), end: num("3", 1, 13) };
    assert!(!statement_returns(&Stmt::for_each("i", range, returning(2), at(1, 1))));
}

#[test]
fn a_function_without_result_needs_no_return() {
    let f = Stmt::function("f", vec![], Type::Unit, vec![], at(1, 1));
    assert_eq!(run(vec![f]), vec![]);
}

#[test]
fn parameters_are_bound_and_immutable() {
    // fn f(a: i32, b: i32) -> i32 { a = 1; return a - b; }
    let f = int_function(
        "f",
        vec![
            Stmt::assignment("a", None, num("1", 2, 9), at(2, 5)),
            ret(sub(var("a", 3, 12), var("b", 3, 16)), 3),
        ],
        1,
    );
    assert_eq!(run(vec![f]), vec![Diagnostic::assign_to_immutable(&"a".to_string(), at(2, 5))]);
}

#[test]
fn parameters_end_with_the_function() {
    let f = int_function("f", vec![ret(var("a", 2, 12), 2)], 1);
    assert_eq!(kinds(&run(vec![f, let_("x", var("a", 4, 9), 4)])), vec![ErrorKind::UndeclaredVariable]);
}

#[test]
fn two_parameters_of_one_name_are_a_duplicate() {
    let f = Stmt::function(
        "f",
        vec![Parameter::new("a", Type::Int, at(1, 6)), Parameter::new("a", Type::Float, at(1, 14))],
        Type::Unit,
        vec![],
        at(1, 1),
    );
    assert_eq!(run(vec![f]), vec![Diagnostic::duplicate_declaration(&"a".to_string(), at(1, 14))]);
}

#[test]
fn a_local_may_not_redeclare_a_parameter() {
    let f = int_function("f", vec![let_("a", num("1", 2, 13), 2), ret(var("a", 3, 12), 3)], 1);
    assert_eq!(kinds(&run(vec![f])), vec![ErrorKind::DuplicateDeclaration]);
}

#[test]
fn functions_may_be_called_before_their_declaration() {
    let caller = Stmt::function(
        "main",
        vec![],
        Type::Unit,
        vec![let_("s", Expr::call("g", vec![num("3", 2, 15), num("7", 2, 18)], at(2, 13)), 2)],
        at(1, 1),
    );
    let callee = int_function("g", vec![ret(var("a", 6, 12), 6)], 5);
    assert_eq!(run(vec![caller, callee]), vec![]);
}

#[test]
fn functions_may_call_each_other() {
    let call = |name: &str, line: u32| {
        ret(Expr::call(name, vec![var("a", line, 14), var("b", line, 17)], at(line, 12)), line)
    };
    let f = int_function("f", vec![call("g", 2)], 1);
    let g = int_function("g", vec![call("f", 5)], 4);
    assert_eq!(run(vec![f, g]), vec![]);
}

#[test]
fn a_function_declared_in_a_block_is_known_everywhere() {
    let inner = int_function("g", vec![ret(var("a", 3, 12), 3)], 2);
    let program = vec![
        let_("s", Expr::call("g", vec![num("3", 1, 11), num("7", 1, 14)], at(1, 9)), 1),
        Stmt::block(vec![inner], at(2, 1)),
    ];
    assert_eq!(run(program), vec![]);
}

#[test]
fn a_second_function_of_one_name_is_a_duplicate() {
    let first = int_function("f", vec![ret(var("a", 2, 12), 2)], 1);
    let second = Stmt::function("f", vec![], Type::Unit, vec![], at(4, 1));
    // the first declaration counts for calls
    let call = let_("s", Expr::call("f", vec![num("3", 6, 11), num("7", 6, 14)], at(6, 9)), 6);
    assert_eq!(
        run(vec![first, second, call]),
        vec![Diagnostic::duplicate_declaration(&"f".to_string(), at(4, 1))]
    );
}

#[test]
fn a_variable_and_a_function_may_share_a_name() {
    let f = int_function("suma", vec![ret(var("a", 2, 12), 2)], 1);
    let program = vec![
        f,
        let_("suma", Expr::call("suma", vec![num("5", 4, 17), num("10", 4, 20)], at(4, 12)), 4),
        let_("doble", sub(var("suma", 5, 13), num("1", 5, 20)), 5),
    ];
    assert_eq!(run(program), vec![]);
}

#[test]
fn function_bodies_see_the_globals_before_them() {
    let f = Stmt::function(
        "f",
        vec![],
        Type::Unit,
        vec![Stmt::assignment("contador", Some(Arithmetic::Add), num("1", 3, 17), at(3, 5))],
        at(2, 1),
    );
    assert_eq!(run(vec![let_mut("contador", num("0", 1, 20), 1), f]), vec![]);
}

#[test]
fn output_statements_check_their_arguments() {
    let program = vec![
        Stmt::print(vec![Expr::literal(LiteralForm::Text, "Suma:", at(1, 10)), var("s", 1, 19)], at(1, 1)),
        Stmt::Expression { value: Expr::call("f", vec![], at(2, 1)) },
    ];
    assert_eq!(kinds(&run(program)), vec![ErrorKind::UndeclaredVariable, ErrorKind::UndeclaredFunction]);
}

#[test]
fn one_violation_never_stops_the_analysis() {
    let program = vec![
        Stmt::Break { at: at(1, 1) },
        Stmt::returning(None, at(2, 1)),
        let_("a", var("b", 3, 9), 3),
        Stmt::assignment("a", None, num("1", 4, 5), at(4, 1)),
        Stmt::Break { at: at(5, 1) },
    ];
    let diagnostics = run(program);
    assert_eq!(
        kinds(&diagnostics),
        vec![
            ErrorKind::BreakOutsideLoop,
            ErrorKind::ReturnOutsideFunction,
            ErrorKind::UndeclaredVariable,
            ErrorKind::AssignToImmutable,
            ErrorKind::BreakOutsideLoop,
        ]
    );
    let lines: Vec<u32> = diagnostics.iter().map(|d| d.position.line).collect();
    assert_eq!(lines, vec![1, 2, 3, 4, 5]);
}

#[test]
fn analysis_twice_gives_the_same_diagnostics() {
    let program = Program {
        statements: vec![
            let_("y", num("10", 1, 9), 1),
            Stmt::assignment("y", None, dec("2.5", 2, 5), at(2, 1)),
            int_function("resta", vec![let_("r", sub(var("a", 4, 13), var("c", 4, 17)), 4)], 3),
        ],
    };
    let first = analyze(&program);
    let second = analyze(&program);
    assert_eq!(first.len(), 4);
    assert_eq!(first, second);
}

#[test]
fn a_statement_checked_alone_changes_the_current_scope_only() {
    let mut ctx = AnalysisContext::new();
    ctx.check_statement(&let_("x", num("1", 1, 9), 1));
    ctx.check_statement(&Stmt::block(vec![let_("y", num("2", 2, 9), 2)], at(2, 1)));
    assert_eq!(ctx.scopes.depth(), 1);
    assert_eq!(ctx.loop_depth, 0);
    assert!(ctx.scopes.lookup(&"x".to_string()).is_some());
    assert!(ctx.scopes.lookup(&"y".to_string()).is_none());
    assert_eq!(ctx.diagnostics.len(), 0);
}

#[test]
fn context_is_restored_after_a_function_with_errors() {
    let mut ctx = AnalysisContext::new();
    let range = Iterable::Range { start: num("0", 2, 14), end: num("3", 2, 17) };
    let body = vec![Stmt::for_each("i", range, vec![ret(var("zz", 3, 16), 3)], at(2, 5))];
    ctx.check_statement(&int_function("f", body, 1));
    assert_eq!(ctx.scopes.depth(), 1);
    assert_eq!(ctx.loop_depth, 0);
    assert_eq!(ctx.return_type, None);
    let kinds: Vec<ErrorKind> = ctx.diagnostics.finish().iter().map(|d| d.kind).collect();
    assert_eq!(kinds, vec![ErrorKind::UndeclaredVariable, ErrorKind::MissingReturn]);
}

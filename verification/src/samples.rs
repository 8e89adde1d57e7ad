//! Sample function declarations, ready to be put into a program.
//!
//! Each sample is a function of the analysed language as a parser would
//! hand it over, declared at a line of the caller's choice. Some keep every
//! rule; the others break one on purpose, which the documentation of each
//! names.

use crate::ast::{
    expr_views, lemma_expr_views, lemma_stmt_views, parameter_views, stmt_views, Arithmetic,
    BinaryOp, Comparison, Expr, ExprView, LiteralForm, Parameter, ParameterView, Stmt, StmtView,
};
use crate::position::SourcePosition;
use crate::types::{Type, TypeView};
use vstd::prelude::*;

verus! {

/// The position `down` lines below `line`, at `column`. Lines beyond the
/// last that a position can hold count as the last.
pub open spec fn placed(line: u32, down: u32, column: u32) -> SourcePosition {
    SourcePosition {
        line: if line + down > u32::MAX {
            u32::MAX
        } else {
            (line + down) as u32
        },
        column,
    }
}

fn place(line: u32, down: u32, column: u32) -> (at: SourcePosition)
    ensures
        at == placed(line, down, column),
{
    let moved: u32 = if down > u32::MAX - line {
        u32::MAX
    } else {
        line + down
    };
    SourcePosition::new(moved, column)
}

/// A use of the variable `name`.
pub open spec fn variable(name: Seq<char>, at: SourcePosition) -> ExprView {
    ExprView::Identifier { name, at }
}

/// A literal.
pub open spec fn literal(form: LiteralForm, text: Seq<char>, at: SourcePosition) -> ExprView {
    ExprView::Literal { form, text, at }
}

/// The parameters `a: i32, b: i32`, at the given columns of `line`.
pub open spec fn int_parameters(line: u32, first: u32, second: u32) -> Seq<ParameterView> {
    seq![
        ParameterView { name: "a"@, ty: TypeView::Int, at: placed(line, 0, first) },
        ParameterView { name: "b"@, ty: TypeView::Int, at: placed(line, 0, second) },
    ]
}

/// `a op b`, one line below `line`, at the given columns.
pub open spec fn a_op_b(op: BinaryOp, line: u32, down: u32, left: u32, right: u32) -> ExprView {
    ExprView::Binary {
        op,
        left: Box::new(variable("a"@, placed(line, down, left))),
        right: Box::new(variable("b"@, placed(line, down, right))),
        at: placed(line, down, left),
    }
}

/// `fn name(a: i32, b: i32) -> i32 { return a op b; }`
pub open spec fn arithmetic_function(
    name: Seq<char>,
    op: Arithmetic,
    line: u32,
    first: u32,
    second: u32,
) -> StmtView {
    StmtView::Function {
        name,
        params: int_parameters(line, first, second),
        return_type: TypeView::Int,
        body: seq![
            StmtView::Return {
                result: Some(a_op_b(BinaryOp::Arithmetic(op), line, 1, 12, 16)),
                at: placed(line, 1, 5),
            },
        ],
        at: placed(line, 0, 1),
    }
}

fn one_statement(a: Stmt) -> (list: Vec<Stmt>)
    ensures
        stmt_views(list@) == seq![a@],
{
    let mut list: Vec<Stmt> = Vec::new();
    list.push(a);
    proof {
        lemma_stmt_views(list@);
        assert(stmt_views(list@) =~= seq![a@]);
    }
    list
}

fn two_statements(a: Stmt, b: Stmt) -> (list: Vec<Stmt>)
    ensures
        stmt_views(list@) == seq![a@, b@],
{
    let mut list: Vec<Stmt> = Vec::new();
    list.push(a);
    list.push(b);
    proof {
        lemma_stmt_views(list@);
        assert(stmt_views(list@) =~= seq![a@, b@]);
    }
    list
}

fn one_expression(a: Expr) -> (list: Vec<Expr>)
    ensures
        expr_views(list@) == seq![a@],
{
    let mut list: Vec<Expr> = Vec::new();
    list.push(a);
    proof {
        lemma_expr_views(list@);
        assert(expr_views(list@) =~= seq![a@]);
    }
    list
}

fn two_expressions(a: Expr, b: Expr) -> (list: Vec<Expr>)
    ensures
        expr_views(list@) == seq![a@, b@],
{
    let mut list: Vec<Expr> = Vec::new();
    list.push(a);
    list.push(b);
    proof {
        lemma_expr_views(list@);
        assert(expr_views(list@) =~= seq![a@, b@]);
    }
    list
}

fn no_parameters() -> (list: Vec<Parameter>)
    ensures
        parameter_views(list@) == Seq::<ParameterView>::empty(),
{
    let list: Vec<Parameter> = Vec::new();
    assert(parameter_views(list@) =~= Seq::<ParameterView>::empty());
    list
}

fn two_int_parameters(line: u32, first: u32, second: u32) -> (list: Vec<Parameter>)
    ensures
        parameter_views(list@) == int_parameters(line, first, second),
{
    let mut list: Vec<Parameter> = Vec::new();
    list.push(Parameter::new("a", Type::Int, place(line, 0, first)));
    list.push(Parameter::new("b", Type::Int, place(line, 0, second)));
    assert(parameter_views(list@) =~= int_parameters(line, first, second));
    list
}

fn build_a_op_b(op: BinaryOp, line: u32, down: u32, left: u32, right: u32) -> (e: Expr)
    ensures
        e@ == a_op_b(op, line, down, left, right),
{
    Expr::binary(
        op,
        Expr::identifier("a", place(line, down, left)),
        Expr::identifier("b", place(line, down, right)),
        place(line, down, left),
    )
}

fn build_arithmetic_function(
    name: &str,
    op: Arithmetic,
    line: u32,
    first: u32,
    second: u32,
) -> (decl: Stmt)
    ensures
        decl@ == arithmetic_function(name@, op, line, first, second),
{
    let sum = build_a_op_b(BinaryOp::Arithmetic(op), line, 1, 12, 16);
    let body = one_statement(Stmt::returning(Some(sum), place(line, 1, 5)));
    Stmt::function(
        name,
        two_int_parameters(line, first, second),
        Type::Int,
        body,
        place(line, 0, 1),
    )
}

/// The model of `suma`.
pub open spec fn suma_model(line: u32) -> StmtView {
    arithmetic_function("suma"@, Arithmetic::Add, line, 9, 17)
}

/// `fn suma(a: i32, b: i32) -> i32 { return a + b; }`, which keeps every
/// rule.
pub fn suma(line: u32) -> (decl: Stmt)
    ensures
        decl@ == suma_model(line),
{
    build_arithmetic_function("suma", Arithmetic::Add, line, 9, 17)
}

/// The model of `sumar`.
pub open spec fn sumar_model(line: u32) -> StmtView {
    arithmetic_function("sumar"@, Arithmetic::Add, line, 10, 18)
}

/// `fn sumar(a: i32, b: i32) -> i32 { return a + b; }`, which keeps every
/// rule.
pub fn sumar(line: u32) -> (decl: Stmt)
    ensures
        decl@ == sumar_model(line),
{
    build_arithmetic_function("sumar", Arithmetic::Add, line, 10, 18)
}

/// The model of `restar`.
pub open spec fn restar_model(line: u32) -> StmtView {
    arithmetic_function("restar"@, Arithmetic::Sub, line, 11, 19)
}

/// `fn restar(a: i32, b: i32) -> i32 { return a - b; }`, which keeps every
/// rule.
pub fn restar(line: u32) -> (decl: Stmt)
    ensures
        decl@ == restar_model(line),
{
    build_arithmetic_function("restar", Arithmetic::Sub, line, 11, 19)
}

/// The model of `multiplicar`.
pub open spec fn multiplicar_model(line: u32) -> StmtView {
    arithmetic_function("multiplicar"@, Arithmetic::Mul, line, 16, 24)
}

/// `fn multiplicar(a: i32, b: i32) -> i32 { return a * b; }`, which keeps
/// every rule.
pub fn multiplicar(line: u32) -> (decl: Stmt)
    ensures
        decl@ == multiplicar_model(line),
{
    build_arithmetic_function("multiplicar", Arithmetic::Mul, line, 16, 24)
}

/// The model of `dividir`.
pub open spec fn dividir_model(line: u32) -> StmtView {
    StmtView::Function {
        name: "dividir"@,
        params: int_parameters(line, 12, 20),
        return_type: TypeView::Int,
        body: seq![
            StmtView::If {
                condition: ExprView::Binary {
                    op: BinaryOp::Comparison(Comparison::Equal),
                    left: Box::new(variable("b"@, placed(line, 1, 8))),
                    right: Box::new(literal(LiteralForm::Integer, "0"@, placed(line, 1, 13))),
                    at: placed(line, 1, 8),
                },
                then_branch: seq![
                    StmtView::Print {
                        arguments: seq![
                            literal(
                                LiteralForm::Text,
                                "Error: division por cero"@,
                                placed(line, 2, 18),
                            ),
                        ],
                        at: placed(line, 2, 9),
                    },
                    StmtView::Return {
                        result: Some(literal(LiteralForm::Integer, "0"@, placed(line, 3, 16))),
                        at: placed(line, 3, 9),
                    },
                ],
                else_branch: Some(
                    seq![
                        StmtView::Return {
                            result: Some(
                                a_op_b(BinaryOp::Arithmetic(Arithmetic::Div), line, 5, 16, 20),
                            ),
                            at: placed(line, 5, 9),
                        },
                    ],
                ),
                at: placed(line, 1, 5),
            },
        ],
        at: placed(line, 0, 1),
    }
}

/// A division that prints a message and yields zero where the divisor is
/// zero. It keeps every rule: each branch of its `if` ends in a `return`.
///
/// ```text
/// fn dividir(a: i32, b: i32) -> i32 {
///     if b == 0 {
///         println!("Error: division por cero");
///         return 0;
///     } else {
///         return a / b;
///     }
/// }
/// ```
pub fn dividir(line: u32) -> (decl: Stmt)
    ensures
        decl@ == dividir_model(line),
{
    let condition = Expr::binary(
        BinaryOp::Comparison(Comparison::Equal),
        Expr::identifier("b", place(line, 1, 8)),
        Expr::literal(LiteralForm::Integer, "0", place(line, 1, 13)),
        place(line, 1, 8),
    );
    let message = Expr::literal(
        LiteralForm::Text,
        "Error: division por cero",
        place(line, 2, 18),
    );
    let then_branch = two_statements(
        Stmt::print(one_expression(message), place(line, 2, 9)),
        Stmt::returning(
            Some(Expr::literal(LiteralForm::Integer, "0", place(line, 3, 16))),
            place(line, 3, 9),
        ),
    );
    let quotient = build_a_op_b(BinaryOp::Arithmetic(Arithmetic::Div), line, 5, 16, 20);
    let else_branch = one_statement(Stmt::returning(Some(quotient), place(line, 5, 9)));
    let body = one_statement(
        Stmt::conditional(condition, then_branch, Some(else_branch), place(line, 1, 5)),
    );
    Stmt::function(
        "dividir",
        two_int_parameters(line, 12, 20),
        Type::Int,
        body,
        place(line, 0, 1),
    )
}

/// The first statement of `test`.
#[verifier::opaque]
pub open spec fn test_first(line: u32) -> StmtView {
    StmtView::Let {
        name: "result"@,
        mutable: false,
        annotation: None,
        value: ExprView::Call {
            callee: "multiplicar"@,
            arguments: seq![literal(LiteralForm::Integer, "5"@, placed(line, 2, 30))],
            at: placed(line, 2, 18),
        },
        at: placed(line, 2, 5),
    }
}

/// The second statement of `test`.
#[verifier::opaque]
pub open spec fn test_second(line: u32) -> StmtView {
    StmtView::Let {
        name: "result2"@,
        mutable: false,
        annotation: None,
        value: ExprView::Call {
            callee: "multiplicar"@,
            arguments: seq![
                literal(LiteralForm::Text, "hola"@, placed(line, 5, 31)),
                literal(LiteralForm::Integer, "10"@, placed(line, 5, 39)),
            ],
            at: placed(line, 5, 19),
        },
        at: placed(line, 5, 5),
    }
}

/// The model of `test`.
pub open spec fn test_model(line: u32) -> StmtView {
    StmtView::Function {
        name: "test"@,
        params: Seq::empty(),
        return_type: TypeView::Unit,
        body: seq![test_first(line), test_second(line)],
        at: placed(line, 0, 1),
    }
}

/// Two wrong calls of `multiplicar`: one with a single argument, one with
/// a text where an integer is due.
///
/// ```text
/// fn test() {
///
///     let result = multiplicar(5);
///
///
///     let result2 = multiplicar("hola", 10);
/// }
/// ```
pub fn test(line: u32) -> (decl: Stmt)
    ensures
        decl@ == test_model(line),
{
    let first = Expr::call(
        "multiplicar",
        one_expression(Expr::literal(LiteralForm::Integer, "5", place(line, 2, 30))),
        place(line, 2, 18),
    );
    let second = Expr::call(
        "multiplicar",
        two_expressions(
            Expr::literal(LiteralForm::Text, "hola", place(line, 5, 31)),
            Expr::literal(LiteralForm::Integer, "10", place(line, 5, 39)),
        ),
        place(line, 5, 19),
    );
    proof {
        reveal(test_first);
        reveal(test_second);
    }
    let body = two_statements(
        Stmt::declaration("result", false, None, first, place(line, 2, 5)),
        Stmt::declaration("result2", false, None, second, place(line, 5, 5)),
    );
    Stmt::function("test", no_parameters(), Type::Unit, body, place(line, 0, 1))
}

/// The model of `otra_funcion`.
pub open spec fn otra_funcion_model(line: u32) -> StmtView {
    StmtView::Function {
        name: "otra_funcion"@,
        params: Seq::empty(),
        return_type: TypeView::Unit,
        body: seq![StmtView::Break { at: placed(line, 1, 5) }],
        at: placed(line, 0, 1),
    }
}

/// `fn otra_funcion() { break; }`: a `break` that no loop encloses.
pub fn otra_funcion(line: u32) -> (decl: Stmt)
    ensures
        decl@ == otra_funcion_model(line),
{
    let body = one_statement(Stmt::Break { at: place(line, 1, 5) });
    Stmt::function("otra_funcion", no_parameters(), Type::Unit, body, place(line, 0, 1))
}

/// The model of `division`.
pub open spec fn division_model(line: u32) -> StmtView {
    StmtView::Function {
        name: "division"@,
        params: int_parameters(line, 13, 21),
        return_type: TypeView::Int,
        body: seq![
            StmtView::Return {
                result: Some(literal(LiteralForm::Decimal, "3.14"@, placed(line, 1, 12))),
                at: placed(line, 1, 5),
            },
        ],
        at: placed(line, 0, 1),
    }
}

/// `fn division(a: i32, b: i32) -> i32 { return 3.14; }`: a decimal is
/// returned where an integer is declared.
pub fn division(line: u32) -> (decl: Stmt)
    ensures
        decl@ == division_model(line),
{
    let body = one_statement(
        Stmt::returning(
            Some(Expr::literal(LiteralForm::Decimal, "3.14", place(line, 1, 12))),
            place(line, 1, 5),
        ),
    );
    Stmt::function(
        "division",
        two_int_parameters(line, 13, 21),
        Type::Int,
        body,
        place(line, 0, 1),
    )
}

/// The model of `resta`.
pub open spec fn resta_model(line: u32) -> StmtView {
    StmtView::Function {
        name: "resta"@,
        params: int_parameters(line, 10, 18),
        return_type: TypeView::Int,
        body: seq![
            StmtView::Let {
                name: "resultado"@,
                mutable: false,
                annotation: None,
                value: a_op_b(BinaryOp::Arithmetic(Arithmetic::Sub), line, 1, 21, 25),
                at: placed(line, 1, 5),
            },
        ],
        at: placed(line, 0, 1),
    }
}

/// `fn resta(a: i32, b: i32) -> i32 { let resultado = a - b; }`: the body
/// ends without the `return` that the declared result asks for.
pub fn resta(line: u32) -> (decl: Stmt)
    ensures
        decl@ == resta_model(line),
{
    let difference = build_a_op_b(BinaryOp::Arithmetic(Arithmetic::Sub), line, 1, 21, 25);
    let body = one_statement(
        Stmt::declaration("resultado", false, None, difference, place(line, 1, 5)),
    );
    Stmt::function("resta", two_int_parameters(line, 10, 18), Type::Int, body, place(line, 0, 1))
}

/// The model of `probar`.
pub open spec fn probar_model(line: u32) -> StmtView {
    StmtView::Function {
        name: "probar"@,
        params: Seq::empty(),
        return_type: TypeView::Unit,
        body: seq![
            StmtView::Let {
                name: "res"@,
                mutable: false,
                annotation: None,
                value: ExprView::Call {
                    callee: "sumar"@,
                    arguments: seq![literal(LiteralForm::Integer, "5"@, placed(line, 1, 21))],
                    at: placed(line, 1, 15),
                },
                at: placed(line, 1, 5),
            },
        ],
        at: placed(line, 0, 1),
    }
}

/// `fn probar() { let res = sumar(5); }`: a call of `sumar` with one
/// argument where two are declared.
pub fn probar(line: u32) -> (decl: Stmt)
    ensures
        decl@ == probar_model(line),
{
    let call = Expr::call(
        "sumar",
        one_expression(Expr::literal(LiteralForm::Integer, "5", place(line, 1, 21))),
        place(line, 1, 15),
    );
    let body = one_statement(Stmt::declaration("res", false, None, call, place(line, 1, 5)));
    Stmt::function("probar", no_parameters(), Type::Unit, body, place(line, 0, 1))
}

} // verus!

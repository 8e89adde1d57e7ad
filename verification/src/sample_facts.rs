//! What the analyzer reports for each sample declaration, proved for every
//! line at which the sample may be declared and every context in which it
//! may stand.

use crate::ast::{
    position_of, Arithmetic, BinaryOp, Comparison, ExprView, LiteralForm, StmtView,
};
use crate::diagnostics::{
    argument_type_mismatch, arity_mismatch, break_outside_loop, missing_return,
    return_type_mismatch, DiagnosticView,
};
use crate::laws::{
    law_innermost_binding_wins, lemma_block_of_one, lemma_block_of_two, lemma_exprs_of_one,
    lemma_exprs_of_two,
};
use crate::position::SourcePosition;
use crate::rules::{
    argument_reports, bind_parameters, binary_report, call_report, check_block, check_expr,
    check_exprs, check_stmt, condition_report, ends_in_return, enter, function_report,
    inside_function, lesser, missing_return_report, nothing, positions_of, stmt_returns,
    with_scopes, ContextView, Typed,
};
use crate::samples::{
    a_op_b, arithmetic_function, dividir_model, division_model, int_parameters, literal,
    multiplicar_model, otra_funcion_model, placed, probar_model, resta_model, restar_model,
    suma_model, sumar_model, test_first, test_model, test_second, variable,
};
use crate::scope::{lookup, Bindings, Signatures, SymbolView};
use crate::types::TypeView;
use crate::typing::{declared_once, function_body_context};
use vstd::prelude::*;

verus! {

/// The body of a function declaration.
pub open spec fn body_of(s: StmtView) -> Seq<StmtView> {
    match s {
        StmtView::Function { body, .. } => body,
        _ => Seq::empty(),
    }
}

/// The binding of an `i32` parameter.
pub open spec fn int_binding(name: Seq<char>, line: u32, column: u32) -> SymbolView {
    SymbolView { name, ty: TypeView::Int, mutable: false, declared_at: placed(line, 0, column) }
}

/// In a fresh scope the parameters `a: i32, b: i32` are bound without a
/// report, and each name resolves to its parameter.
pub proof fn lemma_int_parameters_bound(scopes: Seq<Bindings>, line: u32, first: u32, second: u32)
    requires
        scopes.len() > 0,
        scopes.last() == Map::<Seq<char>, SymbolView>::empty(),
    ensures
        bind_parameters(scopes, int_parameters(line, first, second)).diagnostics == nothing(),
        lookup(bind_parameters(scopes, int_parameters(line, first, second)).scopes, "a"@) == Some(
            int_binding("a"@, line, first),
        ),
        lookup(bind_parameters(scopes, int_parameters(line, first, second)).scopes, "b"@) == Some(
            int_binding("b"@, line, second),
        ),
        forall|n: Seq<char>| #[trigger]
            bind_parameters(scopes, int_parameters(line, first, second)).scopes.last().contains_key(
                n,
            ) <==> (n == "a"@ || n == "b"@),
{
    reveal_strlit("a");
    reveal_strlit("b");
    assert("a"@ != "b"@) by {
        assert("a"@[0] == 'a');
        assert("b"@[0] == 'b');
    }
    let params = int_parameters(line, first, second);
    let none = params.drop_last().drop_last();
    let one = params.drop_last();
    assert(none.len() == 0);
    assert(one.len() == 1);
    assert(one.last() == params[0]);
    assert(params.last() == params[1]);
    let step0 = bind_parameters(scopes, none);
    assert(step0.scopes == scopes);
    assert(step0.diagnostics == nothing());
    let step1 = bind_parameters(scopes, one);
    assert(!step0.scopes.last().contains_key("a"@));
    assert(step1.diagnostics == nothing());
    assert(step1.scopes.last() == scopes.last().insert("a"@, int_binding("a"@, line, first)));
    let step2 = bind_parameters(scopes, params);
    assert(!step1.scopes.last().contains_key("b"@));
    assert(step2.diagnostics == nothing());
    assert(step2.scopes.last() == step1.scopes.last().insert(
        "b"@,
        int_binding("b"@, line, second),
    ));
}

/// Where `a` and `b` are bound as integers, `a op b` is an `i32` for every
/// arithmetic operator, and nothing is reported for it.
pub proof fn lemma_a_op_b(
    ctx: ContextView,
    op: Arithmetic,
    line: u32,
    down: u32,
    left: u32,
    right: u32,
)
    requires
        lookup(ctx.scopes, "a"@) matches Some(a) && a.ty is Int,
        lookup(ctx.scopes, "b"@) matches Some(b) && b.ty is Int,
    ensures
        check_expr(ctx, a_op_b(BinaryOp::Arithmetic(op), line, down, left, right)) == (Typed {
            ty: TypeView::Int,
            diagnostics: nothing(),
        }),
{
    let e = a_op_b(BinaryOp::Arithmetic(op), line, down, left, right);
    let l = variable("a"@, placed(line, down, left));
    let r = variable("b"@, placed(line, down, right));
    assert(check_expr(ctx, l).ty == TypeView::Int);
    assert(check_expr(ctx, r).ty == TypeView::Int);
    assert(check_expr(ctx, e).diagnostics =~= check_expr(ctx, l).diagnostics + check_expr(
        ctx,
        r,
    ).diagnostics + binary_report(BinaryOp::Arithmetic(op), TypeView::Int, TypeView::Int, placed(
        line,
        down,
        left,
    )));
    assert(check_expr(ctx, e).diagnostics =~= nothing());
}

/// What is reported for a function declaration whose parameters are bound
/// without a report: a taken name, what the body owes, and a missing
/// `return`.
pub proof fn lemma_function_with_int_parameters(ctx: ContextView, s: StmtView, line: u32, first: u32, second: u32)
    requires
        s matches StmtView::Function { params, .. } && params == int_parameters(line, first, second),
    ensures
        s matches StmtView::Function { name, params, return_type, body, at } && check_stmt(
            ctx,
            s,
        ).diagnostics == function_report(ctx.functions, name, at) + check_block(
            function_body_context(ctx, params, return_type),
            body,
        ).diagnostics + missing_return_report(name, return_type, body, at),
        s matches StmtView::Function { params, return_type, .. } && lookup(
            function_body_context(ctx, params, return_type).scopes,
            "a"@,
        ) == Some(int_binding("a"@, line, first)) && lookup(
            function_body_context(ctx, params, return_type).scopes,
            "b"@,
        ) == Some(int_binding("b"@, line, second)) && (forall|n: Seq<char>| #[trigger]
            function_body_context(ctx, params, return_type).scopes.last().contains_key(n) <==> (n
                == "a"@ || n == "b"@)),
{
    match s {
        StmtView::Function { name, params, return_type, body, at } => {
            let fresh = inside_function(ctx, return_type);
            lemma_int_parameters_bound(fresh.scopes, line, first, second);
            assert(check_stmt(ctx, s).diagnostics =~= function_report(ctx.functions, name, at)
                + check_block(function_body_context(ctx, params, return_type), body).diagnostics
                + missing_return_report(name, return_type, body, at));
        },
        _ => {},
    }
}

/// What is reported for a function declaration without parameters: a
/// taken name, what the body owes, and a missing `return`.
pub proof fn lemma_function_without_parameters(ctx: ContextView, s: StmtView)
    requires
        s matches StmtView::Function { params, .. } && params.len() == 0,
    ensures
        s matches StmtView::Function { name, params, return_type, body, at } && check_stmt(
            ctx,
            s,
        ).diagnostics == function_report(ctx.functions, name, at) + check_block(
            inside_function(ctx, return_type),
            body,
        ).diagnostics + missing_return_report(name, return_type, body, at),
{
    match s {
        StmtView::Function { name, params, return_type, body, at } => {
            let fresh = inside_function(ctx, return_type);
            assert(bind_parameters(fresh.scopes, params).scopes == fresh.scopes);
            assert(with_scopes(fresh, fresh.scopes) == fresh);
            assert(check_stmt(ctx, s).diagnostics =~= function_report(ctx.functions, name, at)
                + check_block(fresh, body).diagnostics + missing_return_report(
                name,
                return_type,
                body,
                at,
            ));
        },
        _ => {},
    }
}

/// Each arithmetic sample keeps every rule: wherever its name is not
/// taken by an earlier declaration, nothing is reported for it.
pub proof fn arithmetic_samples_are_clean(
    ctx: ContextView,
    name: Seq<char>,
    op: Arithmetic,
    line: u32,
    first: u32,
    second: u32,
)
    requires
        declared_once(ctx.functions, name, placed(line, 0, 1)),
    ensures
        check_stmt(ctx, arithmetic_function(name, op, line, first, second)).diagnostics
            == nothing(),
{
    let s = arithmetic_function(name, op, line, first, second);
    lemma_function_with_int_parameters(ctx, s, line, first, second);
    let inner = function_body_context(ctx, int_parameters(line, first, second), TypeView::Int);
    lemma_a_op_b(inner, op, line, 1, 12, 16);
    let only = body_of(s)[0];
    assert(body_of(s) =~= seq![only]);
    lemma_block_of_one(inner, only);
    assert(check_stmt(inner, only).diagnostics =~= nothing());
    assert(ends_in_return(body_of(s)));
    assert(check_stmt(ctx, s).diagnostics =~= nothing());
}

/// `suma` keeps every rule.
pub proof fn suma_is_clean(ctx: ContextView, line: u32)
    requires
        declared_once(ctx.functions, "suma"@, placed(line, 0, 1)),
    ensures
        check_stmt(ctx, suma_model(line)).diagnostics == nothing(),
{
    arithmetic_samples_are_clean(ctx, "suma"@, Arithmetic::Add, line, 9, 17);
}

/// `sumar` keeps every rule.
pub proof fn sumar_is_clean(ctx: ContextView, line: u32)
    requires
        declared_once(ctx.functions, "sumar"@, placed(line, 0, 1)),
    ensures
        check_stmt(ctx, sumar_model(line)).diagnostics == nothing(),
{
    arithmetic_samples_are_clean(ctx, "sumar"@, Arithmetic::Add, line, 10, 18);
}

/// `restar` keeps every rule.
pub proof fn restar_is_clean(ctx: ContextView, line: u32)
    requires
        declared_once(ctx.functions, "restar"@, placed(line, 0, 1)),
    ensures
        check_stmt(ctx, restar_model(line)).diagnostics == nothing(),
{
    arithmetic_samples_are_clean(ctx, "restar"@, Arithmetic::Sub, line, 11, 19);
}

/// `multiplicar` keeps every rule.
pub proof fn multiplicar_is_clean(ctx: ContextView, line: u32)
    requires
        declared_once(ctx.functions, "multiplicar"@, placed(line, 0, 1)),
    ensures
        check_stmt(ctx, multiplicar_model(line)).diagnostics == nothing(),
{
    arithmetic_samples_are_clean(ctx, "multiplicar"@, Arithmetic::Mul, line, 16, 24);
}

/// `dividir` keeps every rule: both branches of its `if` end in a
/// `return` of an integer.
pub proof fn dividir_is_clean(ctx: ContextView, line: u32)
    requires
        declared_once(ctx.functions, "dividir"@, placed(line, 0, 1)),
    ensures
        check_stmt(ctx, dividir_model(line)).diagnostics == nothing(),
{
    let s = dividir_model(line);
    lemma_function_with_int_parameters(ctx, s, line, 12, 20);
    let inner = function_body_context(ctx, int_parameters(line, 12, 20), TypeView::Int);
    let branch = body_of(s)[0];
    assert(body_of(s) =~= seq![branch]);
    lemma_block_of_one(inner, branch);
    match branch {
        StmtView::If { condition, then_branch, else_branch, at } => {
            let zero = literal(LiteralForm::Integer, "0"@, placed(line, 1, 13));
            let b = variable("b"@, placed(line, 1, 8));
            assert(check_expr(inner, b).ty == TypeView::Int);
            assert(check_expr(inner, zero).ty == TypeView::Int);
            assert(check_expr(inner, condition).ty == TypeView::Bool);
            assert(check_expr(inner, condition).diagnostics =~= check_expr(inner, b).diagnostics
                + check_expr(inner, zero).diagnostics + binary_report(
                BinaryOp::Comparison(Comparison::Equal),
                TypeView::Int,
                TypeView::Int,
                placed(line, 1, 8),
            ));
            assert(check_expr(inner, condition).diagnostics =~= nothing());
            let nested = enter(inner);
            law_innermost_binding_wins(inner.scopes, Map::empty(), "a"@);
            law_innermost_binding_wins(inner.scopes, Map::empty(), "b"@);
            let say = then_branch[0];
            let give = then_branch[1];
            assert(then_branch =~= seq![say, give]);
            lemma_block_of_two(nested, say, give);
            match say {
                StmtView::Print { arguments, .. } => {
                    assert(arguments =~= seq![arguments[0]]);
                    lemma_exprs_of_one(nested, arguments[0]);
                },
                _ => {},
            }
            assert(check_stmt(nested, say).diagnostics =~= nothing());
            assert(check_stmt(nested, say).scopes == nested.scopes);
            assert(with_scopes(nested, nested.scopes) == nested);
            assert(check_stmt(nested, give).diagnostics =~= nothing());
            assert(check_block(nested, then_branch).diagnostics =~= nothing());
            let other = else_branch->Some_0;
            let quotient = other[0];
            assert(other =~= seq![quotient]);
            lemma_block_of_one(nested, quotient);
            lemma_a_op_b(nested, Arithmetic::Div, line, 5, 16, 20);
            assert(check_stmt(nested, quotient).diagnostics =~= nothing());
            assert(check_stmt(inner, branch).diagnostics =~= check_expr(
                inner,
                condition,
            ).diagnostics + condition_report(TypeView::Bool, placed(line, 1, 8)) + check_block(
                nested,
                then_branch,
            ).diagnostics + check_block(nested, other).diagnostics);
            assert(check_stmt(inner, branch).diagnostics =~= nothing());
            assert(ends_in_return(then_branch));
            assert(ends_in_return(other));
            assert(stmt_returns(branch));
        },
        _ => {},
    }
    assert(ends_in_return(body_of(s)));
    assert(check_stmt(ctx, s).diagnostics =~= nothing());
}

/// `division` returns a decimal where an integer is declared: wherever its
/// name is not taken, exactly that is reported, at the `return`.
pub proof fn division_returns_the_wrong_type(ctx: ContextView, line: u32)
    requires
        declared_once(ctx.functions, "division"@, placed(line, 0, 1)),
    ensures
        check_stmt(ctx, division_model(line)).diagnostics == seq![
            return_type_mismatch(TypeView::Int, TypeView::Float, placed(line, 1, 5)),
        ],
{
    let s = division_model(line);
    lemma_function_with_int_parameters(ctx, s, line, 13, 21);
    let inner = function_body_context(ctx, int_parameters(line, 13, 21), TypeView::Int);
    let only = body_of(s)[0];
    assert(body_of(s) =~= seq![only]);
    lemma_block_of_one(inner, only);
    let report = seq![return_type_mismatch(TypeView::Int, TypeView::Float, placed(line, 1, 5))];
    assert(check_stmt(inner, only).diagnostics =~= report);
    assert(ends_in_return(body_of(s)));
    assert(check_stmt(ctx, s).diagnostics =~= report);
}

/// The names that the samples declare side by side differ.
pub proof fn lemma_sample_names_differ()
    ensures
        "resultado"@ != "a"@,
        "resultado"@ != "b"@,
        "result"@ != "result2"@,
{
    reveal_strlit("a");
    reveal_strlit("b");
    reveal_strlit("resultado");
    reveal_strlit("result");
    reveal_strlit("result2");
    assert("resultado"@.len() == 9);
    assert("a"@.len() == 1);
    assert("b"@.len() == 1);
    assert("result"@.len() == 6);
    assert("result2"@.len() == 7);
}

/// `resta` declares a result and ends without `return`: wherever its name
/// is not taken, exactly that is reported, at the declaration.
pub proof fn resta_misses_its_return(ctx: ContextView, line: u32)
    requires
        declared_once(ctx.functions, "resta"@, placed(line, 0, 1)),
    ensures
        check_stmt(ctx, resta_model(line)).diagnostics == seq![
            missing_return("resta"@, placed(line, 0, 1)),
        ],
{
    let s = resta_model(line);
    lemma_function_with_int_parameters(ctx, s, line, 10, 18);
    let inner = function_body_context(ctx, int_parameters(line, 10, 18), TypeView::Int);
    let only = body_of(s)[0];
    assert(body_of(s) =~= seq![only]);
    lemma_block_of_one(inner, only);
    lemma_a_op_b(inner, Arithmetic::Sub, line, 1, 21, 25);
    lemma_sample_names_differ();
    assert(!inner.scopes.last().contains_key("resultado"@));
    assert(check_stmt(inner, only).diagnostics =~= nothing());
    assert(!ends_in_return(body_of(s)));
    assert(check_stmt(ctx, s).diagnostics =~= seq![missing_return("resta"@, placed(line, 0, 1))]);
}

/// `otra_funcion` holds a `break` that no loop encloses: wherever its
/// name is not taken, exactly that is reported, at the `break`, also
/// where the declaration itself stands inside a loop.
pub proof fn otra_funcion_breaks_outside_a_loop(ctx: ContextView, line: u32)
    requires
        declared_once(ctx.functions, "otra_funcion"@, placed(line, 0, 1)),
    ensures
        check_stmt(ctx, otra_funcion_model(line)).diagnostics == seq![
            break_outside_loop(placed(line, 1, 5)),
        ],
{
    let s = otra_funcion_model(line);
    lemma_function_without_parameters(ctx, s);
    let inner = inside_function(ctx, TypeView::Unit);
    let only = body_of(s)[0];
    assert(body_of(s) =~= seq![only]);
    lemma_block_of_one(inner, only);
    assert(check_stmt(ctx, s).diagnostics =~= seq![break_outside_loop(placed(line, 1, 5))]);
}

/// The function takes two integers.
pub open spec fn takes_two_integers(functions: Signatures, name: Seq<char>) -> bool {
    &&& functions.contains_key(name)
    &&& functions[name].params.len() == 2
    &&& functions[name].params[0].ty is Int
    &&& functions[name].params[1].ty is Int
}

/// What is reported for a call with the single argument `5` of a function
/// that takes two integers: the wrong number of arguments.
pub proof fn lemma_call_with_one_integer(
    ctx: ContextView,
    callee: Seq<char>,
    argument: ExprView,
    at: SourcePosition,
)
    requires
        takes_two_integers(ctx.functions, callee),
        argument is Literal,
        argument->form == LiteralForm::Integer,
    ensures
        check_expr(ctx, ExprView::Call { callee, arguments: seq![argument], at }).diagnostics
            == seq![arity_mismatch(callee, 2, 1, at)],
{
    let call = ExprView::Call { callee, arguments: seq![argument], at };
    lemma_exprs_of_one(ctx, argument);
    let params = ctx.functions[callee].params;
    let types = seq![TypeView::Int];
    let places = positions_of(seq![argument]);
    assert(check_exprs(ctx, seq![argument]).types =~= types);
    assert(lesser(2, 1) == 1);
    assert(argument_reports(params, types, places, 0) =~= nothing());
    assert(argument_reports(params, types, places, 1) =~= nothing());
    assert(call_report(ctx.functions, callee, types, places, at) =~= seq![
        arity_mismatch(callee, 2, 1, at),
    ]);
    assert(check_expr(ctx, call).diagnostics =~= seq![arity_mismatch(callee, 2, 1, at)]);
}

/// `probar` calls `sumar` with one argument: where `sumar` takes two
/// integers and the name `probar` is not taken, exactly that is reported,
/// at the call.
pub proof fn probar_calls_sumar_with_one_argument(ctx: ContextView, line: u32)
    requires
        declared_once(ctx.functions, "probar"@, placed(line, 0, 1)),
        takes_two_integers(ctx.functions, "sumar"@),
    ensures
        check_stmt(ctx, probar_model(line)).diagnostics == seq![
            arity_mismatch("sumar"@, 2, 1, placed(line, 1, 15)),
        ],
{
    let s = probar_model(line);
    lemma_function_without_parameters(ctx, s);
    let inner = inside_function(ctx, TypeView::Unit);
    let only = body_of(s)[0];
    assert(body_of(s) =~= seq![only]);
    lemma_block_of_one(inner, only);
    let report = seq![arity_mismatch("sumar"@, 2, 1, placed(line, 1, 15))];
    lemma_call_with_one_integer(
        inner,
        "sumar"@,
        literal(LiteralForm::Integer, "5"@, placed(line, 1, 21)),
        placed(line, 1, 15),
    );
    assert(check_stmt(inner, only).diagnostics =~= report);
    assert(check_stmt(ctx, s).diagnostics =~= report);
}

/// What is reported for a call with a text and an integer of a function
/// that takes two integers: the text, at its place.
pub proof fn lemma_call_with_text_and_integer(
    ctx: ContextView,
    callee: Seq<char>,
    first: ExprView,
    second: ExprView,
    at: SourcePosition,
)
    requires
        takes_two_integers(ctx.functions, callee),
        first is Literal,
        first->form == LiteralForm::Text,
        second is Literal,
        second->form == LiteralForm::Integer,
    ensures
        check_expr(ctx, ExprView::Call { callee, arguments: seq![first, second], at }).diagnostics
            == seq![argument_type_mismatch(TypeView::Int, TypeView::Str, position_of(first))],
{
    let call = ExprView::Call { callee, arguments: seq![first, second], at };
    let report = seq![argument_type_mismatch(TypeView::Int, TypeView::Str, position_of(first))];
    lemma_exprs_of_two(ctx, first, second);
    let params = ctx.functions[callee].params;
    let types = seq![TypeView::Str, TypeView::Int];
    let places = positions_of(seq![first, second]);
    assert(check_exprs(ctx, seq![first, second]).types =~= types);
    assert(check_exprs(ctx, seq![first, second]).diagnostics =~= nothing());
    assert(argument_reports(params, types, places, 0) =~= nothing());
    assert(argument_reports(params, types, places, 1) =~= report);
    assert(argument_reports(params, types, places, 2) =~= report);
    assert(lesser(2, 2) == 2);
    assert(call_report(ctx.functions, callee, types, places, at) =~= report);
    assert(check_expr(ctx, call).diagnostics =~= report);
}

/// What is reported for a declaration without annotation of a name that
/// the current scope does not bind: what its value owes. The name is bound
/// afterwards.
pub proof fn lemma_plain_declaration(
    ctx: ContextView,
    name: Seq<char>,
    value: ExprView,
    at: SourcePosition,
)
    requires
        ctx.scopes.len() > 0,
        !ctx.scopes.last().contains_key(name),
    ensures
        check_stmt(
            ctx,
            StmtView::Let { name, mutable: false, annotation: None, value, at },
        ).diagnostics == check_expr(ctx, value).diagnostics,
        forall|n: Seq<char>| #[trigger]
            check_stmt(
                ctx,
                StmtView::Let { name, mutable: false, annotation: None, value, at },
            ).scopes.last().contains_key(n) <==> (n == name || ctx.scopes.last().contains_key(n)),
{
    let s = StmtView::Let { name, mutable: false, annotation: None, value, at };
    assert(check_stmt(ctx, s).diagnostics =~= check_expr(ctx, value).diagnostics);
}

proof fn lemma_test_first(ctx: ContextView, line: u32)
    requires
        ctx.scopes.len() > 0,
        ctx.scopes.last() == Map::<Seq<char>, SymbolView>::empty(),
        takes_two_integers(ctx.functions, "multiplicar"@),
    ensures
        check_stmt(ctx, test_first(line)).diagnostics == seq![
            arity_mismatch("multiplicar"@, 2, 1, placed(line, 2, 18)),
        ],
        !check_stmt(ctx, test_first(line)).scopes.last().contains_key("result2"@),
        check_stmt(ctx, test_first(line)).scopes.len() > 0,
{
    reveal(test_first);
    let argument = literal(LiteralForm::Integer, "5"@, placed(line, 2, 30));
    let call = ExprView::Call {
        callee: "multiplicar"@,
        arguments: seq![argument],
        at: placed(line, 2, 18),
    };
    lemma_call_with_one_integer(ctx, "multiplicar"@, argument, placed(line, 2, 18));
    lemma_plain_declaration(ctx, "result"@, call, placed(line, 2, 5));
    lemma_sample_names_differ();
    crate::rules::lemma_stmt_keeps_outer_scopes(ctx, test_first(line));
}

proof fn lemma_test_second(ctx: ContextView, line: u32)
    requires
        ctx.scopes.len() > 0,
        !ctx.scopes.last().contains_key("result2"@),
        takes_two_integers(ctx.functions, "multiplicar"@),
    ensures
        check_stmt(ctx, test_second(line)).diagnostics == seq![
            argument_type_mismatch(TypeView::Int, TypeView::Str, placed(line, 5, 31)),
        ],
{
    reveal(test_second);
    let hola = literal(LiteralForm::Text, "hola"@, placed(line, 5, 31));
    let ten = literal(LiteralForm::Integer, "10"@, placed(line, 5, 39));
    let call = ExprView::Call {
        callee: "multiplicar"@,
        arguments: seq![hola, ten],
        at: placed(line, 5, 19),
    };
    lemma_call_with_text_and_integer(ctx, "multiplicar"@, hola, ten, placed(line, 5, 19));
    lemma_plain_declaration(ctx, "result2"@, call, placed(line, 5, 5));
}

proof fn lemma_one_and_one(x: DiagnosticView, y: DiagnosticView)
    ensures
        seq![x] + seq![y] == seq![x, y],
{
    assert(seq![x] + seq![y] =~= seq![x, y]);
}

proof fn lemma_test_outside(ctx: ContextView, line: u32)
    requires
        declared_once(ctx.functions, "test"@, placed(line, 0, 1)),
    ensures
        check_stmt(ctx, test_model(line)).diagnostics == check_block(
            inside_function(ctx, TypeView::Unit),
            seq![test_first(line), test_second(line)],
        ).diagnostics,
{
    let s = test_model(line);
    let inner = inside_function(ctx, TypeView::Unit);
    let body = seq![test_first(line), test_second(line)];
    lemma_function_without_parameters(ctx, s);
    assert(function_report(ctx.functions, "test"@, placed(line, 0, 1)) =~= nothing());
    assert(missing_return_report("test"@, TypeView::Unit, body, placed(line, 0, 1)) =~= nothing());
    assert(check_stmt(ctx, s).diagnostics =~= check_block(inner, body).diagnostics);
}

proof fn lemma_test_inside(ctx: ContextView, line: u32)
    requires
        ctx.scopes.len() > 0,
        ctx.scopes.last() == Map::<Seq<char>, SymbolView>::empty(),
        takes_two_integers(ctx.functions, "multiplicar"@),
    ensures
        check_block(ctx, seq![test_first(line), test_second(line)]).diagnostics == seq![
            arity_mismatch("multiplicar"@, 2, 1, placed(line, 2, 18)),
            argument_type_mismatch(TypeView::Int, TypeView::Str, placed(line, 5, 31)),
        ],
{
    let one = test_first(line);
    let two = test_second(line);
    let after = with_scopes(ctx, check_stmt(ctx, one).scopes);
    lemma_block_of_two(ctx, one, two);
    lemma_test_first(ctx, line);
    lemma_test_second(after, line);
    lemma_one_and_one(
        arity_mismatch("multiplicar"@, 2, 1, placed(line, 2, 18)),
        argument_type_mismatch(TypeView::Int, TypeView::Str, placed(line, 5, 31)),
    );
}

/// `test` calls `multiplicar` with one argument, then with a text where
/// an integer is due: where `multiplicar` takes two integers and the name
/// `test` is not taken, exactly these two are reported, in this order.
pub proof fn test_calls_multiplicar_wrongly_twice(ctx: ContextView, line: u32)
    requires
        declared_once(ctx.functions, "test"@, placed(line, 0, 1)),
        takes_two_integers(ctx.functions, "multiplicar"@),
    ensures
        check_stmt(ctx, test_model(line)).diagnostics == seq![
            arity_mismatch("multiplicar"@, 2, 1, placed(line, 2, 18)),
            argument_type_mismatch(TypeView::Int, TypeView::Str, placed(line, 5, 31)),
        ],
{
    lemma_test_outside(ctx, line);
    lemma_test_inside(inside_function(ctx, TypeView::Unit), line);
}

} // verus!

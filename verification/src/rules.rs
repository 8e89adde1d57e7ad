//! The rules of the language, as mathematical functions from a syntax tree
//! to the diagnostics that the analyzer owes for it.
//!
//! Every function here is total: a broken rule yields a diagnostic and a
//! best-effort type, and the walk goes on. Diagnostics come in the order of
//! the walk. An expression reports what its parts owe, left to right, then
//! what it owes itself; each kind of statement spells out its own order.

use crate::ast::{
    position_of, Arithmetic, BinaryOp, Comparison, ExprView, IterableView, LiteralForm,
    ParameterView, ProgramView, StmtView,
};
use crate::diagnostics::{
    argument_type_mismatch, arity_mismatch, assign_to_immutable, break_outside_loop,
    duplicate_declaration, inconsistent_array, missing_return, non_boolean_condition,
    non_integer_index, not_an_array, operand_mismatch, return_outside_function,
    return_type_mismatch, type_mismatch, undeclared_function, undeclared_variable,
    DiagnosticView,
};
use crate::position::SourcePosition;
use crate::scope::{
    lookup, with_binding, Bindings, FunctionSignatureView, Signatures, SymbolView,
};
use crate::types::{compatible, element_type, TypeView};
use vstd::prelude::*;

verus! {

/// What a statement is checked against.
pub struct ContextView {
    /// The chain of open scopes, the global one first, the current one last.
    pub scopes: Seq<Bindings>,
    /// The functions of the program.
    pub functions: Signatures,
    /// The declared return type of the enclosing function, if there is one.
    pub return_type: Option<TypeView>,
    /// The number of loops that enclose the statement inside its function.
    pub loop_depth: nat,
}

/// The type of an expression and the diagnostics found in it.
pub struct Typed {
    pub ty: TypeView,
    pub diagnostics: Seq<DiagnosticView>,
}

/// The types of a list of expressions and the diagnostics found in them.
pub struct TypedList {
    pub types: Seq<TypeView>,
    pub diagnostics: Seq<DiagnosticView>,
}

/// The scopes after a statement and the diagnostics found in it.
pub struct Flow {
    pub scopes: Seq<Bindings>,
    pub diagnostics: Seq<DiagnosticView>,
}

/// No diagnostic.
pub open spec fn nothing() -> Seq<DiagnosticView> {
    Seq::empty()
}

/// The context with other scopes.
pub open spec fn with_scopes(ctx: ContextView, scopes: Seq<Bindings>) -> ContextView {
    ContextView {
        scopes,
        functions: ctx.functions,
        return_type: ctx.return_type,
        loop_depth: ctx.loop_depth,
    }
}

/// The context inside a block that opens in `ctx`.
pub open spec fn enter(ctx: ContextView) -> ContextView {
    with_scopes(ctx, ctx.scopes.push(Map::empty()))
}

/// The type that the form of a literal gives it.
pub open spec fn literal_type(form: LiteralForm) -> TypeView {
    match form {
        LiteralForm::Integer => TypeView::Int,
        LiteralForm::Decimal => TypeView::Float,
        LiteralForm::Boolean => TypeView::Bool,
        LiteralForm::Character => TypeView::Char,
        LiteralForm::Text => TypeView::Str,
    }
}

/// `Int` or `Float`.
pub open spec fn numeric(t: TypeView) -> bool {
    t is Int || t is Float
}

/// A type whose values `==` and `!=` compare.
pub open spec fn equatable(t: TypeView) -> bool {
    t is Int || t is Float || t is Bool || t is Char || t is Str
}

/// A type whose values `<`, `>`, `<=` and `>=` compare.
pub open spec fn ordered(t: TypeView) -> bool {
    t is Int || t is Float || t is Char || t is Str
}

/// Arithmetic takes two operands of one numeric type. An `Unknown` operand
/// is let through.
pub open spec fn arithmetic_accepts(left: TypeView, right: TypeView) -> bool {
    &&& compatible(left, right)
    &&& numeric(left) || left is Unknown
    &&& numeric(right) || right is Unknown
}

/// A comparison takes two operands of one type that the operator compares.
pub open spec fn comparison_accepts(op: Comparison, left: TypeView, right: TypeView) -> bool {
    &&& compatible(left, right)
    &&& match op {
        Comparison::Equal | Comparison::NotEqual => {
            &&& equatable(left) || left is Unknown
            &&& equatable(right) || right is Unknown
        },
        _ => {
            &&& ordered(left) || left is Unknown
            &&& ordered(right) || right is Unknown
        },
    }
}

/// `&&` and `||` take two booleans.
pub open spec fn logical_accepts(left: TypeView, right: TypeView) -> bool {
    &&& left is Bool || left is Unknown
    &&& right is Bool || right is Unknown
}

/// Whether the operator takes operands of these types.
pub open spec fn binary_accepts(op: BinaryOp, left: TypeView, right: TypeView) -> bool {
    match op {
        BinaryOp::Arithmetic(_) => arithmetic_accepts(left, right),
        BinaryOp::Comparison(c) => comparison_accepts(c, left, right),
        BinaryOp::Logical(_) => logical_accepts(left, right),
    }
}

/// The type of an arithmetic operation: that of its operands, or `Unknown`
/// where they are not accepted.
pub open spec fn arithmetic_type(left: TypeView, right: TypeView) -> TypeView {
    if !arithmetic_accepts(left, right) {
        TypeView::Unknown
    } else if left is Unknown {
        right
    } else {
        left
    }
}

/// The type of a binary operation.
pub open spec fn binary_type(op: BinaryOp, left: TypeView, right: TypeView) -> TypeView {
    match op {
        BinaryOp::Arithmetic(_) => arithmetic_type(left, right),
        _ => TypeView::Bool,
    }
}

/// What a binary operation reports of its operands' types.
pub open spec fn binary_report(
    op: BinaryOp,
    left: TypeView,
    right: TypeView,
    at: SourcePosition,
) -> Seq<DiagnosticView> {
    if binary_accepts(op, left, right) {
        nothing()
    } else {
        seq![operand_mismatch(left, right, at)]
    }
}

/// What `!` reports of its operand's type.
pub open spec fn not_report(operand: TypeView, at: SourcePosition) -> Seq<DiagnosticView> {
    if operand is Bool || operand is Unknown {
        nothing()
    } else {
        seq![type_mismatch(TypeView::Bool, operand, at)]
    }
}

/// The type and the report of an array literal whose elements have the
/// given types. An element of `Unknown` type makes the whole `Unknown`
/// without a further report.
pub open spec fn array_literal(types: Seq<TypeView>, at: SourcePosition) -> Typed {
    if types.contains(TypeView::Unknown) {
        Typed { ty: TypeView::Unknown, diagnostics: nothing() }
    } else {
        match element_type(types) {
            Some(t) => Typed { ty: TypeView::Array(Box::new(t)), diagnostics: nothing() },
            None => Typed { ty: TypeView::Unknown, diagnostics: seq![inconsistent_array(at)] },
        }
    }
}

/// The type of an element of a value of type `base`.
pub open spec fn indexed_type(base: TypeView) -> TypeView {
    match base {
        TypeView::Array(element) => *element,
        _ => TypeView::Unknown,
    }
}

/// What is reported of the type of a value that is indexed or iterated.
pub open spec fn array_report(base: TypeView, at: SourcePosition) -> Seq<DiagnosticView> {
    if base is Array || base is Unknown {
        nothing()
    } else {
        seq![not_an_array(base, at)]
    }
}

/// What is reported of the type of an index.
pub open spec fn index_report(index: TypeView, at: SourcePosition) -> Seq<DiagnosticView> {
    if index is Int || index is Unknown {
        nothing()
    } else {
        seq![non_integer_index(index, at)]
    }
}

/// The positions of a list of expressions.
pub open spec fn positions_of(items: Seq<ExprView>) -> Seq<SourcePosition> {
    Seq::new(items.len(), |i: int| position_of(items[i]))
}

/// What is reported of the first `count` arguments of a call, each held
/// against the parameter at its place.
pub open spec fn argument_reports(
    params: Seq<ParameterView>,
    types: Seq<TypeView>,
    positions: Seq<SourcePosition>,
    count: nat,
) -> Seq<DiagnosticView>
    decreases count,
{
    if count == 0 {
        nothing()
    } else {
        let i = count - 1;
        argument_reports(params, types, positions, i as nat) + (if compatible(
            params[i].ty,
            types[i],
        ) {
            nothing()
        } else {
            seq![argument_type_mismatch(params[i].ty, types[i], positions[i])]
        })
    }
}

/// The lesser of two numbers.
pub open spec fn lesser(a: nat, b: nat) -> nat {
    if a <= b {
        a
    } else {
        b
    }
}

/// What a call reports: that the function is not declared; or else that
/// the number of arguments is not the declared one, and each argument whose
/// type is not that of its parameter.
pub open spec fn call_report(
    functions: Signatures,
    callee: Seq<char>,
    types: Seq<TypeView>,
    positions: Seq<SourcePosition>,
    at: SourcePosition,
) -> Seq<DiagnosticView> {
    if !functions.contains_key(callee) {
        seq![undeclared_function(callee, at)]
    } else {
        let params = functions[callee].params;
        (if params.len() == types.len() {
            nothing()
        } else {
            seq![arity_mismatch(callee, params.len(), types.len(), at)]
        }) + argument_reports(params, types, positions, lesser(params.len(), types.len()))
    }
}

/// The type of a call.
pub open spec fn call_type(functions: Signatures, callee: Seq<char>) -> TypeView {
    if functions.contains_key(callee) {
        functions[callee].return_type
    } else {
        TypeView::Unknown
    }
}

/// The type of an expression in a context, and the diagnostics owed for it.
pub open spec fn check_expr(ctx: ContextView, e: ExprView) -> Typed
    decreases e,
{
    match e {
        ExprView::Literal { form, .. } => Typed { ty: literal_type(form), diagnostics: nothing() },
        ExprView::Identifier { name, at } => match lookup(ctx.scopes, name) {
            Some(symbol) => Typed { ty: symbol.ty, diagnostics: nothing() },
            None => Typed {
                ty: TypeView::Unknown,
                diagnostics: seq![undeclared_variable(name, at)],
            },
        },
        ExprView::Array { elements, at } => {
            let items = check_exprs(ctx, elements);
            let whole = array_literal(items.types, at);
            Typed { ty: whole.ty, diagnostics: items.diagnostics + whole.diagnostics }
        },
        ExprView::Index { base, index, at } => {
            let b = check_expr(ctx, *base);
            let i = check_expr(ctx, *index);
            Typed {
                ty: indexed_type(b.ty),
                diagnostics: b.diagnostics + i.diagnostics + array_report(b.ty, position_of(*base))
                    + index_report(i.ty, position_of(*index)),
            }
        },
        ExprView::Binary { op, left, right, at } => {
            let l = check_expr(ctx, *left);
            let r = check_expr(ctx, *right);
            Typed {
                ty: binary_type(op, l.ty, r.ty),
                diagnostics: l.diagnostics + r.diagnostics + binary_report(op, l.ty, r.ty, at),
            }
        },
        ExprView::Not { operand, at } => {
            let o = check_expr(ctx, *operand);
            Typed { ty: TypeView::Bool, diagnostics: o.diagnostics + not_report(o.ty, at) }
        },
        ExprView::Call { callee, arguments, at } => {
            let args = check_exprs(ctx, arguments);
            Typed {
                ty: call_type(ctx.functions, callee),
                diagnostics: args.diagnostics + call_report(
                    ctx.functions,
                    callee,
                    args.types,
                    positions_of(arguments),
                    at,
                ),
            }
        },
    }
}

/// The types of a list of expressions, and the diagnostics owed for them,
/// in the order of the list.
pub open spec fn check_exprs(ctx: ContextView, items: Seq<ExprView>) -> TypedList
    decreases items,
{
    if items.len() == 0 {
        TypedList { types: Seq::empty(), diagnostics: nothing() }
    } else {
        let front = check_exprs(ctx, items.drop_last());
        let last = check_expr(ctx, items.last());
        TypedList {
            types: front.types.push(last.ty),
            diagnostics: front.diagnostics + last.diagnostics,
        }
    }
}

/// The type that a declaration gives its variable: the annotated one, or
/// else that of the value.
pub open spec fn declared_type(annotation: Option<TypeView>, value: TypeView) -> TypeView {
    match annotation {
        Some(t) => t,
        None => value,
    }
}

/// What a declaration reports of its value's type.
pub open spec fn annotation_report(
    annotation: Option<TypeView>,
    value: TypeView,
    at: SourcePosition,
) -> Seq<DiagnosticView> {
    match annotation {
        Some(t) => if compatible(t, value) {
            nothing()
        } else {
            seq![type_mismatch(t, value, at)]
        },
        None => nothing(),
    }
}

/// What a declaration reports of its name.
pub open spec fn redeclaration_report(
    current: Bindings,
    name: Seq<char>,
    at: SourcePosition,
) -> Seq<DiagnosticView> {
    if current.contains_key(name) {
        seq![duplicate_declaration(name, at)]
    } else {
        nothing()
    }
}

/// What an assignment reports of its target.
pub open spec fn target_report(
    target: Option<SymbolView>,
    name: Seq<char>,
    at: SourcePosition,
) -> Seq<DiagnosticView> {
    match target {
        None => seq![undeclared_variable(name, at)],
        Some(symbol) => if symbol.mutable {
            nothing()
        } else {
            seq![assign_to_immutable(name, at)]
        },
    }
}

/// The type of the target of an assignment.
pub open spec fn target_type(target: Option<SymbolView>) -> TypeView {
    match target {
        Some(symbol) => symbol.ty,
        None => TypeView::Unknown,
    }
}

/// What an assignment reports of its value's type. A compound assignment
/// is held to the rule of its arithmetic operator.
pub open spec fn assignment_report(
    target: TypeView,
    op: Option<Arithmetic>,
    value: TypeView,
    at: SourcePosition,
) -> Seq<DiagnosticView> {
    match op {
        None => if compatible(target, value) {
            nothing()
        } else {
            seq![type_mismatch(target, value, at)]
        },
        Some(_) => if arithmetic_accepts(target, value) {
            nothing()
        } else {
            seq![operand_mismatch(target, value, at)]
        },
    }
}

/// What an `if` reports of its condition's type.
pub open spec fn condition_report(condition: TypeView, at: SourcePosition) -> Seq<DiagnosticView> {
    if condition is Bool || condition is Unknown {
        nothing()
    } else {
        seq![non_boolean_condition(condition, at)]
    }
}

/// What a bound of a range reports of its type.
pub open spec fn bound_report(bound: TypeView, at: SourcePosition) -> Seq<DiagnosticView> {
    if compatible(TypeView::Int, bound) {
        nothing()
    } else {
        seq![type_mismatch(TypeView::Int, bound, at)]
    }
}

/// The type of the loop variable, and the diagnostics owed for what the
/// loop runs over. The variable of a range is an `Int`.
pub open spec fn check_iterable(ctx: ContextView, iterable: IterableView) -> Typed {
    match iterable {
        IterableView::Range { start, end } => {
            let s = check_expr(ctx, start);
            let e = check_expr(ctx, end);
            Typed {
                ty: TypeView::Int,
                diagnostics: s.diagnostics + bound_report(s.ty, position_of(start)) + e.diagnostics
                    + bound_report(e.ty, position_of(end)),
            }
        },
        IterableView::Elements(array) => {
            let a = check_expr(ctx, array);
            Typed {
                ty: indexed_type(a.ty),
                diagnostics: a.diagnostics + array_report(a.ty, position_of(array)),
            }
        },
    }
}

/// The context inside the body of a loop.
pub open spec fn inside_loop(
    ctx: ContextView,
    variable: Seq<char>,
    ty: TypeView,
    at: SourcePosition,
) -> ContextView {
    ContextView {
        scopes: with_binding(
            ctx.scopes.push(Map::empty()),
            SymbolView { name: variable, ty, mutable: false, declared_at: at },
        ),
        functions: ctx.functions,
        return_type: ctx.return_type,
        loop_depth: ctx.loop_depth + 1,
    }
}

/// What a `break` reports.
pub open spec fn break_report(loop_depth: nat, at: SourcePosition) -> Seq<DiagnosticView> {
    if loop_depth == 0 {
        seq![break_outside_loop(at)]
    } else {
        nothing()
    }
}

/// What a `return` reports of its place and of the type of its value.
pub open spec fn return_report(
    declared: Option<TypeView>,
    value: TypeView,
    at: SourcePosition,
) -> Seq<DiagnosticView> {
    match declared {
        None => seq![return_outside_function(at)],
        Some(t) => if compatible(t, value) {
            nothing()
        } else {
            seq![return_type_mismatch(t, value, at)]
        },
    }
}

/// The scopes after the parameters were bound in the current scope, in
/// order, and a report for each name that was bound already.
pub open spec fn bind_parameters(scopes: Seq<Bindings>, params: Seq<ParameterView>) -> Flow
    decreases params.len(),
{
    if params.len() == 0 {
        Flow { scopes, diagnostics: nothing() }
    } else {
        let front = bind_parameters(scopes, params.drop_last());
        let p = params.last();
        if front.scopes.last().contains_key(p.name) {
            Flow {
                scopes: front.scopes,
                diagnostics: front.diagnostics + seq![duplicate_declaration(p.name, p.at)],
            }
        } else {
            Flow {
                scopes: with_binding(
                    front.scopes,
                    SymbolView { name: p.name, ty: p.ty, mutable: false, declared_at: p.at },
                ),
                diagnostics: front.diagnostics,
            }
        }
    }
}

/// The context inside the body of a function, before its parameters are
/// bound: a fresh scope, the declared return type, and no enclosing loop.
pub open spec fn inside_function(ctx: ContextView, return_type: TypeView) -> ContextView {
    ContextView {
        scopes: ctx.scopes.push(Map::empty()),
        functions: ctx.functions,
        return_type: Some(return_type),
        loop_depth: 0,
    }
}

/// What a function declaration reports of its name: a second declaration
/// of a name is a duplicate.
pub open spec fn function_report(
    functions: Signatures,
    name: Seq<char>,
    at: SourcePosition,
) -> Seq<DiagnosticView> {
    if functions.contains_key(name) && functions[name].declared_at != at {
        seq![duplicate_declaration(name, at)]
    } else {
        nothing()
    }
}

/// Every path through the statements ends in a `return`: the last one is a
/// `return`, a block that ends in one, or an `if` with an `else` of which
/// both branches end in one.
pub open spec fn ends_in_return(statements: Seq<StmtView>) -> bool
    decreases statements,
{
    statements.len() > 0 && stmt_returns(statements.last())
}

/// Every path through the statement ends in a `return`.
pub open spec fn stmt_returns(s: StmtView) -> bool
    decreases s,
{
    match s {
        StmtView::Return { .. } => true,
        StmtView::Block { body, .. } => ends_in_return(body),
        StmtView::If { then_branch, else_branch, .. } => match else_branch {
            Some(other) => ends_in_return(then_branch) && ends_in_return(other),
            None => false,
        },
        _ => false,
    }
}

/// What a function declaration reports of the paths through its body.
pub open spec fn missing_return_report(
    name: Seq<char>,
    return_type: TypeView,
    body: Seq<StmtView>,
    at: SourcePosition,
) -> Seq<DiagnosticView> {
    if return_type is Unit || ends_in_return(body) {
        nothing()
    } else {
        seq![missing_return(name, at)]
    }
}

/// The scopes after a statement, and the diagnostics owed for it.
pub open spec fn check_stmt(ctx: ContextView, s: StmtView) -> Flow
    decreases s,
{
    match s {
        StmtView::Let { name, mutable, annotation, value, at } => {
            let v = check_expr(ctx, value);
            let symbol = SymbolView {
                name,
                ty: declared_type(annotation, v.ty),
                mutable,
                declared_at: at,
            };
            Flow {
                scopes: if ctx.scopes.last().contains_key(name) {
                    ctx.scopes
                } else {
                    with_binding(ctx.scopes, symbol)
                },
                diagnostics: v.diagnostics + annotation_report(
                    annotation,
                    v.ty,
                    position_of(value),
                ) + redeclaration_report(ctx.scopes.last(), name, at),
            }
        },
        StmtView::Assign { name, op, value, at } => {
            let target = lookup(ctx.scopes, name);
            let v = check_expr(ctx, value);
            Flow {
                scopes: ctx.scopes,
                diagnostics: target_report(target, name, at) + v.diagnostics + assignment_report(
                    target_type(target),
                    op,
                    v.ty,
                    position_of(value),
                ),
            }
        },
        StmtView::If { condition, then_branch, else_branch, at } => {
            let c = check_expr(ctx, condition);
            let first = check_block(enter(ctx), then_branch).diagnostics;
            let second = match else_branch {
                Some(other) => check_block(enter(ctx), other).diagnostics,
                None => nothing(),
            };
            Flow {
                scopes: ctx.scopes,
                diagnostics: c.diagnostics + condition_report(c.ty, position_of(condition)) + first
                    + second,
            }
        },
        StmtView::For { variable, iterable, body, at } => {
            let it = check_iterable(ctx, iterable);
            Flow {
                scopes: ctx.scopes,
                diagnostics: it.diagnostics + check_block(
                    inside_loop(ctx, variable, it.ty, at),
                    body,
                ).diagnostics,
            }
        },
        StmtView::Break { at } => Flow {
            scopes: ctx.scopes,
            diagnostics: break_report(ctx.loop_depth, at),
        },
        StmtView::Return { result, at } => {
            let v = match result {
                Some(e) => check_expr(ctx, e),
                None => Typed { ty: TypeView::Unit, diagnostics: nothing() },
            };
            Flow {
                scopes: ctx.scopes,
                diagnostics: v.diagnostics + return_report(ctx.return_type, v.ty, at),
            }
        },
        StmtView::Function { name, params, return_type, body, at } => {
            let fresh = inside_function(ctx, return_type);
            let bound = bind_parameters(fresh.scopes, params);
            Flow {
                scopes: ctx.scopes,
                diagnostics: function_report(ctx.functions, name, at) + bound.diagnostics
                    + check_block(with_scopes(fresh, bound.scopes), body).diagnostics
                    + missing_return_report(name, return_type, body, at),
            }
        },
        StmtView::Block { body, .. } => Flow {
            scopes: ctx.scopes,
            diagnostics: check_block(enter(ctx), body).diagnostics,
        },
        StmtView::Print { arguments, .. } => Flow {
            scopes: ctx.scopes,
            diagnostics: check_exprs(ctx, arguments).diagnostics,
        },
        StmtView::Expression { value } => Flow {
            scopes: ctx.scopes,
            diagnostics: check_expr(ctx, value).diagnostics,
        },
    }
}

/// The scopes after a list of statements, each checked in the scopes that
/// the one before it left, and the diagnostics owed for them, in order.
pub open spec fn check_block(ctx: ContextView, statements: Seq<StmtView>) -> Flow
    decreases statements,
{
    if statements.len() == 0 {
        Flow { scopes: ctx.scopes, diagnostics: nothing() }
    } else {
        let front = check_block(ctx, statements.drop_last());
        let last = check_stmt(with_scopes(ctx, front.scopes), statements.last());
        Flow { scopes: last.scopes, diagnostics: front.diagnostics + last.diagnostics }
    }
}

/// A statement changes at most the current scope.
pub proof fn lemma_stmt_keeps_outer_scopes(ctx: ContextView, s: StmtView)
    requires
        ctx.scopes.len() > 0,
    ensures
        check_stmt(ctx, s).scopes.len() == ctx.scopes.len(),
        check_stmt(ctx, s).scopes.drop_last() == ctx.scopes.drop_last(),
{
    assert(check_stmt(ctx, s).scopes.drop_last() =~= ctx.scopes.drop_last());
}

/// A list of statements changes at most the current scope.
pub proof fn lemma_block_keeps_outer_scopes(ctx: ContextView, statements: Seq<StmtView>)
    requires
        ctx.scopes.len() > 0,
    ensures
        check_block(ctx, statements).scopes.len() == ctx.scopes.len(),
        check_block(ctx, statements).scopes.drop_last() == ctx.scopes.drop_last(),
    decreases statements.len(),
{
    if statements.len() > 0 {
        lemma_block_keeps_outer_scopes(ctx, statements.drop_last());
        let front = check_block(ctx, statements.drop_last());
        lemma_stmt_keeps_outer_scopes(with_scopes(ctx, front.scopes), statements.last());
    }
}

/// Binding parameters changes at most the current scope.
pub proof fn lemma_parameters_keep_outer_scopes(scopes: Seq<Bindings>, params: Seq<ParameterView>)
    requires
        scopes.len() > 0,
    ensures
        bind_parameters(scopes, params).scopes.len() == scopes.len(),
        bind_parameters(scopes, params).scopes.drop_last() == scopes.drop_last(),
    decreases params.len(),
{
    if params.len() > 0 {
        lemma_parameters_keep_outer_scopes(scopes, params.drop_last());
        assert(bind_parameters(scopes, params).scopes.drop_last() =~= scopes.drop_last());
    }
}

/// The signature that a function declaration stands for.
pub open spec fn signature_of(
    name: Seq<char>,
    params: Seq<ParameterView>,
    return_type: TypeView,
    at: SourcePosition,
) -> FunctionSignatureView {
    FunctionSignatureView { name, params, return_type, declared_at: at }
}

/// The functions known after those declared in a statement, at any depth,
/// were added in source order. The first declaration of a name counts.
pub open spec fn collect_stmt(functions: Signatures, s: StmtView) -> Signatures
    decreases s,
{
    match s {
        StmtView::Function { name, params, return_type, body, at } => collect_block(
            if functions.contains_key(name) {
                functions
            } else {
                functions.insert(name, signature_of(name, params, return_type, at))
            },
            body,
        ),
        StmtView::If { then_branch, else_branch, .. } => match else_branch {
            Some(other) => collect_block(collect_block(functions, then_branch), other),
            None => collect_block(functions, then_branch),
        },
        StmtView::For { body, .. } => collect_block(functions, body),
        StmtView::Block { body, .. } => collect_block(functions, body),
        _ => functions,
    }
}

/// The functions known after those declared in a list of statements were
/// added in source order.
pub open spec fn collect_block(functions: Signatures, statements: Seq<StmtView>) -> Signatures
    decreases statements,
{
    if statements.len() == 0 {
        functions
    } else {
        collect_stmt(collect_block(functions, statements.drop_last()), statements.last())
    }
}

/// The context in which the top-level statements of a program are checked:
/// the global scope, every function of the program, no enclosing function
/// and no enclosing loop.
pub open spec fn initial_context(program: ProgramView) -> ContextView {
    ContextView {
        scopes: seq![Map::empty()],
        functions: collect_block(Map::empty(), program.statements),
        return_type: None,
        loop_depth: 0,
    }
}

/// The diagnostics that the analyzer owes for a program.
pub open spec fn diagnostics_of(program: ProgramView) -> Seq<DiagnosticView> {
    check_block(initial_context(program), program.statements).diagnostics
}

} // verus!

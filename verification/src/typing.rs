//! The static rules stated on their own, without diagnostics and without
//! recovery: which expressions have a type, which statements are accepted,
//! and which programs.
//!
//! `Unknown` plays no part here. The laws of this crate relate these
//! definitions to what the analyzer reports.

use crate::ast::{BinaryOp, Comparison, ExprView, IterableView, ParameterView, ProgramView, StmtView};
use crate::position::SourcePosition;
use crate::rules::{
    bind_parameters, ends_in_return, enter, equatable, initial_context, inside_function,
    inside_loop, literal_type, numeric, ordered, with_scopes, ContextView,
};
use crate::scope::{lookup, with_binding, Bindings, Signatures, SymbolView};
use crate::types::{element_type, known, TypeView};
use vstd::prelude::*;

verus! {

/// The operator applies to operands of these types: arithmetic to two of
/// one numeric type, a comparison to two of one type that it compares,
/// `&&` and `||` to two booleans.
pub open spec fn operator_applies(op: BinaryOp, left: TypeView, right: TypeView) -> bool {
    match op {
        BinaryOp::Arithmetic(_) => left == right && numeric(left),
        BinaryOp::Comparison(c) => left == right && match c {
            Comparison::Equal | Comparison::NotEqual => equatable(left),
            _ => ordered(left),
        },
        BinaryOp::Logical(_) => left is Bool && right is Bool,
    }
}

/// The type of the operation on operands of type `operand`.
pub open spec fn operator_result(op: BinaryOp, operand: TypeView) -> TypeView {
    match op {
        BinaryOp::Arithmetic(_) => operand,
        _ => TypeView::Bool,
    }
}

/// There is one argument for each parameter, and each has the type of its
/// parameter.
pub open spec fn arguments_match(params: Seq<ParameterView>, types: Seq<TypeView>) -> bool {
    &&& params.len() == types.len()
    &&& forall|i: int| 0 <= i < params.len() ==> (#[trigger] params[i]).ty == types[i]
}

/// The type of an expression that keeps every rule; `None` for one that
/// breaks a rule.
pub open spec fn type_of(ctx: ContextView, e: ExprView) -> Option<TypeView>
    decreases e,
{
    match e {
        ExprView::Literal { form, .. } => Some(literal_type(form)),
        ExprView::Identifier { name, .. } => match lookup(ctx.scopes, name) {
            Some(symbol) => Some(symbol.ty),
            None => None,
        },
        ExprView::Array { elements, .. } => match types_of(ctx, elements) {
            Some(types) => match element_type(types) {
                Some(t) => Some(TypeView::Array(Box::new(t))),
                None => None,
            },
            None => None,
        },
        ExprView::Index { base, index, .. } => match type_of(ctx, *base) {
            Some(TypeView::Array(element)) => if type_of(ctx, *index) == Some(TypeView::Int) {
                Some(*element)
            } else {
                None
            },
            _ => None,
        },
        ExprView::Binary { op, left, right, .. } => match type_of(ctx, *left) {
            Some(l) => match type_of(ctx, *right) {
                Some(r) => if operator_applies(op, l, r) {
                    Some(operator_result(op, l))
                } else {
                    None
                },
                None => None,
            },
            None => None,
        },
        ExprView::Not { operand, .. } => if type_of(ctx, *operand) == Some(TypeView::Bool) {
            Some(TypeView::Bool)
        } else {
            None
        },
        ExprView::Call { callee, arguments, .. } => match types_of(ctx, arguments) {
            Some(types) => if ctx.functions.contains_key(callee) && arguments_match(
                ctx.functions[callee].params,
                types,
            ) {
                Some(ctx.functions[callee].return_type)
            } else {
                None
            },
            None => None,
        },
    }
}

/// The types of a list of expressions that all keep every rule.
pub open spec fn types_of(ctx: ContextView, items: Seq<ExprView>) -> Option<Seq<TypeView>>
    decreases items,
{
    if items.len() == 0 {
        Some(Seq::empty())
    } else {
        match types_of(ctx, items.drop_last()) {
            Some(front) => match type_of(ctx, items.last()) {
                Some(last) => Some(front.push(last)),
                None => None,
            },
            None => None,
        }
    }
}

/// The type of the variable of a loop over an iterable that keeps every
/// rule: `Int` for a range of integers, the element type for an array.
pub open spec fn loop_variable_type(ctx: ContextView, iterable: IterableView) -> Option<TypeView> {
    match iterable {
        IterableView::Range { start, end } => if type_of(ctx, start) == Some(TypeView::Int)
            && type_of(ctx, end) == Some(TypeView::Int) {
            Some(TypeView::Int)
        } else {
            None
        },
        IterableView::Elements(array) => match type_of(ctx, array) {
            Some(TypeView::Array(element)) => Some(*element),
            _ => None,
        },
    }
}

/// No two parameters share a name.
pub open spec fn distinct_names(params: Seq<ParameterView>) -> bool {
    forall|i: int, j: int|
        0 <= i < j < params.len() ==> (#[trigger] params[i]).name != (#[trigger] params[j]).name
}

/// The declaration at `at` is the one that counts for `name`.
pub open spec fn declared_once(functions: Signatures, name: Seq<char>, at: SourcePosition) -> bool {
    !(functions.contains_key(name) && functions[name].declared_at != at)
}

/// The context in which the body of a function is checked.
pub open spec fn function_body_context(
    ctx: ContextView,
    params: Seq<ParameterView>,
    return_type: TypeView,
) -> ContextView {
    let fresh = inside_function(ctx, return_type);
    with_scopes(fresh, bind_parameters(fresh.scopes, params).scopes)
}

/// The scopes after a statement that keeps every rule; `None` for one that
/// breaks a rule.
pub open spec fn accept_stmt(ctx: ContextView, s: StmtView) -> Option<Seq<Bindings>>
    decreases s,
{
    match s {
        StmtView::Let { name, mutable, annotation, value, at } => match type_of(ctx, value) {
            Some(t) => if (annotation matches Some(a) ==> a == t) && !ctx.scopes.last().contains_key(
                name,
            ) {
                Some(
                    with_binding(ctx.scopes, SymbolView { name, ty: t, mutable, declared_at: at }),
                )
            } else {
                None
            },
            None => None,
        },
        StmtView::Assign { name, op, value, .. } => match lookup(ctx.scopes, name) {
            Some(symbol) => if symbol.mutable && type_of(ctx, value) == Some(symbol.ty) && (op is Some
                ==> numeric(symbol.ty)) {
                Some(ctx.scopes)
            } else {
                None
            },
            None => None,
        },
        StmtView::If { condition, then_branch, else_branch, .. } => if type_of(ctx, condition)
            == Some(TypeView::Bool) && accept_block(enter(ctx), then_branch) is Some && (match else_branch {
            Some(other) => accept_block(enter(ctx), other) is Some,
            None => true,
        }) {
            Some(ctx.scopes)
        } else {
            None
        },
        StmtView::For { variable, iterable, body, at } => match loop_variable_type(ctx, iterable) {
            Some(t) => if accept_block(inside_loop(ctx, variable, t, at), body) is Some {
                Some(ctx.scopes)
            } else {
                None
            },
            None => None,
        },
        StmtView::Break { .. } => if ctx.loop_depth > 0 {
            Some(ctx.scopes)
        } else {
            None
        },
        StmtView::Return { result, .. } => match ctx.return_type {
            Some(declared) => if (match result {
                Some(e) => type_of(ctx, e) == Some(declared),
                None => declared is Unit,
            }) {
                Some(ctx.scopes)
            } else {
                None
            },
            None => None,
        },
        StmtView::Function { name, params, return_type, body, at } => if declared_once(
            ctx.functions,
            name,
            at,
        ) && distinct_names(params) && accept_block(
            function_body_context(ctx, params, return_type),
            body,
        ) is Some && (return_type is Unit || ends_in_return(body)) {
            Some(ctx.scopes)
        } else {
            None
        },
        StmtView::Block { body, .. } => if accept_block(enter(ctx), body) is Some {
            Some(ctx.scopes)
        } else {
            None
        },
        StmtView::Print { arguments, .. } => if types_of(ctx, arguments) is Some {
            Some(ctx.scopes)
        } else {
            None
        },
        StmtView::Expression { value } => if type_of(ctx, value) is Some {
            Some(ctx.scopes)
        } else {
            None
        },
    }
}

/// The scopes after a list of statements that all keep every rule, each
/// taken in the scopes that the one before it left.
pub open spec fn accept_block(ctx: ContextView, statements: Seq<StmtView>) -> Option<Seq<Bindings>>
    decreases statements,
{
    if statements.len() == 0 {
        Some(ctx.scopes)
    } else {
        match accept_block(ctx, statements.drop_last()) {
            Some(scopes) => accept_stmt(with_scopes(ctx, scopes), statements.last()),
            None => None,
        }
    }
}

/// The program keeps every rule.
pub open spec fn accepted(program: ProgramView) -> bool {
    accept_block(initial_context(program), program.statements) is Some
}

/// Every type that the statement writes down is a known one. A syntax tree
/// from a parser is of this kind: no source text denotes `Unknown`.
pub open spec fn well_formed_stmt(s: StmtView) -> bool
    decreases s,
{
    match s {
        StmtView::Let { annotation, .. } => annotation matches Some(t) ==> known(t),
        StmtView::If { then_branch, else_branch, .. } => well_formed_block(then_branch) && (match else_branch {
            Some(other) => well_formed_block(other),
            None => true,
        }),
        StmtView::For { body, .. } => well_formed_block(body),
        StmtView::Function { params, return_type, body, .. } => {
            &&& known(return_type)
            &&& forall|i: int| 0 <= i < params.len() ==> known((#[trigger] params[i]).ty)
            &&& well_formed_block(body)
        },
        StmtView::Block { body, .. } => well_formed_block(body),
        _ => true,
    }
}

/// Every type that the statements write down is a known one.
pub open spec fn well_formed_block(statements: Seq<StmtView>) -> bool
    decreases statements,
{
    statements.len() == 0 || (well_formed_block(statements.drop_last()) && well_formed_stmt(
        statements.last(),
    ))
}

/// Every type that the program writes down is a known one.
pub open spec fn well_formed(program: ProgramView) -> bool {
    well_formed_block(program.statements)
}

/// Every binding has a known type.
pub open spec fn scopes_known(scopes: Seq<Bindings>) -> bool {
    forall|i: int, name: Seq<char>|
        0 <= i < scopes.len() && #[trigger] scopes[i].contains_key(name) ==> known(
            scopes[i][name].ty,
        )
}

/// Every signature is made of known types.
pub open spec fn signatures_known(functions: Signatures) -> bool {
    forall|name: Seq<char>| #[trigger]
        functions.contains_key(name) ==> {
            &&& known(functions[name].return_type)
            &&& forall|i: int|
                0 <= i < functions[name].params.len() ==> known(
                    (#[trigger] functions[name].params[i]).ty,
                )
        }
}

/// The global scope is open, and the context holds known types only.
pub open spec fn context_known(ctx: ContextView) -> bool {
    &&& ctx.scopes.len() > 0
    &&& scopes_known(ctx.scopes)
    &&& signatures_known(ctx.functions)
    &&& ctx.return_type matches Some(t) ==> known(t)
}

} // verus!

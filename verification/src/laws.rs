//! What holds of the analyzer on every input.
//!
//! The central law: on a syntax tree that writes down known types only, the
//! analyzer reports nothing exactly where the static rules, stated on their
//! own, are kept; and where it reports nothing, the types it computes are
//! the real ones, free of `Unknown`.

use crate::ast::{position_of, ExprView, IterableView, ParameterView, ProgramView, StmtView};
use crate::diagnostics::DiagnosticView;
use crate::position::SourcePosition;
use crate::rules::{
    argument_reports, array_literal, array_report, bind_parameters, binary_report, call_report,
    check_block, check_expr, check_exprs, check_iterable, check_stmt, collect_block, collect_stmt,
    diagnostics_of, enter, index_report, initial_context, inside_function, inside_loop, lesser,
    not_report, nothing, positions_of, redeclaration_report, with_scopes, ContextView,
};
use crate::scope::{lookup, with_binding, Bindings, Signatures, SymbolView};
use crate::types::{compatible, element_type, known, TypeView};
use crate::typing::{
    accept_block, accept_stmt, accepted, context_known, distinct_names, function_body_context,
    loop_variable_type, scopes_known, signatures_known, type_of, types_of, well_formed,
    well_formed_block, well_formed_stmt,
};
use vstd::prelude::*;

verus! {

/// A name that resolves in scopes of known types resolves to a known type.
pub proof fn lemma_lookup_known(scopes: Seq<Bindings>, name: Seq<char>)
    requires
        scopes_known(scopes),
    ensures
        lookup(scopes, name) matches Some(symbol) ==> known(symbol.ty),
    decreases scopes.len(),
{
    if scopes.len() > 0 {
        if scopes.last().contains_key(name) {
            assert(scopes[scopes.len() - 1].contains_key(name));
        } else {
            let rest = scopes.drop_last();
            assert forall|i: int, n: Seq<char>|
                0 <= i < rest.len() && #[trigger] rest[i].contains_key(n) implies known(
                rest[i][n].ty,
            ) by {
                assert(scopes[i].contains_key(n));
            }
            lemma_lookup_known(rest, name);
        }
    }
}

/// An empty scope keeps the types known.
pub proof fn lemma_enter_known(scopes: Seq<Bindings>)
    requires
        scopes_known(scopes),
    ensures
        scopes_known(scopes.push(Map::empty())),
{
    let inner = scopes.push(Map::<Seq<char>, SymbolView>::empty());
    assert forall|i: int, n: Seq<char>|
        0 <= i < inner.len() && #[trigger] inner[i].contains_key(n) implies known(inner[i][n].ty) by {
        if i < scopes.len() {
            assert(scopes[i].contains_key(n));
        }
    }
}

/// A binding of a known type keeps the types known.
pub proof fn lemma_binding_known(scopes: Seq<Bindings>, symbol: SymbolView)
    requires
        scopes.len() > 0,
        scopes_known(scopes),
        known(symbol.ty),
    ensures
        scopes_known(with_binding(scopes, symbol)),
{
    let after = with_binding(scopes, symbol);
    assert forall|i: int, n: Seq<char>|
        0 <= i < after.len() && #[trigger] after[i].contains_key(n) implies known(after[i][n].ty) by {
        if i < scopes.len() - 1 {
            assert(scopes[i].contains_key(n));
        } else if n != symbol.name {
            assert(scopes[i].contains_key(n));
        }
    }
}

/// Nothing is reported of the arguments exactly where each is compatible
/// with its parameter.
pub proof fn lemma_argument_reports(
    params: Seq<ParameterView>,
    types: Seq<TypeView>,
    positions: Seq<SourcePosition>,
    count: nat,
)
    ensures
        argument_reports(params, types, positions, count).len() == 0 <==> forall|i: int|
            0 <= i < count ==> compatible((#[trigger] params[i]).ty, types[i]),
    decreases count,
{
    if count > 0 {
        lemma_argument_reports(params, types, positions, (count - 1) as nat);
        let front = argument_reports(params, types, positions, (count - 1) as nat);
        if compatible(params[count - 1].ty, types[count - 1]) {
            assert(argument_reports(params, types, positions, count) =~= front);
        } else {
            assert(argument_reports(params, types, positions, count).len() == front.len() + 1);
        }
    }
}

/// The analyzer and the rules agree on an expression: where the rules give
/// it a type, the analyzer computes that type, which is a known one, and
/// reports nothing; where they give it none, the analyzer reports
/// something.
pub open spec fn expr_agrees(ctx: ContextView, e: ExprView) -> bool {
    match type_of(ctx, e) {
        Some(t) => {
            &&& check_expr(ctx, e).ty == t
            &&& check_expr(ctx, e).diagnostics == nothing()
            &&& known(t)
        },
        None => check_expr(ctx, e).diagnostics.len() > 0,
    }
}

/// The analyzer and the rules agree on a list of expressions.
pub open spec fn exprs_agree(ctx: ContextView, items: Seq<ExprView>) -> bool {
    match types_of(ctx, items) {
        Some(types) => {
            &&& check_exprs(ctx, items).types == types
            &&& check_exprs(ctx, items).diagnostics == nothing()
            &&& forall|i: int| 0 <= i < types.len() ==> known(#[trigger] types[i])
        },
        None => check_exprs(ctx, items).diagnostics.len() > 0,
    }
}

proof fn lemma_array_case(ctx: ContextView, e: ExprView)
    requires
        context_known(ctx),
        e is Array,
        exprs_agree(ctx, e->elements),
    ensures
        expr_agrees(ctx, e),
{
    let items = check_exprs(ctx, e->elements);
    let whole = array_literal(items.types, position_of(e));
    assert(check_expr(ctx, e).diagnostics =~= items.diagnostics + whole.diagnostics);
    match types_of(ctx, e->elements) {
        Some(types) => {
            assert(!types.contains(TypeView::Unknown)) by {
                if types.contains(TypeView::Unknown) {
                    let k = choose|k: int| 0 <= k < types.len() && types[k] == TypeView::Unknown;
                    assert(known(types[k]));
                }
            }
            match element_type(types) {
                Some(t) => {
                    assert(t == types[0]);
                    assert(known(types[0]));
                    assert(check_expr(ctx, e).diagnostics =~= nothing());
                },
                None => {},
            }
        },
        None => {},
    }
}

proof fn lemma_index_case(ctx: ContextView, e: ExprView)
    requires
        context_known(ctx),
        e is Index,
        expr_agrees(ctx, *e->base),
        expr_agrees(ctx, *e->index),
    ensures
        expr_agrees(ctx, e),
{
    let b = check_expr(ctx, *e->base);
    let i = check_expr(ctx, *e->index);
    assert(check_expr(ctx, e).diagnostics =~= b.diagnostics + i.diagnostics + array_report(
        b.ty,
        position_of(*e->base),
    ) + index_report(i.ty, position_of(*e->index)));
    if type_of(ctx, e) is Some {
        assert(check_expr(ctx, e).diagnostics =~= nothing());
    }
}

proof fn lemma_binary_case(ctx: ContextView, e: ExprView)
    requires
        context_known(ctx),
        e is Binary,
        expr_agrees(ctx, *e->left),
        expr_agrees(ctx, *e->right),
    ensures
        expr_agrees(ctx, e),
{
    let l = check_expr(ctx, *e->left);
    let r = check_expr(ctx, *e->right);
    assert(check_expr(ctx, e).diagnostics =~= l.diagnostics + r.diagnostics + binary_report(
        e->op,
        l.ty,
        r.ty,
        position_of(e),
    ));
    if type_of(ctx, e) is Some {
        assert(check_expr(ctx, e).diagnostics =~= nothing());
    }
}

proof fn lemma_not_case(ctx: ContextView, e: ExprView)
    requires
        context_known(ctx),
        e is Not,
        expr_agrees(ctx, *e->operand),
    ensures
        expr_agrees(ctx, e),
{
    let o = check_expr(ctx, *e->operand);
    assert(check_expr(ctx, e).diagnostics =~= o.diagnostics + not_report(o.ty, position_of(e)));
    if type_of(ctx, e) is Some {
        assert(check_expr(ctx, e).diagnostics =~= nothing());
    }
}

proof fn lemma_call_case(ctx: ContextView, e: ExprView)
    requires
        context_known(ctx),
        e is Call,
        exprs_agree(ctx, e->arguments),
    ensures
        expr_agrees(ctx, e),
{
    let args = check_exprs(ctx, e->arguments);
    let places = positions_of(e->arguments);
    let own = call_report(ctx.functions, e->callee, args.types, places, position_of(e));
    assert(check_expr(ctx, e).diagnostics =~= args.diagnostics + own);
    match types_of(ctx, e->arguments) {
        Some(types) => {
            if ctx.functions.contains_key(e->callee) {
                let params = ctx.functions[e->callee].params;
                let count = lesser(params.len(), types.len());
                lemma_argument_reports(params, types, places, count);
                let reports = argument_reports(params, types, places, count);
                if params.len() == types.len() {
                    assert(own =~= reports);
                    if type_of(ctx, e) is Some {
                        assert(forall|i: int|
                            0 <= i < count ==> compatible((#[trigger] params[i]).ty, types[i]));
                        assert(check_expr(ctx, e).diagnostics =~= nothing());
                    } else {
                        let k = choose|k: int|
                            0 <= k < params.len() && (#[trigger] params[k]).ty != types[k];
                        assert(known(params[k].ty));
                        assert(known(types[k]));
                        assert(!compatible(params[k].ty, types[k]));
                    }
                } else {
                    assert(own.len() == 1 + reports.len());
                }
            }
        },
        None => {},
    }
}

/// On every expression, in a context of known types, the analyzer and the
/// rules agree.
pub proof fn lemma_expr(ctx: ContextView, e: ExprView)
    requires
        context_known(ctx),
    ensures
        expr_agrees(ctx, e),
    decreases e,
{
    match e {
        ExprView::Literal { .. } => {},
        ExprView::Identifier { name, .. } => {
            lemma_lookup_known(ctx.scopes, name);
        },
        ExprView::Array { elements, .. } => {
            lemma_exprs(ctx, elements);
            lemma_array_case(ctx, e);
        },
        ExprView::Index { base, index, .. } => {
            lemma_expr(ctx, *base);
            lemma_expr(ctx, *index);
            lemma_index_case(ctx, e);
        },
        ExprView::Binary { left, right, .. } => {
            lemma_expr(ctx, *left);
            lemma_expr(ctx, *right);
            lemma_binary_case(ctx, e);
        },
        ExprView::Not { operand, .. } => {
            lemma_expr(ctx, *operand);
            lemma_not_case(ctx, e);
        },
        ExprView::Call { arguments, .. } => {
            lemma_exprs(ctx, arguments);
            lemma_call_case(ctx, e);
        },
    }
}

/// On every list of expressions, in a context of known types, the analyzer
/// and the rules agree.
pub proof fn lemma_exprs(ctx: ContextView, items: Seq<ExprView>)
    requires
        context_known(ctx),
    ensures
        exprs_agree(ctx, items),
    decreases items,
{
    if items.len() == 0 {
        assert(check_exprs(ctx, items).types =~= Seq::<TypeView>::empty());
    } else {
        lemma_exprs(ctx, items.drop_last());
        lemma_expr(ctx, items.last());
        let front = check_exprs(ctx, items.drop_last());
        let last = check_expr(ctx, items.last());
        assert(check_exprs(ctx, items).diagnostics =~= front.diagnostics + last.diagnostics);
        if types_of(ctx, items) is Some {
            assert(check_exprs(ctx, items).diagnostics =~= nothing());
        }
    }
}

/// The analyzer and the rules agree on what a loop runs over.
pub open spec fn iterable_agrees(ctx: ContextView, iterable: IterableView) -> bool {
    match loop_variable_type(ctx, iterable) {
        Some(t) => {
            &&& check_iterable(ctx, iterable).ty == t
            &&& check_iterable(ctx, iterable).diagnostics == nothing()
            &&& known(t)
        },
        None => check_iterable(ctx, iterable).diagnostics.len() > 0,
    }
}

/// On everything a loop can run over, in a context of known types, the
/// analyzer and the rules agree.
pub proof fn lemma_iterable(ctx: ContextView, iterable: IterableView)
    requires
        context_known(ctx),
    ensures
        iterable_agrees(ctx, iterable),
{
    match iterable {
        IterableView::Range { start, end } => {
            lemma_expr(ctx, start);
            lemma_expr(ctx, end);
            if loop_variable_type(ctx, iterable) is Some {
                assert(check_iterable(ctx, iterable).diagnostics =~= nothing());
            }
        },
        IterableView::Elements(array) => {
            lemma_expr(ctx, array);
            if loop_variable_type(ctx, iterable) is Some {
                assert(check_iterable(ctx, iterable).diagnostics =~= nothing());
            }
        },
    }
}

/// Some parameter has the name.
pub open spec fn named(params: Seq<ParameterView>, name: Seq<char>) -> bool {
    exists|i: int| 0 <= i < params.len() && (#[trigger] params[i]).name == name
}

/// No parameter has a name that the scope binds.
pub open spec fn names_free(current: Bindings, params: Seq<ParameterView>) -> bool {
    forall|i: int| 0 <= i < params.len() ==> !current.contains_key((#[trigger] params[i]).name)
}

/// After the parameters were bound, the current scope binds what it bound
/// before and the names of the parameters; and nothing was reported
/// exactly where the names differ from each other and from what was bound
/// before.
pub proof fn lemma_bind_names(scopes: Seq<Bindings>, params: Seq<ParameterView>)
    requires
        scopes.len() > 0,
    ensures
        forall|n: Seq<char>| #[trigger]
            bind_parameters(scopes, params).scopes.last().contains_key(n) <==> (
            scopes.last().contains_key(n) || named(params, n)),
        bind_parameters(scopes, params).diagnostics.len() == 0 <==> (distinct_names(params)
            && names_free(scopes.last(), params)),
    decreases params.len(),
{
    let done = bind_parameters(scopes, params);
    if params.len() == 0 {
        assert forall|n: Seq<char>| #[trigger]
            done.scopes.last().contains_key(n) <==> (scopes.last().contains_key(n) || named(
                params,
                n,
            )) by {}
    } else {
        let front = params.drop_last();
        let p = params.last();
        let before = bind_parameters(scopes, front);
        lemma_bind_names(scopes, front);
        crate::rules::lemma_parameters_keep_outer_scopes(scopes, front);
        assert forall|n: Seq<char>| #[trigger]
            done.scopes.last().contains_key(n) <==> (scopes.last().contains_key(n) || named(
                params,
                n,
            )) by {
            if named(front, n) {
                let i = choose|i: int| 0 <= i < front.len() && (#[trigger] front[i]).name == n;
                assert(params[i].name == n);
            }
            if named(params, n) {
                let i = choose|i: int| 0 <= i < params.len() && (#[trigger] params[i]).name == n;
                if i < front.len() {
                    assert(front[i].name == n);
                }
            }
            if n == p.name {
                assert(params[params.len() - 1].name == n);
            }
        }
        let clean_front = distinct_names(front) && names_free(scopes.last(), front);
        let clean = distinct_names(params) && names_free(scopes.last(), params);
        if clean {
            assert forall|i: int, j: int| 0 <= i < j < front.len() implies (#[trigger] front[i]).name
                != (#[trigger] front[j]).name by {
                assert(params[i].name != params[j].name);
            }
            assert forall|i: int| 0 <= i < front.len() implies !scopes.last().contains_key(
                (#[trigger] front[i]).name,
            ) by {
                assert(!scopes.last().contains_key(params[i].name));
            }
            assert(!scopes.last().contains_key(params[params.len() - 1].name));
            if named(front, p.name) {
                let i = choose|i: int| 0 <= i < front.len() && (#[trigger] front[i]).name == p.name;
                assert(params[i].name != params[params.len() - 1].name);
            }
            assert(!before.scopes.last().contains_key(p.name));
            assert(done.diagnostics =~= before.diagnostics);
        }
        if done.diagnostics.len() == 0 {
            assert(before.diagnostics.len() == 0);
            assert(!before.scopes.last().contains_key(p.name));
            assert(!named(front, p.name));
            assert forall|i: int, j: int| 0 <= i < j < params.len() implies (
            #[trigger] params[i]).name != (#[trigger] params[j]).name by {
                if j < front.len() {
                    assert(front[i].name != front[j].name);
                } else {
                    assert(front[i].name == params[i].name);
                }
            }
            assert forall|i: int| 0 <= i < params.len() implies !scopes.last().contains_key(
                (#[trigger] params[i]).name,
            ) by {
                if i < front.len() {
                    assert(!scopes.last().contains_key(front[i].name));
                }
            }
        }
    }
}

/// Parameters of known types keep the types known.
pub proof fn lemma_parameters_known(scopes: Seq<Bindings>, params: Seq<ParameterView>)
    requires
        scopes.len() > 0,
        scopes_known(scopes),
        forall|i: int| 0 <= i < params.len() ==> known((#[trigger] params[i]).ty),
    ensures
        scopes_known(bind_parameters(scopes, params).scopes),
        bind_parameters(scopes, params).scopes.len() == scopes.len(),
    decreases params.len(),
{
    if params.len() > 0 {
        let front = params.drop_last();
        let p = params.last();
        assert forall|i: int| 0 <= i < front.len() implies known((#[trigger] front[i]).ty) by {
            assert(known(params[i].ty));
        }
        lemma_parameters_known(scopes, front);
        assert(known(params[params.len() - 1].ty));
        let before = bind_parameters(scopes, front);
        if !before.scopes.last().contains_key(p.name) {
            lemma_binding_known(
                before.scopes,
                SymbolView { name: p.name, ty: p.ty, mutable: false, declared_at: p.at },
            );
        }
    }
}

/// The analyzer and the rules agree on a statement: where the rules accept
/// it, the analyzer leaves the scopes that the rules give, all of known
/// types, and reports nothing; where they do not, the analyzer reports
/// something.
pub open spec fn stmt_agrees(ctx: ContextView, s: StmtView) -> bool {
    match accept_stmt(ctx, s) {
        Some(scopes) => {
            &&& check_stmt(ctx, s).scopes == scopes
            &&& check_stmt(ctx, s).diagnostics == nothing()
            &&& scopes_known(scopes)
            &&& scopes.len() == ctx.scopes.len()
        },
        None => check_stmt(ctx, s).diagnostics.len() > 0,
    }
}

/// The analyzer and the rules agree on a list of statements.
pub open spec fn block_agrees(ctx: ContextView, statements: Seq<StmtView>) -> bool {
    match accept_block(ctx, statements) {
        Some(scopes) => {
            &&& check_block(ctx, statements).scopes == scopes
            &&& check_block(ctx, statements).diagnostics == nothing()
            &&& scopes_known(scopes)
            &&& scopes.len() == ctx.scopes.len()
        },
        None => check_block(ctx, statements).diagnostics.len() > 0,
    }
}

proof fn lemma_let_case(ctx: ContextView, s: StmtView)
    requires
        context_known(ctx),
        well_formed_stmt(s),
        s matches StmtView::Let { value, .. } && expr_agrees(ctx, value),
    ensures
        stmt_agrees(ctx, s),
{
    match s {
        StmtView::Let { name, mutable, annotation, value, at } => {
            let v = check_expr(ctx, value);
            assert(check_stmt(ctx, s).diagnostics =~= v.diagnostics
                + crate::rules::annotation_report(annotation, v.ty, position_of(value))
                + redeclaration_report(ctx.scopes.last(), name, at));
            match accept_stmt(ctx, s) {
                Some(scopes) => {
                    let t = type_of(ctx, value)->Some_0;
                    lemma_binding_known(
                        ctx.scopes,
                        SymbolView { name, ty: t, mutable, declared_at: at },
                    );
                    assert(check_stmt(ctx, s).diagnostics =~= nothing());
                },
                None => {},
            }
        },
        _ => {},
    }
}

proof fn lemma_assign_case(ctx: ContextView, s: StmtView)
    requires
        context_known(ctx),
        s matches StmtView::Assign { value, .. } && expr_agrees(ctx, value),
    ensures
        stmt_agrees(ctx, s),
{
    match s {
        StmtView::Assign { name, op, value, at } => {
            let target = lookup(ctx.scopes, name);
            let v = check_expr(ctx, value);
            lemma_lookup_known(ctx.scopes, name);
            assert(check_stmt(ctx, s).diagnostics =~= crate::rules::target_report(target, name, at)
                + v.diagnostics + crate::rules::assignment_report(
                crate::rules::target_type(target),
                op,
                v.ty,
                position_of(value),
            ));
            if accept_stmt(ctx, s) is Some {
                assert(check_stmt(ctx, s).diagnostics =~= nothing());
            }
        },
        _ => {},
    }
}

proof fn lemma_if_case(ctx: ContextView, s: StmtView)
    requires
        context_known(ctx),
        s matches StmtView::If { condition, then_branch, else_branch, .. } && expr_agrees(
            ctx,
            condition,
        ) && block_agrees(enter(ctx), then_branch) && (else_branch matches Some(other)
            ==> block_agrees(enter(ctx), other)),
    ensures
        stmt_agrees(ctx, s),
{
    match s {
        StmtView::If { condition, then_branch, else_branch, at } => {
            let c = check_expr(ctx, condition);
            let first = check_block(enter(ctx), then_branch).diagnostics;
            let second = match else_branch {
                Some(other) => check_block(enter(ctx), other).diagnostics,
                None => nothing(),
            };
            assert(check_stmt(ctx, s).diagnostics =~= c.diagnostics + crate::rules::condition_report(
                c.ty,
                position_of(condition),
            ) + first + second);
            if accept_stmt(ctx, s) is Some {
                assert(check_stmt(ctx, s).diagnostics =~= nothing());
            }
        },
        _ => {},
    }
}

proof fn lemma_for_case(ctx: ContextView, s: StmtView)
    requires
        context_known(ctx),
        s matches StmtView::For { variable, iterable, body, at } && iterable_agrees(ctx, iterable)
            && (loop_variable_type(ctx, iterable) matches Some(t) ==> block_agrees(
            inside_loop(ctx, variable, t, at),
            body,
        )),
    ensures
        stmt_agrees(ctx, s),
{
    match s {
        StmtView::For { variable, iterable, body, at } => {
            let it = check_iterable(ctx, iterable);
            let inner = check_block(inside_loop(ctx, variable, it.ty, at), body).diagnostics;
            assert(check_stmt(ctx, s).diagnostics =~= it.diagnostics + inner);
            if accept_stmt(ctx, s) is Some {
                assert(check_stmt(ctx, s).diagnostics =~= nothing());
            }
        },
        _ => {},
    }
}

proof fn lemma_return_case(ctx: ContextView, s: StmtView)
    requires
        context_known(ctx),
        s matches StmtView::Return { result, .. } && (result matches Some(e) ==> expr_agrees(
            ctx,
            e,
        )),
    ensures
        stmt_agrees(ctx, s),
{
    match s {
        StmtView::Return { result, at } => {
            let v = match result {
                Some(e) => check_expr(ctx, e),
                None => crate::rules::Typed { ty: TypeView::Unit, diagnostics: nothing() },
            };
            assert(check_stmt(ctx, s).diagnostics =~= v.diagnostics + crate::rules::return_report(
                ctx.return_type,
                v.ty,
                at,
            ));
            if accept_stmt(ctx, s) is Some {
                assert(check_stmt(ctx, s).diagnostics =~= nothing());
            }
        },
        _ => {},
    }
}

proof fn lemma_function_case(ctx: ContextView, s: StmtView)
    requires
        context_known(ctx),
        s matches StmtView::Function { params, return_type, body, .. } && block_agrees(
            function_body_context(ctx, params, return_type),
            body,
        ),
    ensures
        stmt_agrees(ctx, s),
{
    match s {
        StmtView::Function { name, params, return_type, body, at } => {
            let fresh = inside_function(ctx, return_type);
            let bound = bind_parameters(fresh.scopes, params);
            lemma_bind_names(fresh.scopes, params);
            assert(names_free(fresh.scopes.last(), params));
            let inner = check_block(with_scopes(fresh, bound.scopes), body).diagnostics;
            assert(check_stmt(ctx, s).diagnostics =~= crate::rules::function_report(
                ctx.functions,
                name,
                at,
            ) + bound.diagnostics + inner + crate::rules::missing_return_report(
                name,
                return_type,
                body,
                at,
            ));
            if accept_stmt(ctx, s) is Some {
                assert(bound.diagnostics =~= nothing());
                assert(check_stmt(ctx, s).diagnostics =~= nothing());
            }
        },
        _ => {},
    }
}

/// On every statement that writes down known types only, in a context of
/// known types, the analyzer and the rules agree.
pub proof fn lemma_stmt(ctx: ContextView, s: StmtView)
    requires
        context_known(ctx),
        well_formed_stmt(s),
    ensures
        stmt_agrees(ctx, s),
    decreases s,
{
    match s {
        StmtView::Let { value, .. } => {
            lemma_expr(ctx, value);
            lemma_let_case(ctx, s);
        },
        StmtView::Assign { value, .. } => {
            lemma_expr(ctx, value);
            lemma_assign_case(ctx, s);
        },
        StmtView::If { condition, then_branch, else_branch, .. } => {
            lemma_expr(ctx, condition);
            lemma_enter_known(ctx.scopes);
            lemma_block(enter(ctx), then_branch);
            match else_branch {
                Some(other) => {
                    lemma_block(enter(ctx), other);
                },
                None => {},
            }
            lemma_if_case(ctx, s);
        },
        StmtView::For { variable, iterable, body, at } => {
            lemma_iterable(ctx, iterable);
            match loop_variable_type(ctx, iterable) {
                Some(t) => {
                    lemma_enter_known(ctx.scopes);
                    lemma_binding_known(
                        ctx.scopes.push(Map::empty()),
                        SymbolView { name: variable, ty: t, mutable: false, declared_at: at },
                    );
                    lemma_block(inside_loop(ctx, variable, t, at), body);
                },
                None => {},
            }
            lemma_for_case(ctx, s);
        },
        StmtView::Break { .. } => {},
        StmtView::Return { result, .. } => {
            match result {
                Some(e) => {
                    lemma_expr(ctx, e);
                },
                None => {},
            }
            lemma_return_case(ctx, s);
        },
        StmtView::Function { params, return_type, body, .. } => {
            let fresh = inside_function(ctx, return_type);
            lemma_enter_known(ctx.scopes);
            lemma_parameters_known(fresh.scopes, params);
            lemma_block(function_body_context(ctx, params, return_type), body);
            lemma_function_case(ctx, s);
        },
        StmtView::Block { body, .. } => {
            lemma_enter_known(ctx.scopes);
            lemma_block(enter(ctx), body);
        },
        StmtView::Print { arguments, .. } => {
            lemma_exprs(ctx, arguments);
        },
        StmtView::Expression { value } => {
            lemma_expr(ctx, value);
        },
    }
}

/// On every list of statements that write down known types only, in a
/// context of known types, the analyzer and the rules agree.
pub proof fn lemma_block(ctx: ContextView, statements: Seq<StmtView>)
    requires
        context_known(ctx),
        well_formed_block(statements),
    ensures
        block_agrees(ctx, statements),
    decreases statements,
{
    if statements.len() > 0 {
        let front = statements.drop_last();
        lemma_block(ctx, front);
        let before = check_block(ctx, front);
        let last = check_stmt(with_scopes(ctx, before.scopes), statements.last());
        assert(check_block(ctx, statements).diagnostics =~= before.diagnostics + last.diagnostics);
        match accept_block(ctx, front) {
            Some(scopes) => {
                lemma_stmt(with_scopes(ctx, scopes), statements.last());
                if accept_block(ctx, statements) is Some {
                    assert(check_block(ctx, statements).diagnostics =~= nothing());
                }
            },
            None => {},
        }
    }
}

/// The functions declared in a statement that writes down known types
/// only have signatures of known types.
pub proof fn lemma_collect_stmt_known(functions: Signatures, s: StmtView)
    requires
        signatures_known(functions),
        well_formed_stmt(s),
    ensures
        signatures_known(collect_stmt(functions, s)),
    decreases s,
{
    match s {
        StmtView::Function { name, params, return_type, body, at } => {
            let added = if functions.contains_key(name) {
                functions
            } else {
                functions.insert(name, crate::rules::signature_of(name, params, return_type, at))
            };
            assert forall|n: Seq<char>| #[trigger] added.contains_key(n) implies {
                &&& known(added[n].return_type)
                &&& forall|i: int|
                    0 <= i < added[n].params.len() ==> known((#[trigger] added[n].params[i]).ty)
            } by {
                if functions.contains_key(n) {
                } else {
                    assert(n == name);
                }
            }
            lemma_collect_block_known(added, body);
        },
        StmtView::If { then_branch, else_branch, .. } => {
            lemma_collect_block_known(functions, then_branch);
            match else_branch {
                Some(other) => {
                    lemma_collect_block_known(collect_block(functions, then_branch), other);
                },
                None => {},
            }
        },
        StmtView::For { body, .. } => {
            lemma_collect_block_known(functions, body);
        },
        StmtView::Block { body, .. } => {
            lemma_collect_block_known(functions, body);
        },
        _ => {},
    }
}

/// The functions declared in statements that write down known types only
/// have signatures of known types.
pub proof fn lemma_collect_block_known(functions: Signatures, statements: Seq<StmtView>)
    requires
        signatures_known(functions),
        well_formed_block(statements),
    ensures
        signatures_known(collect_block(functions, statements)),
    decreases statements,
{
    if statements.len() > 0 {
        lemma_collect_block_known(functions, statements.drop_last());
        lemma_collect_stmt_known(
            collect_block(functions, statements.drop_last()),
            statements.last(),
        );
    }
}

/// The context in which a program is checked holds known types only.
pub proof fn lemma_initial_context_known(program: ProgramView)
    requires
        well_formed(program),
    ensures
        context_known(initial_context(program)),
{
    lemma_collect_block_known(Map::empty(), program.statements);
}

/// A program that keeps every rule gets no diagnostic.
pub proof fn law_accepted_programs_are_clean(program: ProgramView)
    requires
        well_formed(program),
        accepted(program),
    ensures
        diagnostics_of(program) == Seq::<DiagnosticView>::empty(),
{
    lemma_initial_context_known(program);
    lemma_block(initial_context(program), program.statements);
}

/// A program that gets no diagnostic keeps every rule: the analyzer lets
/// no violation pass, also not behind an earlier one.
pub proof fn law_clean_programs_are_accepted(program: ProgramView)
    requires
        well_formed(program),
        diagnostics_of(program).len() == 0,
    ensures
        accepted(program),
{
    lemma_initial_context_known(program);
    lemma_block(initial_context(program), program.statements);
}

/// Where the analyzer reports nothing for an expression, the type it
/// computes is a known one: `Unknown` never reaches a result that counts
/// as a success.
pub proof fn law_unknown_is_always_reported(ctx: ContextView, e: ExprView)
    requires
        context_known(ctx),
        check_expr(ctx, e).diagnostics.len() == 0,
    ensures
        known(check_expr(ctx, e).ty),
        type_of(ctx, e) == Some(check_expr(ctx, e).ty),
{
    lemma_expr(ctx, e);
}

/// Two runs on one program give the same diagnostics, in the same order:
/// a result depends on the program alone.
pub proof fn law_analysis_is_repeatable(
    program: ProgramView,
    first: Seq<DiagnosticView>,
    second: Seq<DiagnosticView>,
)
    requires
        first == diagnostics_of(program),
        second == diagnostics_of(program),
    ensures
        first == second,
{
}

/// A declaration in a scope that was just opened is never a duplicate,
/// whatever the enclosing scopes bind: it shadows.
pub proof fn law_shadowing_is_allowed(
    ctx: ContextView,
    name: Seq<char>,
    mutable: bool,
    annotation: Option<TypeView>,
    value: ExprView,
    at: SourcePosition,
)
    ensures
        redeclaration_report(enter(ctx).scopes.last(), name, at) == nothing(),
        check_stmt(enter(ctx), StmtView::Let { name, mutable, annotation, value, at }).scopes.last().contains_key(
            name,
        ),
{
}

/// A declaration of a name that the current scope binds already is
/// reported as a duplicate, and leaves the scopes as they were.
pub proof fn law_redeclaration_is_reported(
    ctx: ContextView,
    name: Seq<char>,
    mutable: bool,
    annotation: Option<TypeView>,
    value: ExprView,
    at: SourcePosition,
)
    requires
        ctx.scopes.len() > 0,
        ctx.scopes.last().contains_key(name),
    ensures
        check_stmt(ctx, StmtView::Let { name, mutable, annotation, value, at }).diagnostics.last()
            == crate::diagnostics::duplicate_declaration(name, at),
        check_stmt(ctx, StmtView::Let { name, mutable, annotation, value, at }).scopes
            == ctx.scopes,
{
}

/// A `break` is reported exactly where no loop encloses it inside its
/// function.
pub proof fn law_break_needs_a_loop(ctx: ContextView, at: SourcePosition)
    ensures
        check_stmt(ctx, StmtView::Break { at }).diagnostics == if ctx.loop_depth == 0 {
            seq![crate::diagnostics::break_outside_loop(at)]
        } else {
            nothing()
        },
{
}

/// The diagnostics of a list of statements are those of its first part,
/// followed by those of the rest taken in the scopes that the first part
/// left: no violation hides or reorders another.
pub proof fn law_blocks_concatenate(
    ctx: ContextView,
    first: Seq<StmtView>,
    rest: Seq<StmtView>,
)
    ensures
        check_block(ctx, first + rest).scopes == check_block(
            with_scopes(ctx, check_block(ctx, first).scopes),
            rest,
        ).scopes,
        check_block(ctx, first + rest).diagnostics == check_block(ctx, first).diagnostics
            + check_block(with_scopes(ctx, check_block(ctx, first).scopes), rest).diagnostics,
    decreases rest.len(),
{
    let middle = with_scopes(ctx, check_block(ctx, first).scopes);
    if rest.len() == 0 {
        assert(first + rest =~= first);
        assert(check_block(ctx, first + rest).diagnostics =~= check_block(ctx, first).diagnostics
            + check_block(middle, rest).diagnostics);
    } else {
        law_blocks_concatenate(ctx, first, rest.drop_last());
        let whole = first + rest;
        assert(whole.drop_last() =~= first + rest.drop_last());
        assert(whole.last() == rest.last());
        let a = check_block(ctx, first + rest.drop_last());
        let b = check_block(middle, rest.drop_last());
        assert(with_scopes(ctx, a.scopes) == with_scopes(middle, b.scopes));
        assert(check_block(ctx, whole).diagnostics =~= check_block(ctx, first).diagnostics
            + check_block(middle, rest).diagnostics);
    }
}

/// A list of one statement is checked as that statement.
pub proof fn lemma_block_of_one(ctx: ContextView, a: StmtView)
    ensures
        check_block(ctx, seq![a]).scopes == check_stmt(ctx, a).scopes,
        check_block(ctx, seq![a]).diagnostics == check_stmt(ctx, a).diagnostics,
{
    let list = seq![a];
    assert(list.drop_last().len() == 0);
    assert(list.last() == a);
    assert(with_scopes(ctx, ctx.scopes) == ctx);
    assert(check_block(ctx, list.drop_last()).scopes == ctx.scopes);
    assert(check_block(ctx, list).diagnostics =~= check_stmt(ctx, a).diagnostics);
}

/// A list of two statements is checked as the first, then the second in
/// the scopes that the first left.
pub proof fn lemma_block_of_two(ctx: ContextView, a: StmtView, b: StmtView)
    ensures
        check_block(ctx, seq![a, b]).scopes == check_stmt(
            with_scopes(ctx, check_stmt(ctx, a).scopes),
            b,
        ).scopes,
        check_block(ctx, seq![a, b]).diagnostics == check_stmt(ctx, a).diagnostics + check_stmt(
            with_scopes(ctx, check_stmt(ctx, a).scopes),
            b,
        ).diagnostics,
{
    let list = seq![a, b];
    assert(list.drop_last() =~= seq![a]);
    assert(list.last() == b);
    lemma_block_of_one(ctx, a);
}

/// A list of one expression is checked as that expression.
pub proof fn lemma_exprs_of_one(ctx: ContextView, a: ExprView)
    ensures
        check_exprs(ctx, seq![a]).types == seq![check_expr(ctx, a).ty],
        check_exprs(ctx, seq![a]).diagnostics == check_expr(ctx, a).diagnostics,
{
    let list = seq![a];
    assert(list.drop_last().len() == 0);
    assert(list.last() == a);
    assert(check_exprs(ctx, list.drop_last()).types =~= Seq::<TypeView>::empty());
    assert(check_exprs(ctx, list.drop_last()).diagnostics =~= nothing());
    assert(check_exprs(ctx, list).types =~= seq![check_expr(ctx, a).ty]);
    assert(check_exprs(ctx, list).diagnostics =~= check_expr(ctx, a).diagnostics);
}

/// A list of two expressions is checked as the first, then the second.
pub proof fn lemma_exprs_of_two(ctx: ContextView, a: ExprView, b: ExprView)
    ensures
        check_exprs(ctx, seq![a, b]).types == seq![check_expr(ctx, a).ty, check_expr(ctx, b).ty],
        check_exprs(ctx, seq![a, b]).diagnostics == check_expr(ctx, a).diagnostics + check_expr(
            ctx,
            b,
        ).diagnostics,
{
    let list = seq![a, b];
    assert(list.drop_last() =~= seq![a]);
    assert(list.last() == b);
    lemma_exprs_of_one(ctx, a);
    assert(check_exprs(ctx, list).types =~= seq![check_expr(ctx, a).ty, check_expr(ctx, b).ty]);
}

/// Statements that write down known types only begin with statements
/// that write down known types only.
pub proof fn lemma_well_formed_prefix(statements: Seq<StmtView>, count: int)
    requires
        0 <= count <= statements.len(),
        well_formed_block(statements),
    ensures
        well_formed_block(statements.take(count)),
    decreases statements.len(),
{
    if count < statements.len() {
        lemma_well_formed_prefix(statements.drop_last(), count);
        assert(statements.drop_last().take(count) =~= statements.take(count));
    } else {
        assert(statements.take(count) =~= statements);
    }
}

/// Compatibility is reflexive and symmetric, and `Unknown` is compatible
/// with every type.
pub proof fn law_compatibility(a: TypeView, b: TypeView)
    ensures
        compatible(a, a),
        compatible(a, b) == compatible(b, a),
        compatible(TypeView::Unknown, a),
        compatible(a, TypeView::Unknown),
{
}

/// Two known types are compatible only where they are one type: nothing
/// is widened, and `Int` and `Float` never stand for each other.
pub proof fn law_no_widening(a: TypeView, b: TypeView)
    requires
        known(a),
        known(b),
    ensures
        compatible(a, b) <==> a == b,
        !compatible(TypeView::Int, TypeView::Float),
        !compatible(TypeView::Float, TypeView::Int),
{
}

/// A name resolves to the binding of the innermost scope that has one:
/// the current scope shadows the scopes around it.
pub proof fn law_innermost_binding_wins(scopes: Seq<Bindings>, current: Bindings, name: Seq<char>)
    ensures
        lookup(scopes.push(current), name) == if current.contains_key(name) {
            Some(current[name])
        } else {
            lookup(scopes, name)
        },
{
    assert(scopes.push(current).drop_last() =~= scopes);
}

/// The first pass forgets no function that was known before it.
pub proof fn lemma_collect_stmt_keeps(functions: Signatures, s: StmtView, name: Seq<char>)
    requires
        functions.contains_key(name),
    ensures
        collect_stmt(functions, s).contains_key(name),
        collect_stmt(functions, s)[name] == functions[name],
    decreases s,
{
    match s {
        StmtView::Function { name: declared, params, return_type, body, at } => {
            let added = if functions.contains_key(declared) {
                functions
            } else {
                functions.insert(
                    declared,
                    crate::rules::signature_of(declared, params, return_type, at),
                )
            };
            lemma_collect_block_keeps(added, body, name);
        },
        StmtView::If { then_branch, else_branch, .. } => {
            lemma_collect_block_keeps(functions, then_branch, name);
            match else_branch {
                Some(other) => {
                    lemma_collect_block_keeps(collect_block(functions, then_branch), other, name);
                },
                None => {},
            }
        },
        StmtView::For { body, .. } => {
            lemma_collect_block_keeps(functions, body, name);
        },
        StmtView::Block { body, .. } => {
            lemma_collect_block_keeps(functions, body, name);
        },
        _ => {},
    }
}

/// The first pass forgets no function that was known before it.
pub proof fn lemma_collect_block_keeps(
    functions: Signatures,
    statements: Seq<StmtView>,
    name: Seq<char>,
)
    requires
        functions.contains_key(name),
    ensures
        collect_block(functions, statements).contains_key(name),
        collect_block(functions, statements)[name] == functions[name],
    decreases statements,
{
    if statements.len() > 0 {
        lemma_collect_block_keeps(functions, statements.drop_last(), name);
        lemma_collect_stmt_keeps(
            collect_block(functions, statements.drop_last()),
            statements.last(),
            name,
        );
    }
}

/// Every function that a list of statements declares is known after the
/// first pass, wherever in the list its declaration stands: a call may
/// come before the declaration, and functions may call each other.
pub proof fn law_every_function_is_registered(
    functions: Signatures,
    statements: Seq<StmtView>,
    i: int,
)
    requires
        0 <= i < statements.len(),
        statements[i] is Function,
    ensures
        statements[i] matches StmtView::Function { name, .. } && collect_block(
            functions,
            statements,
        ).contains_key(name),
    decreases statements.len(),
{
    let before = collect_block(functions, statements.drop_last());
    assert(collect_block(functions, statements) == collect_stmt(before, statements.last()));
    if i == statements.len() - 1 {
        assert(statements[i] == statements.last());
        match statements[i] {
            StmtView::Function { name, params, return_type, body, at } => {
                let added = if before.contains_key(name) {
                    before
                } else {
                    before.insert(name, crate::rules::signature_of(name, params, return_type, at))
                };
                assert(added.contains_key(name));
                lemma_collect_block_keeps(added, body, name);
                assert(collect_stmt(before, statements.last()) == collect_block(added, body));
            },
            _ => {},
        }
    } else {
        assert(statements.drop_last()[i] == statements[i]);
        law_every_function_is_registered(functions, statements.drop_last(), i);
        match statements[i] {
            StmtView::Function { name, .. } => {
                lemma_collect_stmt_keeps(before, statements.last(), name);
            },
            _ => {},
        }
    }
}

} // verus!

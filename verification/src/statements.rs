//! The statement checker.

use crate::ast::{
    lemma_stmt_views, option_expr_view, parameter_views, position_of, stmt_views, Arithmetic,
    Expr, Iterable, Parameter, Stmt, StmtView,
};
use crate::context::{accepts_arithmetic, option_type_view, type_of_element, AnalysisContext};
use crate::diagnostics::Diagnostic;
use crate::position::SourcePosition;
use crate::rules::{
    bind_parameters, bound_report, break_report, check_block, check_expr, check_iterable,
    check_stmt, condition_report, ends_in_return, enter, function_report, inside_function,
    inside_loop, lemma_block_keeps_outer_scopes, lemma_parameters_keep_outer_scopes,
    missing_return_report, stmt_returns, with_scopes, ContextView,
};
use crate::types::{types_compatible, Type, TypeView};
use vstd::prelude::*;

verus! {

/// The model of a declaration.
pub open spec fn let_view(
    name: Seq<char>,
    mutable: bool,
    annotation: Option<TypeView>,
    value: crate::ast::ExprView,
    at: SourcePosition,
) -> StmtView {
    StmtView::Let { name, mutable, annotation, value, at }
}

/// Whether every path through the statements ends in a `return`.
pub fn returns_on_every_path(statements: &Vec<Stmt>) -> (yes: bool)
    ensures
        yes == ends_in_return(stmt_views(statements@)),
    decreases statements,
{
    proof {
        lemma_stmt_views(statements@);
    }
    if statements.len() == 0 {
        false
    } else {
        statement_returns(&statements[statements.len() - 1])
    }
}

/// Whether every path through the statement ends in a `return`.
pub fn statement_returns(s: &Stmt) -> (yes: bool)
    ensures
        yes == stmt_returns(s@),
    decreases s,
{
    match s {
        Stmt::Return { .. } => true,
        Stmt::Block { body, .. } => returns_on_every_path(body),
        Stmt::If { then_branch, else_branch, .. } => match else_branch {
            Some(other) => returns_on_every_path(then_branch) && returns_on_every_path(other),
            None => false,
        },
        _ => false,
    }
}

impl AnalysisContext {
    /// Reports what is owed for the type of a bound of a range.
    fn report_bound(&mut self, bound: &Type, at: SourcePosition)
        ensures
            final(self).scopes == old(self).scopes,
            final(self).return_type == old(self).return_type,
            final(self).loop_depth == old(self).loop_depth,
            final(self).reported() == old(self).reported() + bound_report(bound@, at),
    {
        if !types_compatible(&Type::Int, bound) {
            self.diagnostics.report(Diagnostic::type_mismatch(&Type::Int, bound, at));
        }
        assert(self.reported() =~= old(self).reported() + bound_report(bound@, at));
    }

    /// The type of the variable of a loop over `iterable`; reports what is
    /// owed for the iterable.
    pub fn check_iterable(&mut self, iterable: &Iterable) -> (ty: Type)
        requires
            old(self).wf(),
        ensures
            final(self).scopes == old(self).scopes,
            final(self).return_type == old(self).return_type,
            final(self).loop_depth == old(self).loop_depth,
            final(self).reported() == old(self).reported() + check_iterable(
                old(self).context(),
                iterable@,
            ).diagnostics,
            ty@ == check_iterable(old(self).context(), iterable@).ty,
    {
        let ghost ctx = self.context();
        let ghost before = self.reported();
        match iterable {
            Iterable::Range { start, end } => {
                let s = self.check_expression(start);
                self.report_bound(&s, start.position());
                let e = self.check_expression(end);
                self.report_bound(&e, end.position());
                assert(self.reported() =~= before + check_iterable(ctx, iterable@).diagnostics);
                Type::Int
            },
            Iterable::Elements(array) => {
                let a = self.check_expression(array);
                self.report_array(&a, array.position());
                assert(self.reported() =~= before + check_iterable(ctx, iterable@).diagnostics);
                type_of_element(&a)
            },
        }
    }

    /// Binds the parameters of a function in the current scope, in order,
    /// and reports each name that is bound already.
    fn bind_parameters(&mut self, params: &Vec<Parameter>)
        requires
            old(self).wf(),
        ensures
            final(self).wf(),
            final(self).return_type == old(self).return_type,
            final(self).loop_depth == old(self).loop_depth,
            final(self).context() == with_scopes(
                old(self).context(),
                bind_parameters(old(self).context().scopes, parameter_views(params@)).scopes,
            ),
            final(self).reported() == old(self).reported() + bind_parameters(
                old(self).context().scopes,
                parameter_views(params@),
            ).diagnostics,
    {
        let ghost ctx = self.context();
        let ghost before = self.reported();
        let ghost views = parameter_views(params@);
        let mut i: usize = 0;
        proof {
            assert(self.reported() =~= before + bind_parameters(
                ctx.scopes,
                views.take(0),
            ).diagnostics);
        }
        while i < params.len()
            invariant
                i <= params.len(),
                views == parameter_views(params@),
                old(self).wf(),
                ctx == old(self).context(),
                self.wf(),
                self.return_type == old(self).return_type,
                self.loop_depth == old(self).loop_depth,
                self.context() == with_scopes(
                    ctx,
                    bind_parameters(ctx.scopes, views.take(i as int)).scopes,
                ),
                self.reported() == before + bind_parameters(
                    ctx.scopes,
                    views.take(i as int),
                ).diagnostics,
            decreases params.len() - i,
        {
            let p = &params[i];
            proof {
                lemma_parameters_keep_outer_scopes(ctx.scopes, views.take(i as int));
                let next = views.take(i + 1);
                assert(next.drop_last() =~= views.take(i as int));
                assert(next.last() == p@);
            }
            match self.scopes.declare(p.name.clone(), p.ty.clone(), false, p.at) {
                Ok(_) => {},
                Err(_) => {
                    self.diagnostics.report(Diagnostic::duplicate_declaration(&p.name, p.at));
                },
            }
            proof {
                let next = views.take(i + 1);
                assert(self.reported() =~= before + bind_parameters(ctx.scopes, next).diagnostics);
                lemma_parameters_keep_outer_scopes(ctx.scopes, next);
            }
            i += 1;
        }
        assert(views.take(params.len() as int) =~= views);
    }

    /// Checks a list of statements in a scope of its own.
    fn check_scoped(&mut self, statements: &Vec<Stmt>)
        requires
            old(self).wf(),
        ensures
            final(self).wf(),
            final(self).context() == old(self).context(),
            final(self).reported() == old(self).reported() + check_block(
                enter(old(self).context()),
                stmt_views(statements@),
            ).diagnostics,
        decreases statements, 1nat,
    {
        let ghost ctx = self.context();
        self.scopes.enter_scope();
        proof {
            lemma_block_keeps_outer_scopes(enter(ctx), stmt_views(statements@));
        }
        self.check_block(statements);
        self.scopes.exit_scope();
        proof {
            assert(self.context().scopes =~= ctx.scopes);
        }
    }

    /// Checks a declaration: its value, the agreement of the value with the
    /// annotation, and the name, which is bound in the current scope unless
    /// that scope binds it already.
    pub fn check_let(
        &mut self,
        name: &String,
        mutable: bool,
        annotation: &Option<Type>,
        value: &Expr,
        at: SourcePosition,
    )
        requires
            old(self).wf(),
        ensures
            final(self).wf(),
            final(self).context() == with_scopes(
                old(self).context(),
                check_stmt(
                    old(self).context(),
                    let_view(name@, mutable, option_type_view(*annotation), value@, at),
                ).scopes,
            ),
            final(self).reported() == old(self).reported() + check_stmt(
                old(self).context(),
                let_view(name@, mutable, option_type_view(*annotation), value@, at),
            ).diagnostics,
    {
        let ghost ctx = self.context();
        let ghost before = self.reported();
        let ghost s = let_view(name@, mutable, option_type_view(*annotation), value@, at);
        let ty = self.check_expression(value);
        let declared = match annotation {
            Some(t) => {
                if !types_compatible(t, &ty) {
                    self.diagnostics.report(Diagnostic::type_mismatch(t, &ty, value.position()));
                }
                t.clone()
            },
            None => ty,
        };
        match self.scopes.declare(name.clone(), declared, mutable, at) {
            Ok(_) => {},
            Err(_) => {
                self.diagnostics.report(Diagnostic::duplicate_declaration(name, at));
            },
        }
        assert(self.reported() =~= before + check_stmt(ctx, s).diagnostics);
    }

    /// Checks an assignment: the target, the value, and their agreement.
    pub fn check_assign(
        &mut self,
        name: &String,
        op: Option<Arithmetic>,
        value: &Expr,
        at: SourcePosition,
    )
        requires
            old(self).wf(),
        ensures
            final(self).scopes == old(self).scopes,
            final(self).return_type == old(self).return_type,
            final(self).loop_depth == old(self).loop_depth,
            final(self).reported() == old(self).reported() + check_stmt(
                old(self).context(),
                (StmtView::Assign { name: name@, op, value: value@, at }),
            ).diagnostics,
    {
        let ghost ctx = self.context();
        let ghost before = self.reported();
        let ghost s = StmtView::Assign { name: name@, op, value: value@, at };
        let target = match self.scopes.lookup(name) {
            Some(symbol) => Some((symbol.ty.clone(), symbol.mutable)),
            None => None,
        };
        let target_type = match target {
            None => {
                self.diagnostics.report(Diagnostic::undeclared_variable(name, at));
                Type::Unknown
            },
            Some((ty, mutable)) => {
                if !mutable {
                    self.diagnostics.report(Diagnostic::assign_to_immutable(name, at));
                }
                ty
            },
        };
        let v = self.check_expression(value);
        match op {
            None => {
                if !types_compatible(&target_type, &v) {
                    self.diagnostics.report(
                        Diagnostic::type_mismatch(&target_type, &v, value.position()),
                    );
                }
            },
            Some(_) => {
                if !accepts_arithmetic(&target_type, &v) {
                    self.diagnostics.report(
                        Diagnostic::operand_mismatch(&target_type, &v, value.position()),
                    );
                }
            },
        }
        assert(self.reported() =~= before + check_stmt(ctx, s).diagnostics);
    }

    /// Checks the condition of an `if`.
    pub fn check_condition(&mut self, condition: &Expr)
        requires
            old(self).wf(),
        ensures
            final(self).scopes == old(self).scopes,
            final(self).return_type == old(self).return_type,
            final(self).loop_depth == old(self).loop_depth,
            final(self).reported() == old(self).reported() + check_expr(
                old(self).context(),
                condition@,
            ).diagnostics + condition_report(
                check_expr(old(self).context(), condition@).ty,
                position_of(condition@),
            ),
    {
        let ghost before = self.reported();
        let ghost ctx = self.context();
        let c = self.check_expression(condition);
        match c {
            Type::Bool => {},
            Type::Unknown => {},
            _ => {
                self.diagnostics.report(
                    Diagnostic::non_boolean_condition(&c, condition.position()),
                );
            },
        }
        assert(self.reported() =~= before + check_expr(ctx, condition@).diagnostics
            + condition_report(check_expr(ctx, condition@).ty, position_of(condition@)));
    }

    /// Checks a `break`.
    pub fn check_break(&mut self, at: SourcePosition)
        ensures
            final(self).scopes == old(self).scopes,
            final(self).return_type == old(self).return_type,
            final(self).loop_depth == old(self).loop_depth,
            final(self).reported() == old(self).reported() + break_report(
                old(self).loop_depth as nat,
                at,
            ),
    {
        if self.loop_depth == 0 {
            self.diagnostics.report(Diagnostic::break_outside_loop(at));
        }
        assert(self.reported() =~= old(self).reported() + break_report(
            old(self).loop_depth as nat,
            at,
        ));
    }

    /// Checks a `return`: its value, its place, and the agreement of the
    /// value with the declared return type.
    pub fn check_return(&mut self, result: &Option<Expr>, at: SourcePosition)
        requires
            old(self).wf(),
        ensures
            final(self).scopes == old(self).scopes,
            final(self).return_type == old(self).return_type,
            final(self).loop_depth == old(self).loop_depth,
            final(self).reported() == old(self).reported() + check_stmt(
                old(self).context(),
                (StmtView::Return { result: option_expr_view(*result), at }),
            ).diagnostics,
    {
        let ghost ctx = self.context();
        let ghost before = self.reported();
        let ghost s = StmtView::Return { result: option_expr_view(*result), at };
        let v = match result {
            Some(e) => self.check_expression(e),
            None => Type::Unit,
        };
        match &self.return_type {
            None => {
                self.diagnostics.report(Diagnostic::return_outside_function(at));
            },
            Some(t) => {
                if !types_compatible(t, &v) {
                    self.diagnostics.report(Diagnostic::return_type_mismatch(t, &v, at));
                }
            },
        }
        assert(self.reported() =~= before + check_stmt(ctx, s).diagnostics);
    }

    /// Opens the scope of a loop body, binds the loop variable in it, and
    /// counts the loop.
    fn enter_loop(&mut self, variable: &String, ty: Type, at: SourcePosition)
        requires
            old(self).wf(),
        ensures
            final(self).wf(),
            final(self).context() == inside_loop(old(self).context(), variable@, ty@, at),
            final(self).reported() == old(self).reported(),
    {
        self.scopes.enter_scope();
        // The scope was just opened and binds nothing: this cannot fail.
        let _ = self.scopes.declare(variable.clone(), ty, false, at);
        proof {
            // Each loop has a scope of its own, and the global scope belongs
            // to none: there are fewer loops than scopes.
            self.scopes.lemma_depth_fits();
        }
        self.loop_depth = self.loop_depth + 1;
    }

    /// Closes the scope of a loop body.
    fn leave_loop(&mut self)
        requires
            old(self).wf(),
            old(self).loop_depth > 0,
            old(self).context().scopes.len() > old(self).loop_depth,
        ensures
            final(self).wf(),
            final(self).context() == (ContextView {
                scopes: old(self).context().scopes.drop_last(),
                functions: old(self).context().functions,
                return_type: old(self).context().return_type,
                loop_depth: (old(self).loop_depth - 1) as nat,
            }),
            final(self).reported() == old(self).reported(),
    {
        self.loop_depth = self.loop_depth - 1;
        self.scopes.exit_scope();
    }

    /// Reports a second declaration of a function name, then opens the
    /// scope of the body, binds the parameters in it and installs the
    /// return type. Returns the return type and the loop depth of the
    /// enclosing function, for `leave_function`.
    fn enter_function(
        &mut self,
        name: &String,
        params: &Vec<Parameter>,
        return_type: &Type,
        at: SourcePosition,
    ) -> (outer: (Option<Type>, usize))
        requires
            old(self).wf(),
        ensures
            final(self).wf(),
            final(self).context() == with_scopes(
                inside_function(old(self).context(), return_type@),
                bind_parameters(
                    inside_function(old(self).context(), return_type@).scopes,
                    parameter_views(params@),
                ).scopes,
            ),
            final(self).reported() == old(self).reported() + function_report(
                old(self).context().functions,
                name@,
                at,
            ) + bind_parameters(
                inside_function(old(self).context(), return_type@).scopes,
                parameter_views(params@),
            ).diagnostics,
            outer.0 == old(self).return_type,
            outer.1 == old(self).loop_depth,
    {
        let ghost ctx = self.context();
        let ghost before = self.reported();
        let duplicate = match self.scopes.lookup_function(name) {
            Some(signature) => signature.declared_at != at,
            None => false,
        };
        if duplicate {
            self.diagnostics.report(Diagnostic::duplicate_declaration(name, at));
        }
        assert(self.reported() =~= before + function_report(ctx.functions, name@, at));
        self.scopes.enter_scope();
        self.bind_parameters(params);
        let outer_return = self.return_type.take();
        self.return_type = Some(return_type.clone());
        let outer_depth = self.loop_depth;
        self.loop_depth = 0;
        proof {
            let fresh = inside_function(ctx, return_type@);
            lemma_parameters_keep_outer_scopes(fresh.scopes, parameter_views(params@));
            assert(self.reported() =~= before + function_report(ctx.functions, name@, at)
                + bind_parameters(fresh.scopes, parameter_views(params@)).diagnostics);
        }
        (outer_return, outer_depth)
    }

    /// Closes the scope of a function body and goes back to the return
    /// type and the loop depth of the enclosing function; then reports a
    /// body that can end without `return`, where a result is declared.
    fn leave_function(
        &mut self,
        outer: (Option<Type>, usize),
        name: &String,
        return_type: &Type,
        body: &Vec<Stmt>,
        at: SourcePosition,
    )
        requires
            old(self).scopes.wf(),
            old(self).context().scopes.len() > 1,
            outer.1 < old(self).context().scopes.len() - 1,
        ensures
            final(self).wf(),
            final(self).context() == (ContextView {
                scopes: old(self).context().scopes.drop_last(),
                functions: old(self).context().functions,
                return_type: option_type_view(outer.0),
                loop_depth: outer.1 as nat,
            }),
            final(self).reported() == old(self).reported() + missing_return_report(
                name@,
                return_type@,
                stmt_views(body@),
                at,
            ),
    {
        self.loop_depth = outer.1;
        self.return_type = outer.0;
        self.scopes.exit_scope();
        if !return_type.is_unit() && !returns_on_every_path(body) {
            self.diagnostics.report(Diagnostic::missing_return(name, at));
        }
        assert(self.reported() =~= old(self).reported() + missing_return_report(
            name@,
            return_type@,
            stmt_views(body@),
            at,
        ));
    }

    /// Checks an `if`: the condition, then each branch in a scope of its
    /// own.
    fn check_if(&mut self, s: &Stmt)
        requires
            old(self).wf(),
            s is If,
        ensures
            final(self).wf(),
            final(self).context() == old(self).context(),
            final(self).reported() == old(self).reported() + check_stmt(
                old(self).context(),
                s@,
            ).diagnostics,
        decreases s, 0nat,
    {
        let ghost ctx = self.context();
        let ghost before = self.reported();
        match s {
            Stmt::If { condition, then_branch, else_branch, .. } => {
                self.check_condition(condition);
                self.check_scoped(then_branch);
                match else_branch {
                    Some(other) => {
                        self.check_scoped(other);
                    },
                    None => {},
                }
                assert(self.reported() =~= before + check_stmt(ctx, s@).diagnostics);
            },
            _ => {},
        }
    }

    /// Checks a `for`: what it runs over, then the body in a scope of its
    /// own that binds the loop variable.
    fn check_for(&mut self, s: &Stmt)
        requires
            old(self).wf(),
            s is For,
        ensures
            final(self).wf(),
            final(self).context() == old(self).context(),
            final(self).reported() == old(self).reported() + check_stmt(
                old(self).context(),
                s@,
            ).diagnostics,
        decreases s, 0nat,
    {
        let ghost ctx = self.context();
        let ghost before = self.reported();
        match s {
            Stmt::For { variable, iterable, body, at } => {
                let ty = self.check_iterable(iterable);
                let ghost inner = inside_loop(ctx, variable@, ty@, *at);
                self.enter_loop(variable, ty, *at);
                proof {
                    lemma_block_keeps_outer_scopes(inner, stmt_views(body@));
                }
                self.check_block(body);
                self.leave_loop();
                proof {
                    assert(self.context().scopes =~= ctx.scopes);
                    assert(self.reported() =~= before + check_stmt(ctx, s@).diagnostics);
                }
            },
            _ => {},
        }
    }

    /// Checks a function declaration: its name, its parameters, its body
    /// in a scope of its own, and the paths through the body.
    fn check_function(&mut self, s: &Stmt)
        requires
            old(self).wf(),
            s is Function,
        ensures
            final(self).wf(),
            final(self).context() == old(self).context(),
            final(self).reported() == old(self).reported() + check_stmt(
                old(self).context(),
                s@,
            ).diagnostics,
        decreases s, 0nat,
    {
        let ghost ctx = self.context();
        let ghost before = self.reported();
        match s {
            Stmt::Function { name, params, return_type, body, at } => {
                let ghost fresh = inside_function(ctx, return_type@);
                let ghost bound = bind_parameters(fresh.scopes, parameter_views(params@));
                let outer = self.enter_function(name, params, return_type, *at);
                proof {
                    lemma_parameters_keep_outer_scopes(fresh.scopes, parameter_views(params@));
                    lemma_block_keeps_outer_scopes(
                        with_scopes(fresh, bound.scopes),
                        stmt_views(body@),
                    );
                }
                self.check_block(body);
                self.leave_function(outer, name, return_type, body, *at);
                proof {
                    assert(self.context().scopes =~= ctx.scopes);
                    assert(self.reported() =~= before + check_stmt(ctx, s@).diagnostics);
                }
            },
            _ => {},
        }
    }

    /// Checks a statement: reports what is owed for it, and binds what it
    /// declares in the current scope.
    pub fn check_statement(&mut self, s: &Stmt)
        requires
            old(self).wf(),
        ensures
            final(self).wf(),
            final(self).context() == with_scopes(
                old(self).context(),
                check_stmt(old(self).context(), s@).scopes,
            ),
            final(self).reported() == old(self).reported() + check_stmt(
                old(self).context(),
                s@,
            ).diagnostics,
        decreases s, 1nat,
    {
        match s {
            Stmt::Let { name, mutable, annotation, value, at } => {
                self.check_let(name, *mutable, annotation, value, *at);
            },
            Stmt::Assign { name, op, value, at } => {
                self.check_assign(name, *op, value, *at);
            },
            Stmt::If { .. } => {
                self.check_if(s);
            },
            Stmt::For { .. } => {
                self.check_for(s);
            },
            Stmt::Break { at } => {
                self.check_break(*at);
            },
            Stmt::Return { result, at } => {
                self.check_return(result, *at);
            },
            Stmt::Function { .. } => {
                self.check_function(s);
            },
            Stmt::Block { body, .. } => {
                self.check_scoped(body);
            },
            Stmt::Print { arguments, .. } => {
                let _ = self.check_expressions(arguments);
            },
            Stmt::Expression { value } => {
                let _ = self.check_expression(value);
            },
        }
    }

    /// Checks a list of statements in order, each in the scopes that the
    /// one before it left.
    #[verifier::loop_isolation(false)]
    pub fn check_block(&mut self, statements: &Vec<Stmt>)
        requires
            old(self).wf(),
        ensures
            final(self).wf(),
            final(self).context() == with_scopes(
                old(self).context(),
                check_block(old(self).context(), stmt_views(statements@)).scopes,
            ),
            final(self).reported() == old(self).reported() + check_block(
                old(self).context(),
                stmt_views(statements@),
            ).diagnostics,
        decreases statements, 0nat,
    {
        let ghost ctx = self.context();
        let ghost before = self.reported();
        let ghost views = stmt_views(statements@);
        let mut i: usize = 0;
        proof {
            lemma_stmt_views(statements@);
            assert(self.reported() =~= before + check_block(ctx, views.take(0)).diagnostics);
        }
        while i < statements.len()
            invariant
                i <= statements.len(),
                self.wf(),
                self.context() == with_scopes(ctx, check_block(ctx, views.take(i as int)).scopes),
                self.reported() == before + check_block(ctx, views.take(i as int)).diagnostics,
            decreases statements.len() - i,
        {
            self.check_statement(&statements[i]);
            proof {
                let next = views.take(i + 1);
                assert(next.drop_last() =~= views.take(i as int));
                assert(next.last() == statements[i as int]@);
                assert(self.reported() =~= before + check_block(ctx, next).diagnostics);
            }
            i += 1;
        }
        assert(views.take(statements.len() as int) =~= views);
    }
}

} // verus!

//! The analysis context and the expression checker.

use crate::ast::{
    expr_views, lemma_expr_views, BinaryOp, Comparison, Expr, ExprView, LiteralForm,
};
use crate::diagnostics::{Collector, Diagnostic, DiagnosticView};
use crate::position::SourcePosition;
use crate::rules::{
    argument_reports, arithmetic_accepts, array_literal, array_report, binary_accepts, binary_type,
    call_report, call_type, check_expr, check_exprs, equatable, index_report, indexed_type, lesser,
    literal_type, nothing, numeric, ordered, positions_of, ContextView,
};
use crate::scope::{FunctionSignatureView, ScopeManager, SymbolView};
use crate::types::{
    array_element_type, lemma_type_views, type_views, types_compatible, Type, TypeView,
};
use vstd::prelude::*;

verus! {

/// The model of an optional type.
pub open spec fn option_type_view(t: Option<Type>) -> Option<TypeView> {
    match t {
        Some(t) => Some(t@),
        None => None,
    }
}

/// The state of one analysis run.
#[derive(Debug)]
pub struct AnalysisContext {
    /// The open scopes and the declared functions.
    pub scopes: ScopeManager,
    /// The declared return type of the function whose body is checked.
    pub return_type: Option<Type>,
    /// The number of loops around the statement that is checked, inside
    /// its function.
    pub loop_depth: usize,
    /// What was reported so far.
    pub diagnostics: Collector,
}

/// The type that the form of a literal gives it.
pub fn type_of_literal(form: LiteralForm) -> (ty: Type)
    ensures
        ty@ == literal_type(form),
{
    match form {
        LiteralForm::Integer => Type::Int,
        LiteralForm::Decimal => Type::Float,
        LiteralForm::Boolean => Type::Bool,
        LiteralForm::Character => Type::Char,
        LiteralForm::Text => Type::Str,
    }
}

fn is_numeric(t: &Type) -> (yes: bool)
    ensures
        yes == numeric(t@),
{
    match t {
        Type::Int => true,
        Type::Float => true,
        _ => false,
    }
}

fn is_equatable(t: &Type) -> (yes: bool)
    ensures
        yes == equatable(t@),
{
    match t {
        Type::Int => true,
        Type::Float => true,
        Type::Bool => true,
        Type::Char => true,
        Type::Str => true,
        _ => false,
    }
}

fn is_ordered(t: &Type) -> (yes: bool)
    ensures
        yes == ordered(t@),
{
    match t {
        Type::Int => true,
        Type::Float => true,
        Type::Char => true,
        Type::Str => true,
        _ => false,
    }
}

fn is_bool_or_unknown(t: &Type) -> (yes: bool)
    ensures
        yes == (t@ is Bool || t@ is Unknown),
{
    match t {
        Type::Bool => true,
        Type::Unknown => true,
        _ => false,
    }
}

/// Whether an arithmetic operator takes operands of these types.
pub fn accepts_arithmetic(left: &Type, right: &Type) -> (yes: bool)
    ensures
        yes == arithmetic_accepts(left@, right@),
{
    types_compatible(left, right) && (is_numeric(left) || left.is_unknown()) && (is_numeric(right)
        || right.is_unknown())
}

/// Whether a binary operator takes operands of these types.
pub fn accepts_binary(op: BinaryOp, left: &Type, right: &Type) -> (yes: bool)
    ensures
        yes == binary_accepts(op, left@, right@),
{
    match op {
        BinaryOp::Arithmetic(_) => accepts_arithmetic(left, right),
        BinaryOp::Comparison(c) => {
            let both = match c {
                Comparison::Equal | Comparison::NotEqual => (is_equatable(left)
                    || left.is_unknown()) && (is_equatable(right) || right.is_unknown()),
                _ => (is_ordered(left) || left.is_unknown()) && (is_ordered(right)
                    || right.is_unknown()),
            };
            types_compatible(left, right) && both
        },
        BinaryOp::Logical(_) => is_bool_or_unknown(left) && is_bool_or_unknown(right),
    }
}

/// The type of a binary operation on operands of these types.
pub fn type_of_binary(op: BinaryOp, left: Type, right: Type) -> (ty: Type)
    ensures
        ty@ == binary_type(op, left@, right@),
{
    match op {
        BinaryOp::Arithmetic(_) => {
            if !accepts_arithmetic(&left, &right) {
                Type::Unknown
            } else if left.is_unknown() {
                right
            } else {
                left
            }
        },
        _ => Type::Bool,
    }
}

/// The type of an element of a value of type `base`.
pub fn type_of_element(base: &Type) -> (ty: Type)
    ensures
        ty@ == indexed_type(base@),
{
    match base {
        Type::Array(element) => (**element).clone(),
        _ => Type::Unknown,
    }
}

impl AnalysisContext {
    /// What statements are checked against, as the rules see it.
    pub open spec fn context(&self) -> ContextView {
        ContextView {
            scopes: self.scopes@.scopes,
            functions: self.scopes@.functions,
            return_type: option_type_view(self.return_type),
            loop_depth: self.loop_depth as nat,
        }
    }

    /// What was reported so far.
    pub open spec fn reported(&self) -> Seq<DiagnosticView> {
        self.diagnostics@
    }

    /// The scope manager is well formed, and each enclosing loop has a
    /// scope of its own.
    pub open spec fn wf(&self) -> bool {
        &&& self.scopes.wf()
        &&& self.loop_depth < self.scopes@.scopes.len()
    }

    /// The context at the start of a program: the global scope, no
    /// function, outside of every function and loop, nothing reported.
    pub fn new() -> (ctx: AnalysisContext)
        ensures
            ctx.wf(),
            ctx.context() == (ContextView {
                scopes: seq![Map::<Seq<char>, SymbolView>::empty()],
                functions: Map::<Seq<char>, FunctionSignatureView>::empty(),
                return_type: None,
                loop_depth: 0,
            }),
            ctx.reported() == nothing(),
    {
        AnalysisContext {
            scopes: ScopeManager::new(),
            return_type: None,
            loop_depth: 0,
            diagnostics: Collector::new(),
        }
    }

    /// Reports what is owed for the type of a value that is indexed or
    /// iterated.
    pub fn report_array(&mut self, base: &Type, at: SourcePosition)
        ensures
            final(self).scopes == old(self).scopes,
            final(self).return_type == old(self).return_type,
            final(self).loop_depth == old(self).loop_depth,
            final(self).reported() == old(self).reported() + array_report(base@, at),
    {
        match base {
            Type::Array(_) => {},
            Type::Unknown => {},
            _ => {
                self.diagnostics.report(Diagnostic::not_an_array(base, at));
            },
        }
        assert(self.reported() =~= old(self).reported() + array_report(base@, at));
    }

    /// Reports what is owed for the type of an index.
    pub fn report_index(&mut self, index: &Type, at: SourcePosition)
        ensures
            final(self).scopes == old(self).scopes,
            final(self).return_type == old(self).return_type,
            final(self).loop_depth == old(self).loop_depth,
            final(self).reported() == old(self).reported() + index_report(index@, at),
    {
        match index {
            Type::Int => {},
            Type::Unknown => {},
            _ => {
                self.diagnostics.report(Diagnostic::non_integer_index(index, at));
            },
        }
        assert(self.reported() =~= old(self).reported() + index_report(index@, at));
    }

    /// The type of an array literal whose elements have the given types;
    /// reports what is owed for them.
    pub fn check_array_literal(&mut self, types: &Vec<Type>, at: SourcePosition) -> (ty: Type)
        ensures
            final(self).scopes == old(self).scopes,
            final(self).return_type == old(self).return_type,
            final(self).loop_depth == old(self).loop_depth,
            final(self).reported() == old(self).reported() + array_literal(
                type_views(types@),
                at,
            ).diagnostics,
            ty@ == array_literal(type_views(types@), at).ty,
    {
        proof {
            lemma_type_views(types@);
        }
        let mut i: usize = 0;
        while i < types.len()
            invariant
                i <= types.len(),
                *self == *old(self),
                forall|j: int| 0 <= j < i ==> !((#[trigger] types[j])@ is Unknown),
            decreases types.len() - i,
        {
            if types[i].is_unknown() {
                proof {
                    lemma_type_views(types@);
                    assert(type_views(types@)[i as int] == TypeView::Unknown);
                    assert(self.reported() =~= old(self).reported() + nothing());
                }
                return Type::Unknown;
            }
            i += 1;
        }
        proof {
            lemma_type_views(types@);
            assert(!type_views(types@).contains(TypeView::Unknown)) by {
                if type_views(types@).contains(TypeView::Unknown) {
                    let k = choose|k: int|
                        0 <= k < type_views(types@).len() && type_views(types@)[k]
                            == TypeView::Unknown;
                    assert(types[k]@ is Unknown);
                }
            }
        }
        match array_element_type(types) {
            Ok(t) => {
                assert(self.reported() =~= old(self).reported() + nothing());
                Type::Array(Box::new(t))
            },
            Err(_) => {
                self.diagnostics.report(Diagnostic::inconsistent_array(at));
                assert(self.reported() =~= old(self).reported() + array_literal(
                    type_views(types@),
                    at,
                ).diagnostics);
                Type::Unknown
            },
        }
    }

    /// Reports what a call owes: that the function is not declared; or
    /// else a wrong number of arguments, and each argument whose type is
    /// not that of its parameter. Returns the type of the call.
    pub fn check_call(
        &mut self,
        callee: &String,
        arguments: &Vec<Expr>,
        types: &Vec<Type>,
        at: SourcePosition,
    ) -> (ty: Type)
        requires
            types.len() == arguments.len(),
        ensures
            final(self).scopes == old(self).scopes,
            final(self).return_type == old(self).return_type,
            final(self).loop_depth == old(self).loop_depth,
            final(self).reported() == old(self).reported() + call_report(
                old(self).context().functions,
                callee@,
                type_views(types@),
                positions_of(expr_views(arguments@)),
                at,
            ),
            ty@ == call_type(old(self).context().functions, callee@),
    {
        let ghost before = self.reported();
        let ghost actual = type_views(types@);
        let ghost places = positions_of(expr_views(arguments@));
        proof {
            lemma_type_views(types@);
            lemma_expr_views(arguments@);
        }
        match self.scopes.lookup_function(callee) {
            None => {
                self.diagnostics.report(Diagnostic::undeclared_function(callee, at));
                assert(self.reported() =~= before + seq![
                    crate::diagnostics::undeclared_function(callee@, at),
                ]);
                Type::Unknown
            },
            Some(signature) => {
                let ghost params = signature@.params;
                let declared = signature.params.len();
                let supplied = types.len();
                if declared != supplied {
                    self.diagnostics.report(
                        Diagnostic::arity_mismatch(callee, declared, supplied, at),
                    );
                }
                let ghost middle = self.reported();
                let count = if declared <= supplied {
                    declared
                } else {
                    supplied
                };
                let mut i: usize = 0;
                while i < count
                    invariant
                        i <= count,
                        count == lesser(declared as nat, supplied as nat),
                        declared == signature.params.len(),
                        supplied == types.len(),
                        types.len() == arguments.len(),
                        params == signature@.params,
                        actual == type_views(types@),
                        places == positions_of(expr_views(arguments@)),
                        self.scopes == old(self).scopes,
                        self.return_type == old(self).return_type,
                        self.loop_depth == old(self).loop_depth,
                        self.reported() == middle + argument_reports(
                            params,
                            actual,
                            places,
                            i as nat,
                        ),
                    decreases count - i,
                {
                    proof {
                        lemma_type_views(types@);
                        lemma_expr_views(arguments@);
                    }
                    let ghost so_far = self.reported();
                    if !types_compatible(&signature.params[i].ty, &types[i]) {
                        self.diagnostics.report(
                            Diagnostic::argument_type_mismatch(
                                &signature.params[i].ty,
                                &types[i],
                                arguments[i].position(),
                            ),
                        );
                    }
                    proof {
                        assert(params[i as int] == signature.params[i as int]@);
                        assert(self.reported() =~= middle + argument_reports(
                            params,
                            actual,
                            places,
                            (i + 1) as nat,
                        ));
                    }
                    i += 1;
                }
                assert(self.reported() =~= before + call_report(
                    old(self).context().functions,
                    callee@,
                    actual,
                    places,
                    at,
                ));
                signature.return_type.clone()
            },
        }
    }

    /// The type of an expression; reports what is owed for it.
    pub fn check_expression(&mut self, e: &Expr) -> (ty: Type)
        requires
            old(self).wf(),
        ensures
            final(self).scopes == old(self).scopes,
            final(self).return_type == old(self).return_type,
            final(self).loop_depth == old(self).loop_depth,
            final(self).reported() == old(self).reported() + check_expr(
                old(self).context(),
                e@,
            ).diagnostics,
            ty@ == check_expr(old(self).context(), e@).ty,
        decreases e,
    {
        let ghost ctx = self.context();
        let ghost before = self.reported();
        match e {
            Expr::Literal { form, .. } => {
                assert(self.reported() =~= before + nothing());
                type_of_literal(*form)
            },
            Expr::Identifier { name, at } => {
                let found = match self.scopes.lookup(name) {
                    Some(symbol) => Some(symbol.ty.clone()),
                    None => None,
                };
                match found {
                    Some(ty) => {
                        assert(self.reported() =~= before + nothing());
                        ty
                    },
                    None => {
                        self.diagnostics.report(Diagnostic::undeclared_variable(name, *at));
                        assert(self.reported() =~= before + check_expr(ctx, e@).diagnostics);
                        Type::Unknown
                    },
                }
            },
            Expr::Array { elements, at } => {
                let types = self.check_expressions(elements);
                let ty = self.check_array_literal(&types, *at);
                assert(self.reported() =~= before + check_expr(ctx, e@).diagnostics);
                ty
            },
            Expr::Index { base, index, at } => {
                let b = self.check_expression(base);
                let i = self.check_expression(index);
                self.report_array(&b, base.position());
                self.report_index(&i, index.position());
                assert(self.reported() =~= before + check_expr(ctx, e@).diagnostics);
                type_of_element(&b)
            },
            Expr::Binary { op, left, right, at } => {
                let l = self.check_expression(left);
                let r = self.check_expression(right);
                if !accepts_binary(*op, &l, &r) {
                    self.diagnostics.report(Diagnostic::operand_mismatch(&l, &r, *at));
                }
                assert(self.reported() =~= before + check_expr(ctx, e@).diagnostics);
                type_of_binary(*op, l, r)
            },
            Expr::Not { operand, at } => {
                let o = self.check_expression(operand);
                if !is_bool_or_unknown(&o) {
                    self.diagnostics.report(Diagnostic::type_mismatch(&Type::Bool, &o, *at));
                }
                assert(self.reported() =~= before + check_expr(ctx, e@).diagnostics);
                Type::Bool
            },
            Expr::Call { callee, arguments, at } => {
                let types = self.check_expressions(arguments);
                proof {
                    lemma_type_views(types@);
                    lemma_expr_views(arguments@);
                    lemma_check_exprs_len(ctx, expr_views(arguments@));
                }
                let ty = self.check_call(callee, arguments, &types, *at);
                assert(self.reported() =~= before + check_expr(ctx, e@).diagnostics);
                ty
            },
        }
    }

    /// The types of a list of expressions, in order; reports what is owed
    /// for them.
    #[verifier::loop_isolation(false)]
    pub fn check_expressions(&mut self, items: &Vec<Expr>) -> (types: Vec<Type>)
        requires
            old(self).wf(),
        ensures
            final(self).scopes == old(self).scopes,
            final(self).return_type == old(self).return_type,
            final(self).loop_depth == old(self).loop_depth,
            final(self).reported() == old(self).reported() + check_exprs(
                old(self).context(),
                expr_views(items@),
            ).diagnostics,
            type_views(types@) == check_exprs(old(self).context(), expr_views(items@)).types,
        decreases items,
    {
        let ghost ctx = self.context();
        let ghost before = self.reported();
        let ghost views = expr_views(items@);
        let mut types: Vec<Type> = Vec::new();
        let mut i: usize = 0;
        proof {
            lemma_expr_views(items@);
            assert(self.reported() =~= before + check_exprs(ctx, views.take(0)).diagnostics);
        }
        while i < items.len()
            invariant
                i <= items.len(),
                self.scopes == old(self).scopes,
                self.return_type == old(self).return_type,
                self.loop_depth == old(self).loop_depth,
                type_views(types@) == check_exprs(ctx, views.take(i as int)).types,
                self.reported() == before + check_exprs(ctx, views.take(i as int)).diagnostics,
            decreases items.len() - i,
        {
            let ghost earlier = types@;
            let ty = self.check_expression(&items[i]);
            types.push(ty);
            proof {
                let next = views.take(i + 1);
                assert(next.drop_last() =~= views.take(i as int));
                assert(next.last() == items[i as int]@);
                assert(types@.drop_last() =~= earlier);
                assert(type_views(types@) == type_views(earlier).push(ty@));
                assert(self.reported() =~= before + check_exprs(ctx, next).diagnostics);
            }
            i += 1;
        }
        assert(views.take(items.len() as int) =~= views);
        types
    }
}

/// A list of expressions has as many types as members.
pub proof fn lemma_check_exprs_len(ctx: ContextView, items: Seq<ExprView>)
    ensures
        check_exprs(ctx, items).types.len() == items.len(),
    decreases items.len(),
{
    if items.len() > 0 {
        lemma_check_exprs_len(ctx, items.drop_last());
    }
}

} // verus!

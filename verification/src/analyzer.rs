//! The analyzer driver: the pass that collects the function signatures,
//! and the walk that checks the program against them.

use crate::ast::{
    lemma_stmt_views, parameter_views, stmt_views, Parameter, Program, Stmt,
};
use crate::context::AnalysisContext;
use crate::diagnostics::{diagnostic_views, Diagnostic};
use crate::laws::{
    law_accepted_programs_are_clean, law_clean_programs_are_accepted, lemma_well_formed_prefix,
};
use crate::rules::{collect_block, collect_stmt, diagnostics_of, initial_context};
use crate::scope::{FunctionSignature, ScopeManager};
use crate::types::known;
use crate::typing::{accepted, well_formed, well_formed_block, well_formed_stmt};
use vstd::prelude::*;

verus! {

/// A copy of a list of parameters.
pub fn copy_parameters(params: &Vec<Parameter>) -> (copies: Vec<Parameter>)
    ensures
        parameter_views(copies@) == parameter_views(params@),
{
    let mut copies: Vec<Parameter> = Vec::new();
    let mut i: usize = 0;
    while i < params.len()
        invariant
            i <= params.len(),
            copies.len() == i,
            forall|j: int| 0 <= j < i ==> (#[trigger] copies[j])@ == params[j]@,
        decreases params.len() - i,
    {
        copies.push(params[i].clone());
        i += 1;
    }
    assert(parameter_views(copies@) =~= parameter_views(params@));
    copies
}

/// Records the functions that a statement declares, at any depth, in
/// source order.
pub fn register_statement(manager: &mut ScopeManager, s: &Stmt)
    requires
        old(manager).wf(),
    ensures
        final(manager).wf(),
        final(manager)@.scopes == old(manager)@.scopes,
        final(manager)@.functions == collect_stmt(old(manager)@.functions, s@),
    decreases s,
{
    match s {
        Stmt::Function { name, params, return_type, body, at } => {
            let signature = FunctionSignature {
                name: name.clone(),
                params: copy_parameters(params),
                return_type: return_type.clone(),
                declared_at: *at,
            };
            let _ = manager.register_function(signature);
            register_block(manager, body);
        },
        Stmt::If { then_branch, else_branch, .. } => {
            register_block(manager, then_branch);
            match else_branch {
                Some(other) => {
                    register_block(manager, other);
                },
                None => {},
            }
        },
        Stmt::For { body, .. } => {
            register_block(manager, body);
        },
        Stmt::Block { body, .. } => {
            register_block(manager, body);
        },
        _ => {},
    }
}

/// Records the functions that a list of statements declares, at any depth,
/// in source order.
#[verifier::loop_isolation(false)]
pub fn register_block(manager: &mut ScopeManager, statements: &Vec<Stmt>)
    requires
        old(manager).wf(),
    ensures
        final(manager).wf(),
        final(manager)@.scopes == old(manager)@.scopes,
        final(manager)@.functions == collect_block(
            old(manager)@.functions,
            stmt_views(statements@),
        ),
    decreases statements,
{
    let ghost start = manager@.functions;
    let ghost views = stmt_views(statements@);
    let mut i: usize = 0;
    proof {
        lemma_stmt_views(statements@);
    }
    while i < statements.len()
        invariant
            i <= statements.len(),
            manager.wf(),
            manager@.scopes == old(manager)@.scopes,
            manager@.functions == collect_block(start, views.take(i as int)),
        decreases statements.len() - i,
    {
        register_statement(manager, &statements[i]);
        proof {
            let next = views.take(i + 1);
            assert(next.drop_last() =~= views.take(i as int));
            assert(next.last() == statements[i as int]@);
        }
        i += 1;
    }
    assert(views.take(statements.len() as int) =~= views);
}

/// Whether every type that the statement writes down is a known one.
#[verifier::loop_isolation(false)]
pub fn statement_is_well_formed(s: &Stmt) -> (yes: bool)
    ensures
        yes == well_formed_stmt(s@),
    decreases s,
{
    match s {
        Stmt::Let { annotation, .. } => match annotation {
            Some(t) => t.is_known(),
            None => true,
        },
        Stmt::If { then_branch, else_branch, .. } => {
            block_is_well_formed(then_branch) && match else_branch {
                Some(other) => block_is_well_formed(other),
                None => true,
            }
        },
        Stmt::For { body, .. } => block_is_well_formed(body),
        Stmt::Function { params, return_type, body, .. } => {
            if !return_type.is_known() {
                return false;
            }
            let mut i: usize = 0;
            while i < params.len()
                invariant
                    i <= params.len(),
                    forall|j: int|
                        0 <= j < i ==> known((#[trigger] parameter_views(params@)[j]).ty),
                decreases params.len() - i,
            {
                if !params[i].ty.is_known() {
                    assert(!known(parameter_views(params@)[i as int].ty));
                    return false;
                }
                i += 1;
            }
            block_is_well_formed(body)
        },
        Stmt::Block { body, .. } => block_is_well_formed(body),
        _ => true,
    }
}

/// Whether every type that the statements write down is a known one.
#[verifier::loop_isolation(false)]
pub fn block_is_well_formed(statements: &Vec<Stmt>) -> (yes: bool)
    ensures
        yes == well_formed_block(stmt_views(statements@)),
    decreases statements,
{
    let ghost views = stmt_views(statements@);
    let mut i: usize = 0;
    proof {
        lemma_stmt_views(statements@);
        assert(views.take(0).len() == 0);
    }
    while i < statements.len()
        invariant
            i <= statements.len(),
            well_formed_block(views.take(i as int)),
        decreases statements.len() - i,
    {
        proof {
            let next = views.take(i + 1);
            assert(next.drop_last() =~= views.take(i as int));
            assert(next.last() == statements[i as int]@);
        }
        if !statement_is_well_formed(&statements[i]) {
            proof {
                if well_formed_block(views) {
                    lemma_well_formed_prefix(views, i + 1);
                }
            }
            return false;
        }
        i += 1;
    }
    assert(views.take(statements.len() as int) =~= views);
    true
}

/// Whether the program is what a parser hands over: every type that it
/// writes down is a known one.
pub fn is_well_formed(program: &Program) -> (yes: bool)
    ensures
        yes == well_formed(program@),
{
    block_is_well_formed(&program.statements)
}

/// Whether the program keeps every rule, that is, whether its analysis
/// reports nothing.
pub fn is_valid(program: &Program) -> (valid: bool)
    ensures
        valid == (diagnostics_of(program@).len() == 0),
        well_formed(program@) ==> valid == accepted(program@),
{
    let diagnostics = analyze(program);
    proof {
        if well_formed(program@) {
            if accepted(program@) {
                law_accepted_programs_are_clean(program@);
            }
            if diagnostics_of(program@).len() == 0 {
                law_clean_programs_are_accepted(program@);
            }
        }
    }
    diagnostics.len() == 0
}

/// Analyzes a program: every function of the program is known before any
/// statement is checked; then the statements are checked in source order.
/// The result holds every violation found, in the order of the walk; it is
/// empty where the program keeps every rule.
pub fn analyze(program: &Program) -> (diagnostics: Vec<Diagnostic>)
    ensures
        diagnostic_views(diagnostics@) == diagnostics_of(program@),
{
    let mut ctx = AnalysisContext::new();
    register_block(&mut ctx.scopes, &program.statements);
    assert(ctx.context() == initial_context(program@));
    ctx.check_block(&program.statements);
    assert(ctx.reported() =~= diagnostics_of(program@));
    ctx.diagnostics.finish()
}

} // verus!

use semantic_analyzer::ast::Parameter;
use semantic_analyzer::position::SourcePosition;
use semantic_analyzer::scope::{DuplicateDeclaration, FunctionSignature, ScopeManager};
use semantic_analyzer::types::Type;

fn at(line: u32, column: u32) -> SourcePosition {
    SourcePosition::new(line, column)
}

fn signature(name: &str, arity: usize, line: u32) -> FunctionSignature {
    let mut params = Vec::new();
    for i in 0..arity {
        params.push(Parameter::new("p", Type::Int, at(line, 10 + i as u32)));
    }
    FunctionSignature {
        name: name.to_string(),
        params,
        return_type: Type::Int,
        declared_at: at(line, 1),
    }
}

#[test]
fn a_new_manager_has_the_global_scope_only() {
    let manager = ScopeManager::new();
    assert_eq!(manager.depth(), 1);
    assert!(manager.lookup(&"x".to_string()).is_none());
    assert!(manager.lookup_function(&"f".to_string()).is_none());
}

#[test]
fn declare_then_lookup_finds_the_symbol() {
    let mut manager = ScopeManager::new();
    assert_eq!(manager.declare("x".to_string(), Type::Int, true, at(1, 5)), Ok(()));
    let symbol = manager.lookup(&"x".to_string()).unwrap();
    assert_eq!(symbol.name, "x");
    assert_eq!(symbol.ty, Type::Int);
    assert!(symbol.mutable);
    assert_eq!(symbol.declared_at, at(1, 5));
    assert!(manager.lookup(&"y".to_string()).is_none());
}

#[test]
fn redeclaration_in_the_same_scope_fails() {
    let mut manager = ScopeManager::new();
    assert_eq!(manager.declare("x".to_string(), Type::Int, false, at(1, 5)), Ok(()));
    assert_eq!(
        manager.declare("x".to_string(), Type::Bool, true, at(2, 5)),
        Err(DuplicateDeclaration { declared_at: at(1, 5) })
    );
    let symbol = manager.lookup(&"x".to_string()).unwrap();
    assert_eq!(symbol.ty, Type::Int);
    assert!(!symbol.mutable);
    assert_eq!(symbol.declared_at, at(1, 5));
}

#[test]
fn shadowing_an_outer_scope_is_allowed() {
    let mut manager = ScopeManager::new();
    assert_eq!(manager.declare("x".to_string(), Type::Int, false, at(1, 5)), Ok(()));
    manager.enter_scope();
    assert_eq!(manager.depth(), 2);
    assert_eq!(manager.lookup(&"x".to_string()).unwrap().ty, Type::Int);
    assert_eq!(manager.declare("x".to_string(), Type::Bool, false, at(2, 9)), Ok(()));
    assert_eq!(manager.lookup(&"x".to_string()).unwrap().ty, Type::Bool);
    manager.exit_scope();
    assert_eq!(manager.depth(), 1);
    assert_eq!(manager.lookup(&"x".to_string()).unwrap().ty, Type::Int);
}

#[test]
fn bindings_end_with_their_scope() {
    let mut manager = ScopeManager::new();
    manager.enter_scope();
    assert_eq!(manager.declare("inner".to_string(), Type::Str, false, at(3, 9)), Ok(()));
    manager.enter_scope();
    assert!(manager.lookup(&"inner".to_string()).is_some());
    manager.exit_scope();
    manager.exit_scope();
    assert!(manager.lookup(&"inner".to_string()).is_none());
}

#[test]
fn the_global_scope_is_never_closed() {
    let mut manager = ScopeManager::new();
    assert_eq!(manager.declare("g".to_string(), Type::Int, false, at(1, 1)), Ok(()));
    manager.exit_scope();
    manager.exit_scope();
    assert_eq!(manager.depth(), 1);
    assert!(manager.lookup(&"g".to_string()).is_some());
}

#[test]
fn functions_live_in_their_own_namespace() {
    let mut manager = ScopeManager::new();
    assert!(manager.register_function(signature("suma", 2, 1)));
    assert!(manager.lookup(&"suma".to_string()).is_none());
    assert_eq!(manager.declare("suma".to_string(), Type::Int, false, at(5, 5)), Ok(()));
    assert_eq!(manager.lookup_function(&"suma".to_string()).unwrap().params.len(), 2);
    assert_eq!(manager.lookup(&"suma".to_string()).unwrap().ty, Type::Int);
}

#[test]
fn functions_are_visible_from_every_scope() {
    let mut manager = ScopeManager::new();
    manager.enter_scope();
    assert!(manager.register_function(signature("f", 1, 4)));
    manager.exit_scope();
    assert!(manager.lookup_function(&"f".to_string()).is_some());
    manager.enter_scope();
    manager.enter_scope();
    assert!(manager.lookup_function(&"f".to_string()).is_some());
}

#[test]
fn the_first_declaration_of_a_function_counts() {
    let mut manager = ScopeManager::new();
    assert!(manager.register_function(signature("f", 1, 4)));
    assert!(!manager.register_function(signature("f", 3, 9)));
    let found = manager.lookup_function(&"f".to_string()).unwrap();
    assert_eq!(found.params.len(), 1);
    assert_eq!(found.declared_at, at(4, 1));
}

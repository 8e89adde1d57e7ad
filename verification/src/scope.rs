//! The scope manager: nested lexical scopes of variables, and the global
//! namespace of functions.

use crate::ast::{parameter_views, Parameter, ParameterView};
use crate::position::SourcePosition;
use crate::types::{Type, TypeView};
use vstd::prelude::*;

verus! {

/// Mathematical model of a symbol.
pub struct SymbolView {
    pub name: Seq<char>,
    pub ty: TypeView,
    pub mutable: bool,
    pub declared_at: SourcePosition,
}

/// A variable binding.
#[derive(Debug, PartialEq, Eq)]
pub struct Symbol {
    pub name: String,
    pub ty: Type,
    pub mutable: bool,
    pub declared_at: SourcePosition,
}

impl View for Symbol {
    type V = SymbolView;

    open spec fn view(&self) -> SymbolView {
        SymbolView {
            name: self.name@,
            ty: self.ty@,
            mutable: self.mutable,
            declared_at: self.declared_at,
        }
    }
}

/// Mathematical model of a function signature.
pub struct FunctionSignatureView {
    pub name: Seq<char>,
    pub params: Seq<ParameterView>,
    pub return_type: TypeView,
    pub declared_at: SourcePosition,
}

/// What a call needs to know of a function.
#[derive(Debug, PartialEq, Eq)]
pub struct FunctionSignature {
    pub name: String,
    pub params: Vec<Parameter>,
    pub return_type: Type,
    pub declared_at: SourcePosition,
}

impl View for FunctionSignature {
    type V = FunctionSignatureView;

    open spec fn view(&self) -> FunctionSignatureView {
        FunctionSignatureView {
            name: self.name@,
            params: parameter_views(self.params@),
            return_type: self.return_type@,
            declared_at: self.declared_at,
        }
    }
}

/// The bindings of one scope, by name.
pub type Bindings = Map<Seq<char>, SymbolView>;

/// The declared functions, by name.
pub type Signatures = Map<Seq<char>, FunctionSignatureView>;

/// The table that a list of named entries stands for: where a name occurs
/// more than once, the first entry is the one that counts.
pub open spec fn first_wins<V>(entries: Seq<(Seq<char>, V)>) -> Map<Seq<char>, V>
    decreases entries.len(),
{
    if entries.len() == 0 {
        Map::empty()
    } else {
        let earlier = first_wins(entries.drop_last());
        let entry = entries.last();
        if earlier.contains_key(entry.0) {
            earlier
        } else {
            earlier.insert(entry.0, entry.1)
        }
    }
}

/// A name that no entry has is not in the table.
pub proof fn lemma_absent<V>(entries: Seq<(Seq<char>, V)>, name: Seq<char>)
    requires
        forall|j: int| 0 <= j < entries.len() ==> (#[trigger] entries[j]).0 != name,
    ensures
        !first_wins(entries).contains_key(name),
    decreases entries.len(),
{
    if entries.len() > 0 {
        lemma_absent(entries.drop_last(), name);
    }
}

/// The first entry with a name is what the table holds for it.
pub proof fn lemma_first<V>(entries: Seq<(Seq<char>, V)>, i: int, name: Seq<char>)
    requires
        0 <= i < entries.len(),
        entries[i].0 == name,
        forall|j: int| 0 <= j < i ==> (#[trigger] entries[j]).0 != name,
    ensures
        first_wins(entries).contains_key(name),
        first_wins(entries)[name] == entries[i].1,
    decreases entries.len(),
{
    if i == entries.len() - 1 {
        lemma_absent(entries.drop_last(), name);
    } else {
        lemma_first(entries.drop_last(), i, name);
    }
}

/// The entries that a list of symbols stands for.
pub open spec fn symbol_entries(symbols: Seq<Symbol>) -> Seq<(Seq<char>, SymbolView)> {
    Seq::new(symbols.len(), |i: int| (symbols[i].name@, symbols[i]@))
}

/// The entries that a list of signatures stands for.
pub open spec fn signature_entries(signatures: Seq<FunctionSignature>) -> Seq<
    (Seq<char>, FunctionSignatureView),
> {
    Seq::new(signatures.len(), |i: int| (signatures[i].name@, signatures[i]@))
}

/// The binding that `name` resolves to: that of the innermost scope that
/// has one. The innermost scope is the last.
pub open spec fn lookup(scopes: Seq<Bindings>, name: Seq<char>) -> Option<SymbolView>
    decreases scopes.len(),
{
    if scopes.len() == 0 {
        None
    } else if scopes.last().contains_key(name) {
        Some(scopes.last()[name])
    } else {
        lookup(scopes.drop_last(), name)
    }
}

/// The scopes after `symbol` was added to the innermost one.
pub open spec fn with_binding(scopes: Seq<Bindings>, symbol: SymbolView) -> Seq<Bindings>
    recommends
        scopes.len() > 0,
{
    scopes.update(scopes.len() - 1, scopes.last().insert(symbol.name, symbol))
}

/// One lexical scope: its bindings, and the scope that encloses it.
#[derive(Debug)]
pub struct Scope {
    parent: Option<usize>,
    bindings: Vec<Symbol>,
}

impl View for Scope {
    type V = Bindings;

    closed spec fn view(&self) -> Bindings {
        first_wins(symbol_entries(self.bindings@))
    }
}

impl Scope {
    fn new(parent: Option<usize>) -> (scope: Scope)
        ensures
            scope@ == Map::<Seq<char>, SymbolView>::empty(),
            scope.parent == parent,
    {
        Scope { parent, bindings: Vec::new() }
    }

    /// The binding of `name` in this scope.
    fn find(&self, name: &String) -> (found: Option<&Symbol>)
        ensures
            match found {
                Some(symbol) => self@.contains_key(name@) && self@[name@] == symbol@,
                None => !self@.contains_key(name@),
            },
    {
        let mut i: usize = 0;
        while i < self.bindings.len()
            invariant
                i <= self.bindings.len(),
                forall|j: int| 0 <= j < i ==> (#[trigger] self.bindings[j]).name@ != name@,
            decreases self.bindings.len() - i,
        {
            if self.bindings[i].name == *name {
                proof {
                    lemma_first(symbol_entries(self.bindings@), i as int, name@);
                }
                return Some(&self.bindings[i]);
            }
            i += 1;
        }
        proof {
            lemma_absent(symbol_entries(self.bindings@), name@);
        }
        None
    }
}

/// The error of `declare`: the name is already bound in the current scope.
#[derive(Clone, Copy, Debug, PartialEq, Eq, Structural)]
pub struct DuplicateDeclaration {
    /// Where the earlier binding was declared.
    pub declared_at: SourcePosition,
}

/// Mathematical model of the scope manager.
pub struct ScopeManagerView {
    /// The chain of open scopes, the global one first, the current one last.
    pub scopes: Seq<Bindings>,
    pub functions: Signatures,
}

/// The open scopes and the declared functions.
///
/// The scopes are kept in an arena; each records the index of the scope that
/// encloses it. Functions live in a namespace of their own.
#[derive(Debug)]
pub struct ScopeManager {
    scopes: Vec<Scope>,
    functions: Vec<FunctionSignature>,
}

impl View for ScopeManager {
    type V = ScopeManagerView;

    closed spec fn view(&self) -> ScopeManagerView {
        ScopeManagerView {
            scopes: Seq::new(self.scopes.len() as nat, |i: int| self.scopes[i]@),
            functions: first_wins(signature_entries(self.functions@)),
        }
    }
}

impl ScopeManager {
    /// The global scope is open, and every other scope records the scope
    /// before it in the arena as its parent.
    pub closed spec fn wf(&self) -> bool {
        &&& self.scopes.len() > 0
        &&& forall|i: int|
            0 <= i < self.scopes.len() ==> (#[trigger] self.scopes[i]).parent == (if i == 0 {
                None
            } else {
                Some((i - 1) as usize)
            })
    }

    /// A manager with the global scope open and no function declared.
    pub fn new() -> (manager: ScopeManager)
        ensures
            manager.wf(),
            manager@.scopes == seq![Map::<Seq<char>, SymbolView>::empty()],
            manager@.functions == Map::<Seq<char>, FunctionSignatureView>::empty(),
    {
        let mut scopes: Vec<Scope> = Vec::new();
        scopes.push(Scope::new(None));
        let manager = ScopeManager { scopes, functions: Vec::new() };
        assert(manager@.scopes =~= seq![Map::<Seq<char>, SymbolView>::empty()]);
        manager
    }

    /// The number of open scopes is one that a machine word holds.
    pub proof fn lemma_depth_fits(&self)
        ensures
            self@.scopes.len() <= usize::MAX,
    {
    }

    /// The number of open scopes; the global scope is always among them.
    pub fn depth(&self) -> (depth: usize)
        requires
            self.wf(),
        ensures
            depth == self@.scopes.len(),
            depth > 0,
    {
        self.scopes.len()
    }

    /// Opens a scope inside the current one.
    pub fn enter_scope(&mut self)
        requires
            old(self).wf(),
        ensures
            final(self).wf(),
            final(self)@.scopes == old(self)@.scopes.push(Map::empty()),
            final(self)@.functions == old(self)@.functions,
    {
        let parent = self.scopes.len() - 1;
        self.scopes.push(Scope::new(Some(parent)));
        assert(self@.scopes =~= old(self)@.scopes.push(Map::empty()));
    }

    /// Closes the current scope and returns to the one that encloses it.
    /// The global scope stays open.
    pub fn exit_scope(&mut self)
        requires
            old(self).wf(),
        ensures
            final(self).wf(),
            final(self)@.scopes == if old(self)@.scopes.len() > 1 {
                old(self)@.scopes.drop_last()
            } else {
                old(self)@.scopes
            },
            final(self)@.functions == old(self)@.functions,
    {
        if self.scopes.len() > 1 {
            self.scopes.pop();
            assert(self@.scopes =~= old(self)@.scopes.drop_last());
        }
    }

    /// Binds `name` in the current scope, unless that scope binds it already.
    /// A binding of an enclosing scope is shadowed, not an obstacle.
    pub fn declare(&mut self, name: String, ty: Type, mutable: bool, at: SourcePosition) -> (done:
        Result<(), DuplicateDeclaration>)
        requires
            old(self).wf(),
        ensures
            final(self).wf(),
            final(self)@.functions == old(self)@.functions,
            match done {
                Ok(_) => {
                    &&& !old(self)@.scopes.last().contains_key(name@)
                    &&& final(self)@.scopes == with_binding(
                        old(self)@.scopes,
                        SymbolView { name: name@, ty: ty@, mutable, declared_at: at },
                    )
                },
                Err(duplicate) => {
                    &&& old(self)@.scopes.last().contains_key(name@)
                    &&& duplicate.declared_at == old(self)@.scopes.last()[name@].declared_at
                    &&& final(self)@ == old(self)@
                },
            },
    {
        let current = self.scopes.len() - 1;
        match self.scopes[current].find(&name) {
            Some(symbol) => { return Err(DuplicateDeclaration { declared_at: symbol.declared_at }); },
            None => {},
        }
        let ghost before = self.scopes[current as int].bindings@;
        let symbol = Symbol { name, ty, mutable, declared_at: at };
        let ghost model = symbol@;
        let mut scope = self.scopes.pop().unwrap();
        scope.bindings.push(symbol);
        proof {
            assert(symbol_entries(scope.bindings@).drop_last() =~= symbol_entries(before));
        }
        self.scopes.push(scope);
        proof {
            assert(self@.scopes =~= with_binding(old(self)@.scopes, model));
        }
        Ok(())
    }

    /// The binding that `name` resolves to: the current scope is searched
    /// first, then each enclosing scope in turn.
    pub fn lookup(&self, name: &String) -> (found: Option<&Symbol>)
        requires
            self.wf(),
        ensures
            match found {
                Some(symbol) => lookup(self@.scopes, name@) == Some(symbol@),
                None => lookup(self@.scopes, name@) is None,
            },
    {
        let mut index: usize = self.scopes.len() - 1;
        assert(self@.scopes.take(index + 1) =~= self@.scopes);
        loop
            invariant
                self.wf(),
                index < self.scopes.len(),
                lookup(self@.scopes, name@) == lookup(self@.scopes.take(index + 1), name@),
            decreases index,
        {
            let ghost searched = self@.scopes.take(index + 1);
            assert(searched.last() == self.scopes[index as int]@);
            let scope = &self.scopes[index];
            match scope.find(name) {
                Some(symbol) => {
                    return Some(symbol);
                },
                None => {},
            }
            match scope.parent {
                Some(parent) => {
                    assert(searched.drop_last() =~= self@.scopes.take(parent + 1));
                    index = parent;
                },
                None => {
                    assert(index == 0);
                    assert(searched.drop_last().len() == 0);
                    assert(lookup(searched.drop_last(), name@) is None);
                    return None;
                },
            }
        }
    }

    /// The signature of the function `name`. Functions have a namespace of
    /// their own: a variable of the same name does not hide one.
    pub fn lookup_function(&self, name: &String) -> (found: Option<&FunctionSignature>)
        ensures
            match found {
                Some(signature) => self@.functions.contains_key(name@) && self@.functions[name@]
                    == signature@,
                None => !self@.functions.contains_key(name@),
            },
    {
        let mut i: usize = 0;
        while i < self.functions.len()
            invariant
                i <= self.functions.len(),
                forall|j: int| 0 <= j < i ==> (#[trigger] self.functions[j]).name@ != name@,
            decreases self.functions.len() - i,
        {
            if self.functions[i].name == *name {
                proof {
                    lemma_first(signature_entries(self.functions@), i as int, name@);
                }
                return Some(&self.functions[i]);
            }
            i += 1;
        }
        proof {
            lemma_absent(signature_entries(self.functions@), name@);
        }
        None
    }

    /// Records the signature of a function, unless one of that name is
    /// recorded already: the first declaration is the one that counts.
    pub fn register_function(&mut self, signature: FunctionSignature) -> (added: bool)
        requires
            old(self).wf(),
        ensures
            final(self).wf(),
            final(self)@.scopes == old(self)@.scopes,
            added == !old(self)@.functions.contains_key(signature.name@),
            final(self)@.functions == if added {
                old(self)@.functions.insert(signature.name@, signature@)
            } else {
                old(self)@.functions
            },
    {
        if self.lookup_function(&signature.name).is_some() {
            return false;
        }
        let ghost before = self.functions@;
        self.functions.push(signature);
        proof {
            assert(signature_entries(self.functions@).drop_last() =~= signature_entries(before));
            assert(self@.scopes =~= old(self)@.scopes);
        }
        true
    }
}

} // verus!

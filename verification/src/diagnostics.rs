//! Diagnostics: what the analyzer reports, and how each report is worded.

use crate::position::SourcePosition;
use crate::text::{decimal, decimal_text, quote, quoted};
use crate::types::{spelled, Type, TypeView};
use vstd::prelude::*;

verus! {

/// The rule that a diagnostic reports as broken.
#[derive(Clone, Copy, Debug, PartialEq, Eq, Structural)]
pub enum ErrorKind {
    UndeclaredVariable,
    UndeclaredFunction,
    AssignToImmutable,
    DuplicateDeclaration,
    TypeMismatch,
    InconsistentArrayType,
    NonIntegerIndex,
    NonBooleanCondition,
    ArityMismatch,
    ArgumentTypeMismatch,
    ReturnTypeMismatch,
    ReturnOutsideFunction,
    BreakOutsideLoop,
    MissingReturn,
}

/// Mathematical model of a diagnostic.
pub struct DiagnosticView {
    pub kind: ErrorKind,
    pub message: Seq<char>,
    pub position: SourcePosition,
}

/// One reported violation.
#[derive(Debug, PartialEq, Eq)]
pub struct Diagnostic {
    pub kind: ErrorKind,
    pub message: String,
    pub position: SourcePosition,
}

impl View for Diagnostic {
    type V = DiagnosticView;

    open spec fn view(&self) -> DiagnosticView {
        DiagnosticView { kind: self.kind, message: self.message@, position: self.position }
    }
}

impl Clone for Diagnostic {
    fn clone(&self) -> (copy: Diagnostic)
        ensures
            copy@ == self@,
    {
        Diagnostic { kind: self.kind, message: self.message.clone(), position: self.position }
    }
}

/// The models of a sequence of diagnostics, in order.
pub open spec fn diagnostic_views(items: Seq<Diagnostic>) -> Seq<DiagnosticView> {
    Seq::new(items.len(), |i: int| items[i]@)
}

/// The diagnostics collector: what was reported so far, in order.
#[derive(Debug)]
pub struct Collector {
    items: Vec<Diagnostic>,
}

impl View for Collector {
    type V = Seq<DiagnosticView>;

    closed spec fn view(&self) -> Seq<DiagnosticView> {
        diagnostic_views(self.items@)
    }
}

impl Collector {
    /// A collector that holds nothing.
    pub fn new() -> (collector: Collector)
        ensures
            collector@ == Seq::<DiagnosticView>::empty(),
    {
        let collector = Collector { items: Vec::new() };
        assert(collector@ =~= Seq::<DiagnosticView>::empty());
        collector
    }

    /// Adds a diagnostic after those reported before.
    pub fn report(&mut self, diagnostic: Diagnostic)
        ensures
            final(self)@ == old(self)@.push(diagnostic@),
    {
        self.items.push(diagnostic);
        assert(self@ =~= old(self)@.push(diagnostic@));
    }

    /// The number of diagnostics reported.
    pub fn len(&self) -> (count: usize)
        ensures
            count == self@.len(),
    {
        self.items.len()
    }

    /// Hands out what was reported, in the order of the reports.
    pub fn finish(self) -> (items: Vec<Diagnostic>)
        ensures
            diagnostic_views(items@) == self@,
    {
        self.items
    }
}

/// `lead`, the expected type, `", found "` and the type found.
pub open spec fn expected_found(lead: Seq<char>, expected: TypeView, found: TypeView) -> Seq<
    char,
> {
    lead + spelled(expected) + ", found "@ + spelled(found)
}

/// `lead`, then the type found.
pub open spec fn found_only(lead: Seq<char>, found: TypeView) -> Seq<char> {
    lead + spelled(found)
}

/// The report of a name that no variable in scope has.
pub open spec fn undeclared_variable(name: Seq<char>, at: SourcePosition) -> DiagnosticView {
    DiagnosticView {
        kind: ErrorKind::UndeclaredVariable,
        message: "undeclared variable "@ + quoted(name),
        position: at,
    }
}

/// The report of a call of a function that the program does not declare.
pub open spec fn undeclared_function(name: Seq<char>, at: SourcePosition) -> DiagnosticView {
    DiagnosticView {
        kind: ErrorKind::UndeclaredFunction,
        message: "undeclared function "@ + quoted(name),
        position: at,
    }
}

/// The report of an assignment to a variable that was not declared `mut`.
pub open spec fn assign_to_immutable(name: Seq<char>, at: SourcePosition) -> DiagnosticView {
    DiagnosticView {
        kind: ErrorKind::AssignToImmutable,
        message: "cannot assign to immutable variable "@ + quoted(name),
        position: at,
    }
}

/// The report of a second declaration of a name in one scope.
pub open spec fn duplicate_declaration(name: Seq<char>, at: SourcePosition) -> DiagnosticView {
    DiagnosticView {
        kind: ErrorKind::DuplicateDeclaration,
        message: "duplicate declaration of "@ + quoted(name),
        position: at,
    }
}

/// The report of a value of type `found` where `expected` is required.
pub open spec fn type_mismatch(
    expected: TypeView,
    found: TypeView,
    at: SourcePosition,
) -> DiagnosticView {
    DiagnosticView {
        kind: ErrorKind::TypeMismatch,
        message: expected_found("type mismatch: expected "@, expected, found),
        position: at,
    }
}

/// The report of operands of types that the operation does not accept.
pub open spec fn operand_mismatch(
    left: TypeView,
    right: TypeView,
    at: SourcePosition,
) -> DiagnosticView {
    DiagnosticView {
        kind: ErrorKind::TypeMismatch,
        message: "invalid operand types "@ + spelled(left) + " and "@ + spelled(right),
        position: at,
    }
}

/// The report of a value that is indexed or iterated and is no array.
pub open spec fn not_an_array(found: TypeView, at: SourcePosition) -> DiagnosticView {
    DiagnosticView {
        kind: ErrorKind::TypeMismatch,
        message: found_only("expected an array, found "@, found),
        position: at,
    }
}

/// The report of an array literal whose elements do not share one type.
pub open spec fn inconsistent_array(at: SourcePosition) -> DiagnosticView {
    DiagnosticView {
        kind: ErrorKind::InconsistentArrayType,
        message: "array elements do not share one type"@,
        position: at,
    }
}

/// The report of an array index that is not an integer.
pub open spec fn non_integer_index(found: TypeView, at: SourcePosition) -> DiagnosticView {
    DiagnosticView {
        kind: ErrorKind::NonIntegerIndex,
        message: found_only("array index must be i32, found "@, found),
        position: at,
    }
}

/// The report of a condition that is not a boolean.
pub open spec fn non_boolean_condition(found: TypeView, at: SourcePosition) -> DiagnosticView {
    DiagnosticView {
        kind: ErrorKind::NonBooleanCondition,
        message: found_only("condition must be bool, found "@, found),
        position: at,
    }
}

/// The report of a call with another number of arguments than the function
/// declares; it cites both numbers.
pub open spec fn arity_mismatch(
    name: Seq<char>,
    expected: nat,
    supplied: nat,
    at: SourcePosition,
) -> DiagnosticView {
    DiagnosticView {
        kind: ErrorKind::ArityMismatch,
        message: "function "@ + quoted(name) + " expected "@ + decimal(expected)
            + " arguments, got "@ + decimal(supplied),
        position: at,
    }
}

/// The report of an argument of another type than its parameter.
pub open spec fn argument_type_mismatch(
    expected: TypeView,
    found: TypeView,
    at: SourcePosition,
) -> DiagnosticView {
    DiagnosticView {
        kind: ErrorKind::ArgumentTypeMismatch,
        message: expected_found("argument type mismatch: expected "@, expected, found),
        position: at,
    }
}

/// The report of a returned value of another type than the function declares.
pub open spec fn return_type_mismatch(
    expected: TypeView,
    found: TypeView,
    at: SourcePosition,
) -> DiagnosticView {
    DiagnosticView {
        kind: ErrorKind::ReturnTypeMismatch,
        message: expected_found("return type mismatch: expected "@, expected, found),
        position: at,
    }
}

/// The report of a `return` outside of every function body.
pub open spec fn return_outside_function(at: SourcePosition) -> DiagnosticView {
    DiagnosticView {
        kind: ErrorKind::ReturnOutsideFunction,
        message: "`return` outside of a function"@,
        position: at,
    }
}

/// The report of a `break` outside of every loop of its function.
pub open spec fn break_outside_loop(at: SourcePosition) -> DiagnosticView {
    DiagnosticView {
        kind: ErrorKind::BreakOutsideLoop,
        message: "`break` outside of a loop"@,
        position: at,
    }
}

/// The report of a function that declares a result and can end without
/// `return`.
pub open spec fn missing_return(name: Seq<char>, at: SourcePosition) -> DiagnosticView {
    DiagnosticView {
        kind: ErrorKind::MissingReturn,
        message: "function "@ + quoted(name) + " can end without returning a value"@,
        position: at,
    }
}

fn expected_found_text(lead: &str, expected: &Type, found: &Type) -> (text: String)
    ensures
        text@ == expected_found(lead@, expected@, found@),
{
    let mut text = String::from_str(lead);
    let first = expected.name();
    text.append(first.as_str());
    text.append(", found ");
    let second = found.name();
    text.append(second.as_str());
    text
}

fn found_only_text(lead: &str, found: &Type) -> (text: String)
    ensures
        text@ == found_only(lead@, found@),
{
    let mut text = String::from_str(lead);
    let name = found.name();
    text.append(name.as_str());
    text
}

fn named_text(lead: &str, name: &String) -> (text: String)
    ensures
        text@ == lead@ + quoted(name@),
{
    let mut text = String::from_str(lead);
    let q = quote(name);
    text.append(q.as_str());
    text
}

impl Diagnostic {
    /// A name is used where no variable of that name is in scope.
    pub fn undeclared_variable(name: &String, at: SourcePosition) -> (d: Diagnostic)
        ensures
            d@ == undeclared_variable(name@, at),
    {
        Diagnostic {
            kind: ErrorKind::UndeclaredVariable,
            message: named_text("undeclared variable ", name),
            position: at,
        }
    }

    /// A call names a function that the program does not declare.
    pub fn undeclared_function(name: &String, at: SourcePosition) -> (d: Diagnostic)
        ensures
            d@ == undeclared_function(name@, at),
    {
        Diagnostic {
            kind: ErrorKind::UndeclaredFunction,
            message: named_text("undeclared function ", name),
            position: at,
        }
    }

    /// An assignment targets a variable that was not declared `mut`.
    pub fn assign_to_immutable(name: &String, at: SourcePosition) -> (d: Diagnostic)
        ensures
            d@ == assign_to_immutable(name@, at),
    {
        Diagnostic {
            kind: ErrorKind::AssignToImmutable,
            message: named_text("cannot assign to immutable variable ", name),
            position: at,
        }
    }

    /// A name is declared a second time in one scope.
    pub fn duplicate_declaration(name: &String, at: SourcePosition) -> (d: Diagnostic)
        ensures
            d@ == duplicate_declaration(name@, at),
    {
        Diagnostic {
            kind: ErrorKind::DuplicateDeclaration,
            message: named_text("duplicate declaration of ", name),
            position: at,
        }
    }

    /// A value of type `found` stands where `expected` is required.
    pub fn type_mismatch(expected: &Type, found: &Type, at: SourcePosition) -> (d: Diagnostic)
        ensures
            d@ == type_mismatch(expected@, found@, at),
    {
        Diagnostic {
            kind: ErrorKind::TypeMismatch,
            message: expected_found_text("type mismatch: expected ", expected, found),
            position: at,
        }
    }

    /// The operands of a binary operation have types it does not accept.
    pub fn operand_mismatch(left: &Type, right: &Type, at: SourcePosition) -> (d: Diagnostic)
        ensures
            d@ == operand_mismatch(left@, right@, at),
    {
        let mut text = String::from_str("invalid operand types ");
        let first = left.name();
        text.append(first.as_str());
        text.append(" and ");
        let second = right.name();
        text.append(second.as_str());
        Diagnostic { kind: ErrorKind::TypeMismatch, message: text, position: at }
    }

    /// A value that is no array is indexed or iterated.
    pub fn not_an_array(found: &Type, at: SourcePosition) -> (d: Diagnostic)
        ensures
            d@ == not_an_array(found@, at),
    {
        Diagnostic {
            kind: ErrorKind::TypeMismatch,
            message: found_only_text("expected an array, found ", found),
            position: at,
        }
    }

    /// The elements of an array literal do not share one type.
    pub fn inconsistent_array(at: SourcePosition) -> (d: Diagnostic)
        ensures
            d@ == inconsistent_array(at),
    {
        Diagnostic {
            kind: ErrorKind::InconsistentArrayType,
            message: String::from_str("array elements do not share one type"),
            position: at,
        }
    }

    /// An array index is not an integer.
    pub fn non_integer_index(found: &Type, at: SourcePosition) -> (d: Diagnostic)
        ensures
            d@ == non_integer_index(found@, at),
    {
        Diagnostic {
            kind: ErrorKind::NonIntegerIndex,
            message: found_only_text("array index must be i32, found ", found),
            position: at,
        }
    }

    /// The condition of an `if` is not a boolean.
    pub fn non_boolean_condition(found: &Type, at: SourcePosition) -> (d: Diagnostic)
        ensures
            d@ == non_boolean_condition(found@, at),
    {
        Diagnostic {
            kind: ErrorKind::NonBooleanCondition,
            message: found_only_text("condition must be bool, found ", found),
            position: at,
        }
    }

    /// A call supplies another number of arguments than the function declares.
    pub fn arity_mismatch(
        name: &String,
        expected: usize,
        supplied: usize,
        at: SourcePosition,
    ) -> (d: Diagnostic)
        ensures
            d@ == arity_mismatch(name@, expected as nat, supplied as nat, at),
    {
        let mut text = named_text("function ", name);
        text.append(" expected ");
        let first = decimal_text(expected);
        text.append(first.as_str());
        text.append(" arguments, got ");
        let second = decimal_text(supplied);
        text.append(second.as_str());
        Diagnostic { kind: ErrorKind::ArityMismatch, message: text, position: at }
    }

    /// An argument has another type than the parameter it is passed for.
    pub fn argument_type_mismatch(expected: &Type, found: &Type, at: SourcePosition) -> (d:
        Diagnostic)
        ensures
            d@ == argument_type_mismatch(expected@, found@, at),
    {
        Diagnostic {
            kind: ErrorKind::ArgumentTypeMismatch,
            message: expected_found_text("argument type mismatch: expected ", expected, found),
            position: at,
        }
    }

    /// A returned value has another type than the function declares.
    pub fn return_type_mismatch(expected: &Type, found: &Type, at: SourcePosition) -> (d:
        Diagnostic)
        ensures
            d@ == return_type_mismatch(expected@, found@, at),
    {
        Diagnostic {
            kind: ErrorKind::ReturnTypeMismatch,
            message: expected_found_text("return type mismatch: expected ", expected, found),
            position: at,
        }
    }

    /// A `return` stands outside of every function body.
    pub fn return_outside_function(at: SourcePosition) -> (d: Diagnostic)
        ensures
            d@ == return_outside_function(at),
    {
        Diagnostic {
            kind: ErrorKind::ReturnOutsideFunction,
            message: String::from_str("`return` outside of a function"),
            position: at,
        }
    }

    /// A `break` stands outside of every loop of its function.
    pub fn break_outside_loop(at: SourcePosition) -> (d: Diagnostic)
        ensures
            d@ == break_outside_loop(at),
    {
        Diagnostic {
            kind: ErrorKind::BreakOutsideLoop,
            message: String::from_str("`break` outside of a loop"),
            position: at,
        }
    }

    /// A function that declares a result can reach its end without `return`.
    pub fn missing_return(name: &String, at: SourcePosition) -> (d: Diagnostic)
        ensures
            d@ == missing_return(name@, at),
    {
        let mut text = named_text("function ", name);
        text.append(" can end without returning a value");
        Diagnostic { kind: ErrorKind::MissingReturn, message: text, position: at }
    }
}

} // verus!

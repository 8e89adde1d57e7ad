//! The abstract syntax tree that the analyzer reads.
//!
//! Every node carries the position of its first token. Literals keep their
//! source text; the analyzer only looks at their form.

use crate::position::SourcePosition;
use crate::types::{Type, TypeView};
use vstd::prelude::*;

verus! {

/// The lexical form of a literal, which fixes its type.
#[derive(Clone, Copy, Debug, PartialEq, Eq, Structural)]
pub enum LiteralForm {
    /// Digits without a decimal point.
    Integer,
    /// Digits with a decimal point.
    Decimal,
    /// `true` or `false`.
    Boolean,
    /// A character between single quotes.
    Character,
    /// Text between double quotes.
    Text,
}

/// `+ - * / %`
#[derive(Clone, Copy, Debug, PartialEq, Eq, Structural)]
pub enum Arithmetic {
    Add,
    Sub,
    Mul,
    Div,
    Rem,
}

/// `== != < > <= >=`
#[derive(Clone, Copy, Debug, PartialEq, Eq, Structural)]
pub enum Comparison {
    Equal,
    /// `!=`, the one spelling of inequality.
    NotEqual,
    Less,
    Greater,
    LessOrEqual,
    GreaterOrEqual,
}

/// `&& ||`
#[derive(Clone, Copy, Debug, PartialEq, Eq, Structural)]
pub enum Logical {
    And,
    Or,
}

/// A binary operator, by the family whose typing rule it follows.
#[derive(Clone, Copy, Debug, PartialEq, Eq, Structural)]
pub enum BinaryOp {
    Arithmetic(Arithmetic),
    Comparison(Comparison),
    Logical(Logical),
}

/// Mathematical model of an expression.
pub enum ExprView {
    Literal { form: LiteralForm, text: Seq<char>, at: SourcePosition },
    Identifier { name: Seq<char>, at: SourcePosition },
    Array { elements: Seq<ExprView>, at: SourcePosition },
    Index { base: Box<ExprView>, index: Box<ExprView>, at: SourcePosition },
    Binary { op: BinaryOp, left: Box<ExprView>, right: Box<ExprView>, at: SourcePosition },
    Not { operand: Box<ExprView>, at: SourcePosition },
    Call { callee: Seq<char>, arguments: Seq<ExprView>, at: SourcePosition },
}

/// An expression.
#[derive(Debug, PartialEq, Eq)]
pub enum Expr {
    Literal { form: LiteralForm, text: String, at: SourcePosition },
    Identifier { name: String, at: SourcePosition },
    /// `[e1, e2, ...]`
    Array { elements: Vec<Expr>, at: SourcePosition },
    /// `base[index]`
    Index { base: Box<Expr>, index: Box<Expr>, at: SourcePosition },
    Binary { op: BinaryOp, left: Box<Expr>, right: Box<Expr>, at: SourcePosition },
    /// `!operand`
    Not { operand: Box<Expr>, at: SourcePosition },
    /// `callee(arguments)`
    Call { callee: String, arguments: Vec<Expr>, at: SourcePosition },
}

/// The models of a sequence of expressions, in order.
pub open spec fn expr_views(items: Seq<Expr>) -> Seq<ExprView>
    decreases items,
{
    if items.len() == 0 {
        Seq::empty()
    } else {
        expr_views(items.drop_last()).push(items.last().view())
    }
}

/// `expr_views` goes element by element.
pub proof fn lemma_expr_views(items: Seq<Expr>)
    ensures
        expr_views(items).len() == items.len(),
        forall|i: int| 0 <= i < items.len() ==> #[trigger] expr_views(items)[i] == items[i]@,
    decreases items.len(),
{
    if items.len() > 0 {
        lemma_expr_views(items.drop_last());
        assert(expr_views(items) == expr_views(items.drop_last()).push(items.last()@));
    }
}

impl View for Expr {
    type V = ExprView;

    open spec fn view(&self) -> ExprView
        decreases self,
    {
        match self {
            Expr::Literal { form, text, at } => ExprView::Literal {
                form: *form,
                text: text@,
                at: *at,
            },
            Expr::Identifier { name, at } => ExprView::Identifier { name: name@, at: *at },
            Expr::Array { elements, at } => ExprView::Array {
                elements: expr_views(elements@),
                at: *at,
            },
            Expr::Index { base, index, at } => ExprView::Index {
                base: Box::new((**base).view()),
                index: Box::new((**index).view()),
                at: *at,
            },
            Expr::Binary { op, left, right, at } => ExprView::Binary {
                op: *op,
                left: Box::new((**left).view()),
                right: Box::new((**right).view()),
                at: *at,
            },
            Expr::Not { operand, at } => ExprView::Not {
                operand: Box::new((**operand).view()),
                at: *at,
            },
            Expr::Call { callee, arguments, at } => ExprView::Call {
                callee: callee@,
                arguments: expr_views(arguments@),
                at: *at,
            },
        }
    }
}

/// The model of an optional expression.
pub open spec fn option_expr_view(e: Option<Expr>) -> Option<ExprView> {
    match e {
        Some(e) => Some(e@),
        None => None,
    }
}

/// The position of an expression's first token.
pub open spec fn position_of(e: ExprView) -> SourcePosition {
    match e {
        ExprView::Literal { at, .. } => at,
        ExprView::Identifier { at, .. } => at,
        ExprView::Array { at, .. } => at,
        ExprView::Index { at, .. } => at,
        ExprView::Binary { at, .. } => at,
        ExprView::Not { at, .. } => at,
        ExprView::Call { at, .. } => at,
    }
}

impl Expr {
    /// A literal of the given form, with its source text.
    pub fn literal(form: LiteralForm, text: &str, at: SourcePosition) -> (e: Expr)
        ensures
            e@ == (ExprView::Literal { form, text: text@, at }),
    {
        Expr::Literal { form, text: String::from_str(text), at }
    }

    /// A use of the variable `name`.
    pub fn identifier(name: &str, at: SourcePosition) -> (e: Expr)
        ensures
            e@ == (ExprView::Identifier { name: name@, at }),
    {
        Expr::Identifier { name: String::from_str(name), at }
    }

    /// The array literal of the given elements.
    pub fn array(elements: Vec<Expr>, at: SourcePosition) -> (e: Expr)
        ensures
            e@ == (ExprView::Array { elements: expr_views(elements@), at }),
    {
        Expr::Array { elements, at }
    }

    /// `base[index]`
    pub fn index(base: Expr, index: Expr, at: SourcePosition) -> (e: Expr)
        ensures
            e@ == (ExprView::Index { base: Box::new(base@), index: Box::new(index@), at }),
    {
        Expr::Index { base: Box::new(base), index: Box::new(index), at }
    }

    /// `left op right`
    pub fn binary(op: BinaryOp, left: Expr, right: Expr, at: SourcePosition) -> (e: Expr)
        ensures
            e@ == (ExprView::Binary { op, left: Box::new(left@), right: Box::new(right@), at }),
    {
        Expr::Binary { op, left: Box::new(left), right: Box::new(right), at }
    }

    /// `!operand`
    pub fn not(operand: Expr, at: SourcePosition) -> (e: Expr)
        ensures
            e@ == (ExprView::Not { operand: Box::new(operand@), at }),
    {
        Expr::Not { operand: Box::new(operand), at }
    }

    /// `callee(arguments)`
    pub fn call(callee: &str, arguments: Vec<Expr>, at: SourcePosition) -> (e: Expr)
        ensures
            e@ == (ExprView::Call { callee: callee@, arguments: expr_views(arguments@), at }),
    {
        Expr::Call { callee: String::from_str(callee), arguments, at }
    }

    /// The position of the expression's first token.
    pub fn position(&self) -> (at: SourcePosition)
        ensures
            at == position_of(self@),
    {
        match self {
            Expr::Literal { at, .. } => *at,
            Expr::Identifier { at, .. } => *at,
            Expr::Array { at, .. } => *at,
            Expr::Index { at, .. } => *at,
            Expr::Binary { at, .. } => *at,
            Expr::Not { at, .. } => *at,
            Expr::Call { at, .. } => *at,
        }
    }
}

/// Mathematical model of a parameter.
pub struct ParameterView {
    pub name: Seq<char>,
    pub ty: TypeView,
    pub at: SourcePosition,
}

/// A parameter of a function declaration.
#[derive(Debug, PartialEq, Eq)]
pub struct Parameter {
    pub name: String,
    pub ty: Type,
    pub at: SourcePosition,
}

impl View for Parameter {
    type V = ParameterView;

    open spec fn view(&self) -> ParameterView {
        ParameterView { name: self.name@, ty: self.ty@, at: self.at }
    }
}

impl Parameter {
    /// The parameter `name: ty`.
    pub fn new(name: &str, ty: Type, at: SourcePosition) -> (p: Parameter)
        ensures
            p@ == (ParameterView { name: name@, ty: ty@, at }),
    {
        Parameter { name: String::from_str(name), ty, at }
    }
}

impl Clone for Parameter {
    fn clone(&self) -> (copy: Parameter)
        ensures
            copy@ == self@,
    {
        Parameter { name: self.name.clone(), ty: self.ty.clone(), at: self.at }
    }
}

/// The models of a sequence of parameters, in order.
pub open spec fn parameter_views(items: Seq<Parameter>) -> Seq<ParameterView> {
    Seq::new(items.len(), |i: int| items[i]@)
}

/// Mathematical model of what a `for` loop runs over.
pub enum IterableView {
    Range { start: ExprView, end: ExprView },
    Elements(ExprView),
}

/// What a `for` loop runs over.
#[derive(Debug, PartialEq, Eq)]
pub enum Iterable {
    /// `start..end`, a range of integers: the loop variable is an `Int`.
    Range { start: Expr, end: Expr },
    /// The elements of an array.
    Elements(Expr),
}

impl View for Iterable {
    type V = IterableView;

    open spec fn view(&self) -> IterableView {
        match self {
            Iterable::Range { start, end } => IterableView::Range { start: start@, end: end@ },
            Iterable::Elements(array) => IterableView::Elements(array@),
        }
    }
}

/// Mathematical model of a statement.
pub enum StmtView {
    Let {
        name: Seq<char>,
        mutable: bool,
        annotation: Option<TypeView>,
        value: ExprView,
        at: SourcePosition,
    },
    Assign { name: Seq<char>, op: Option<Arithmetic>, value: ExprView, at: SourcePosition },
    If {
        condition: ExprView,
        then_branch: Seq<StmtView>,
        else_branch: Option<Seq<StmtView>>,
        at: SourcePosition,
    },
    For { variable: Seq<char>, iterable: IterableView, body: Seq<StmtView>, at: SourcePosition },
    Break { at: SourcePosition },
    Return { result: Option<ExprView>, at: SourcePosition },
    Function {
        name: Seq<char>,
        params: Seq<ParameterView>,
        return_type: TypeView,
        body: Seq<StmtView>,
        at: SourcePosition,
    },
    Block { body: Seq<StmtView>, at: SourcePosition },
    Print { arguments: Seq<ExprView>, at: SourcePosition },
    Expression { value: ExprView },
}

/// A statement.
#[derive(Debug, PartialEq, Eq)]
pub enum Stmt {
    /// `let [mut] name[: annotation] = value;`
    Let { name: String, mutable: bool, annotation: Option<Type>, value: Expr, at: SourcePosition },
    /// `name = value;`, or `name op= value;` where `op` is given.
    Assign { name: String, op: Option<Arithmetic>, value: Expr, at: SourcePosition },
    /// `if condition { then_branch } [else { else_branch }]`
    If {
        condition: Expr,
        then_branch: Vec<Stmt>,
        else_branch: Option<Vec<Stmt>>,
        at: SourcePosition,
    },
    /// `for variable in iterable { body }`
    For { variable: String, iterable: Iterable, body: Vec<Stmt>, at: SourcePosition },
    /// `break;`
    Break { at: SourcePosition },
    /// `return [result];`
    Return { result: Option<Expr>, at: SourcePosition },
    /// `fn name(params) -> return_type { body }`; a function without a
    /// declared result has the return type `Unit`.
    Function {
        name: String,
        params: Vec<Parameter>,
        return_type: Type,
        body: Vec<Stmt>,
        at: SourcePosition,
    },
    /// `{ body }`
    Block { body: Vec<Stmt>, at: SourcePosition },
    /// An output statement such as `println!(arguments);`
    Print { arguments: Vec<Expr>, at: SourcePosition },
    /// `value;`
    Expression { value: Expr },
}

/// The models of a sequence of statements, in order.
pub open spec fn stmt_views(items: Seq<Stmt>) -> Seq<StmtView>
    decreases items,
{
    if items.len() == 0 {
        Seq::empty()
    } else {
        stmt_views(items.drop_last()).push(items.last().view())
    }
}

/// `stmt_views` goes element by element.
pub proof fn lemma_stmt_views(items: Seq<Stmt>)
    ensures
        stmt_views(items).len() == items.len(),
        forall|i: int| 0 <= i < items.len() ==> #[trigger] stmt_views(items)[i] == items[i]@,
    decreases items.len(),
{
    if items.len() > 0 {
        lemma_stmt_views(items.drop_last());
        assert(stmt_views(items) == stmt_views(items.drop_last()).push(items.last()@));
    }
}

impl View for Stmt {
    type V = StmtView;

    open spec fn view(&self) -> StmtView
        decreases self,
    {
        match self {
            Stmt::Let { name, mutable, annotation, value, at } => StmtView::Let {
                name: name@,
                mutable: *mutable,
                annotation: match annotation {
                    Some(t) => Some(t@),
                    None => None,
                },
                value: value@,
                at: *at,
            },
            Stmt::Assign { name, op, value, at } => StmtView::Assign {
                name: name@,
                op: *op,
                value: value@,
                at: *at,
            },
            Stmt::If { condition, then_branch, else_branch, at } => StmtView::If {
                condition: condition@,
                then_branch: stmt_views(then_branch@),
                else_branch: match else_branch {
                    Some(branch) => Some(stmt_views(branch@)),
                    None => None,
                },
                at: *at,
            },
            Stmt::For { variable, iterable, body, at } => StmtView::For {
                variable: variable@,
                iterable: iterable@,
                body: stmt_views(body@),
                at: *at,
            },
            Stmt::Break { at } => StmtView::Break { at: *at },
            Stmt::Return { result, at } => StmtView::Return {
                result: match result {
                    Some(e) => Some(e@),
                    None => None,
                },
                at: *at,
            },
            Stmt::Function { name, params, return_type, body, at } => StmtView::Function {
                name: name@,
                params: parameter_views(params@),
                return_type: return_type@,
                body: stmt_views(body@),
                at: *at,
            },
            Stmt::Block { body, at } => StmtView::Block { body: stmt_views(body@), at: *at },
            Stmt::Print { arguments, at } => StmtView::Print {
                arguments: expr_views(arguments@),
                at: *at,
            },
            Stmt::Expression { value } => StmtView::Expression { value: value@ },
        }
    }
}

/// The model of an optional list of statements.
pub open spec fn option_stmt_views(branch: Option<Vec<Stmt>>) -> Option<Seq<StmtView>> {
    match branch {
        Some(statements) => Some(stmt_views(statements@)),
        None => None,
    }
}

impl Stmt {
    /// `let [mut] name[: annotation] = value;`
    pub fn declaration(
        name: &str,
        mutable: bool,
        annotation: Option<Type>,
        value: Expr,
        at: SourcePosition,
    ) -> (s: Stmt)
        ensures
            s@ == (StmtView::Let {
                name: name@,
                mutable,
                annotation: match annotation {
                    Some(t) => Some(t@),
                    None => None,
                },
                value: value@,
                at,
            }),
    {
        Stmt::Let { name: String::from_str(name), mutable, annotation, value, at }
    }

    /// `name = value;`, or `name op= value;` where `op` is given.
    pub fn assignment(name: &str, op: Option<Arithmetic>, value: Expr, at: SourcePosition) -> (s:
        Stmt)
        ensures
            s@ == (StmtView::Assign { name: name@, op, value: value@, at }),
    {
        Stmt::Assign { name: String::from_str(name), op, value, at }
    }

    /// `if condition { then_branch } [else { else_branch }]`
    pub fn conditional(
        condition: Expr,
        then_branch: Vec<Stmt>,
        else_branch: Option<Vec<Stmt>>,
        at: SourcePosition,
    ) -> (s: Stmt)
        ensures
            s@ == (StmtView::If {
                condition: condition@,
                then_branch: stmt_views(then_branch@),
                else_branch: option_stmt_views(else_branch),
                at,
            }),
    {
        Stmt::If { condition, then_branch, else_branch, at }
    }

    /// `for variable in iterable { body }`
    pub fn for_each(variable: &str, iterable: Iterable, body: Vec<Stmt>, at: SourcePosition) -> (s:
        Stmt)
        ensures
            s@ == (StmtView::For {
                variable: variable@,
                iterable: iterable@,
                body: stmt_views(body@),
                at,
            }),
    {
        Stmt::For { variable: String::from_str(variable), iterable, body, at }
    }

    /// `return [result];`
    pub fn returning(result: Option<Expr>, at: SourcePosition) -> (s: Stmt)
        ensures
            s@ == (StmtView::Return { result: option_expr_view(result), at }),
    {
        Stmt::Return { result, at }
    }

    /// `fn name(params) -> return_type { body }`
    pub fn function(
        name: &str,
        params: Vec<Parameter>,
        return_type: Type,
        body: Vec<Stmt>,
        at: SourcePosition,
    ) -> (s: Stmt)
        ensures
            s@ == (StmtView::Function {
                name: name@,
                params: parameter_views(params@),
                return_type: return_type@,
                body: stmt_views(body@),
                at,
            }),
    {
        Stmt::Function { name: String::from_str(name), params, return_type, body, at }
    }

    /// `{ body }`
    pub fn block(body: Vec<Stmt>, at: SourcePosition) -> (s: Stmt)
        ensures
            s@ == (StmtView::Block { body: stmt_views(body@), at }),
    {
        Stmt::Block { body, at }
    }

    /// An output statement with the given arguments.
    pub fn print(arguments: Vec<Expr>, at: SourcePosition) -> (s: Stmt)
        ensures
            s@ == (StmtView::Print { arguments: expr_views(arguments@), at }),
    {
        Stmt::Print { arguments, at }
    }
}

/// Mathematical model of a program.
pub struct ProgramView {
    pub statements: Seq<StmtView>,
}

/// A parsed program: its top-level statements, in source order.
#[derive(Debug, PartialEq, Eq)]
pub struct Program {
    pub statements: Vec<Stmt>,
}

impl View for Program {
    type V = ProgramView;

    open spec fn view(&self) -> ProgramView {
        ProgramView { statements: stmt_views(self.statements@) }
    }
}

} // verus!

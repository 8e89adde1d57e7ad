//! The type model: the closed set of types and the compatibility rules.

use crate::diagnostics::ErrorKind;
use vstd::prelude::*;

verus! {

/// Mathematical model of a type of the analysed language.
pub enum TypeView {
    Int,
    Float,
    Bool,
    Char,
    Str,
    Array(Box<TypeView>),
    Function(Seq<TypeView>, Box<TypeView>),
    Unit,
    Unknown,
}

/// A type of the analysed language.
///
/// `Unknown` stands for the type of an expression in which an error was
/// already reported; it is compatible with everything so that one mistake
/// is not reported twice.
#[derive(Debug, PartialEq, Eq)]
pub enum Type {
    Int,
    Float,
    Bool,
    Char,
    Str,
    Array(Box<Type>),
    Function(Vec<Type>, Box<Type>),
    Unit,
    Unknown,
}

impl View for Type {
    type V = TypeView;

    open spec fn view(&self) -> TypeView
        decreases self,
    {
        match self {
            Type::Int => TypeView::Int,
            Type::Float => TypeView::Float,
            Type::Bool => TypeView::Bool,
            Type::Char => TypeView::Char,
            Type::Str => TypeView::Str,
            Type::Array(element) => TypeView::Array(Box::new((**element).view())),
            Type::Function(params, result) => TypeView::Function(
                type_views(params@),
                Box::new((**result).view()),
            ),
            Type::Unit => TypeView::Unit,
            Type::Unknown => TypeView::Unknown,
        }
    }
}

/// The declared and the actual type agree: they are identical, or one of them
/// is `Unknown`.
pub open spec fn compatible(declared: TypeView, actual: TypeView) -> bool {
    declared == actual || declared is Unknown || actual is Unknown
}

/// The models of a sequence of types, in order.
pub open spec fn type_views(types: Seq<Type>) -> Seq<TypeView>
    decreases types,
{
    if types.len() == 0 {
        Seq::empty()
    } else {
        type_views(types.drop_last()).push(types.last().view())
    }
}

/// `type_views` goes element by element.
pub proof fn lemma_type_views(types: Seq<Type>)
    ensures
        type_views(types).len() == types.len(),
        forall|i: int| 0 <= i < types.len() ==> #[trigger] type_views(types)[i] == types[i]@,
    decreases types.len(),
{
    if types.len() > 0 {
        lemma_type_views(types.drop_last());
        assert(type_views(types) == type_views(types.drop_last()).push(types.last()@));
    }
}

/// The type shared by all of `types`: the first one, when there is one and
/// every other is identical to it.
pub open spec fn element_type(types: Seq<TypeView>) -> Option<TypeView> {
    if types.len() > 0 && forall|i: int| 0 <= i < types.len() ==> #[trigger] types[i] == types[0] {
        Some(types[0])
    } else {
        None
    }
}

/// Neither the type nor any type it is built from is `Unknown`.
pub open spec fn known(t: TypeView) -> bool
    decreases t,
{
    match t {
        TypeView::Unknown => false,
        TypeView::Array(element) => known(*element),
        TypeView::Function(params, result) => {
            &&& known(*result)
            &&& forall|i: int| 0 <= i < params.len() ==> known(#[trigger] params[i])
        },
        _ => true,
    }
}

/// A known function type is made of known parameter types.
pub proof fn lemma_known_function(params: Seq<TypeView>, result: TypeView, i: int)
    requires
        known(TypeView::Function(params, Box::new(result))),
        0 <= i < params.len(),
    ensures
        known(params[i]),
        known(result),
{
    let whole = TypeView::Function(params, Box::new(result));
    assert(whole->Function_0 == params);
    assert(forall|j: int| 0 <= j < params.len() ==> known(#[trigger] params[j]));
}

/// The way a type is written in messages.
pub open spec fn spelled(t: TypeView) -> Seq<char>
    decreases t,
{
    match t {
        TypeView::Int => "i32"@,
        TypeView::Float => "f64"@,
        TypeView::Bool => "bool"@,
        TypeView::Char => "char"@,
        TypeView::Str => "string"@,
        TypeView::Array(element) => "["@ + spelled(*element) + "]"@,
        TypeView::Function(params, result) => "fn("@ + spelled_list(params) + ") -> "@ + spelled(
            *result,
        ),
        TypeView::Unit => "()"@,
        TypeView::Unknown => "unknown"@,
    }
}

/// The names of `types`, separated by a comma and a space.
pub open spec fn spelled_list(types: Seq<TypeView>) -> Seq<char>
    decreases types,
{
    if types.len() == 0 {
        Seq::empty()
    } else if types.len() == 1 {
        spelled(types[0])
    } else {
        spelled_list(types.drop_last()) + ", "@ + spelled(types.last())
    }
}

impl Clone for Type {
    #[verifier::loop_isolation(false)]
    fn clone(&self) -> (copy: Type)
        ensures
            copy@ == self@,
        decreases self,
    {
        match self {
            Type::Int => Type::Int,
            Type::Float => Type::Float,
            Type::Bool => Type::Bool,
            Type::Char => Type::Char,
            Type::Str => Type::Str,
            Type::Array(element) => Type::Array(Box::new((**element).clone())),
            Type::Function(params, result) => {
                let mut copies: Vec<Type> = Vec::new();
                let mut i: usize = 0;
                while i < params.len()
                    invariant
                        i <= params.len(),
                        copies.len() == i,
                        forall|j: int| 0 <= j < i ==> copies[j]@ == params[j]@,
                    decreases params.len() - i,
                {
                    copies.push(params[i].clone());
                    i += 1;
                }
                let r = Type::Function(copies, Box::new((**result).clone()));
                assert(r@ == self@) by {
                    lemma_type_views(params@);
                    lemma_type_views(copies@);
                    assert(type_views(copies@) =~= type_views(params@));
                }
                r
            },
            Type::Unit => Type::Unit,
            Type::Unknown => Type::Unknown,
        }
    }
}

impl Type {
    /// Structural equality of two types.
    #[verifier::loop_isolation(false)]
    pub fn same(&self, other: &Type) -> (equal: bool)
        ensures
            equal == (self@ == other@),
        decreases self,
    {
        match (self, other) {
            (Type::Int, Type::Int) => true,
            (Type::Float, Type::Float) => true,
            (Type::Bool, Type::Bool) => true,
            (Type::Char, Type::Char) => true,
            (Type::Str, Type::Str) => true,
            (Type::Unit, Type::Unit) => true,
            (Type::Unknown, Type::Unknown) => true,
            (Type::Array(a), Type::Array(b)) => (**a).same(&**b),
            (Type::Function(ps, r), Type::Function(qs, s)) => {
                proof {
                    lemma_type_views(ps@);
                    lemma_type_views(qs@);
                }
                if ps.len() != qs.len() {
                    assert(type_views(ps@).len() != type_views(qs@).len());
                    return false;
                }
                let mut i: usize = 0;
                while i < ps.len()
                    invariant
                        i <= ps.len(),
                        ps.len() == qs.len(),
                        forall|j: int| 0 <= j < i ==> ps[j]@ == qs[j]@,
                    decreases ps.len() - i,
                {
                    if !ps[i].same(&qs[i]) {
                        assert(type_views(ps@)[i as int] != type_views(qs@)[i as int]);
                        return false;
                    }
                    i += 1;
                }
                assert(type_views(ps@) =~= type_views(qs@));
                (**r).same(&**s)
            },
            _ => false,
        }
    }
}

impl Type {
    /// The way the type is written in messages.
    #[verifier::loop_isolation(false)]
    pub fn name(&self) -> (text: String)
        ensures
            text@ == spelled(self@),
        decreases self,
    {
        match self {
            Type::Int => String::from_str("i32"),
            Type::Float => String::from_str("f64"),
            Type::Bool => String::from_str("bool"),
            Type::Char => String::from_str("char"),
            Type::Str => String::from_str("string"),
            Type::Array(element) => {
                let mut text = String::from_str("[");
                let inner = (**element).name();
                text.append(inner.as_str());
                text.append("]");
                text
            },
            Type::Function(params, result) => {
                let ghost models = type_views(params@);
                proof {
                    lemma_type_views(params@);
                }
                let mut list = String::new();
                let mut i: usize = 0;
                while i < params.len()
                    invariant
                        i <= params.len(),
                        list@ == spelled_list(models.take(i as int)),
                    decreases params.len() - i,
                {
                    if i > 0 {
                        list.append(", ");
                    }
                    let item = params[i].name();
                    list.append(item.as_str());
                    proof {
                        let next = models.take(i + 1);
                        assert(next.drop_last() =~= models.take(i as int));
                        assert(next.last() == params[i as int]@);
                    }
                    i += 1;
                }
                assert(models.take(params.len() as int) =~= models);
                let mut text = String::from_str("fn(");
                text.append(list.as_str());
                text.append(") -> ");
                let last = (**result).name();
                text.append(last.as_str());
                text
            },
            Type::Unit => String::from_str("()"),
            Type::Unknown => String::from_str("unknown"),
        }
    }

    /// Whether neither the type nor any type it is built from is
    /// `Unknown`.
    #[verifier::loop_isolation(false)]
    pub fn is_known(&self) -> (yes: bool)
        ensures
            yes == known(self@),
        decreases self,
    {
        match self {
            Type::Unknown => false,
            Type::Array(element) => (**element).is_known(),
            Type::Function(params, result) => {
                proof {
                    lemma_type_views(params@);
                }
                let mut i: usize = 0;
                while i < params.len()
                    invariant
                        i <= params.len(),
                        forall|j: int| 0 <= j < i ==> known(#[trigger] type_views(params@)[j]),
                    decreases params.len() - i,
                {
                    if !params[i].is_known() {
                        proof {
                            let models = type_views(params@);
                            assert(!known(models[i as int]));
                            let whole = TypeView::Function(models, Box::new((**result)@));
                            assert(self@ == whole);
                            assert(0 <= i < models.len());
                            if known(whole) {
                                lemma_known_function(models, (**result)@, i as int);
                            }
                            assert(!known(self@));
                        }
                        return false;
                    }
                    i += 1;
                }
                (**result).is_known()
            },
            _ => true,
        }
    }

    /// Whether this is the `Unit` type.
    pub fn is_unit(&self) -> (unit: bool)
        ensures
            unit == (self@ is Unit),
    {
        match self {
            Type::Unit => true,
            _ => false,
        }
    }

    /// Whether this is the `Unknown` type.
    pub fn is_unknown(&self) -> (unknown: bool)
        ensures
            unknown == (self@ is Unknown),
    {
        match self {
            Type::Unknown => true,
            _ => false,
        }
    }
}

/// The element type of an array whose elements have the given types: the
/// first type, when all the others are identical to it.
///
/// Any other list, the empty one included, has no element type.
pub fn array_element_type(types: &Vec<Type>) -> (shared: Result<Type, ErrorKind>)
    ensures
        match shared {
            Ok(t) => element_type(type_views(types@)) == Some(t@),
            Err(kind) => element_type(type_views(types@)) is None
                && kind == ErrorKind::InconsistentArrayType,
        },
{
    proof {
        lemma_type_views(types@);
    }
    if types.len() == 0 {
        return Err(ErrorKind::InconsistentArrayType);
    }
    let mut i: usize = 1;
    while i < types.len()
        invariant
            1 <= i <= types.len(),
            forall|j: int| 0 <= j < i ==> (#[trigger] types[j])@ == types[0]@,
        decreases types.len() - i,
    {
        if !types[i].same(&types[0]) {
            proof {
                lemma_type_views(types@);
                assert(type_views(types@)[i as int] != type_views(types@)[0]);
            }
            return Err(ErrorKind::InconsistentArrayType);
        }
        i += 1;
    }
    proof {
        lemma_type_views(types@);
    }
    Ok(types[0].clone())
}

/// Whether a value of type `actual` may stand where `declared` is expected.
pub fn types_compatible(declared: &Type, actual: &Type) -> (ok: bool)
    ensures
        ok == compatible(declared@, actual@),
{
    match declared {
        Type::Unknown => true,
        _ => match actual {
            Type::Unknown => true,
            _ => declared.same(actual),
        },
    }
}

} // verus!

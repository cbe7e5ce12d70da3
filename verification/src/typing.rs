//! The types of expressions.

use vstd::prelude::*;
use vstd::string::*;
use crate::ast::{BinaryExpression, Expression, UnaryExpression};
use crate::error::SemanticError;
use crate::scope::{Scope, texts_view};
use crate::emission::{size_of_value, type_of};

verus! {

/// Whether an executable result stands for a specified type.
pub open spec fn typed_as(
    r: Result<String, SemanticError>,
    expected: Result<Seq<char>, SemanticError>,
) -> bool {
    match expected {
        Ok(t) => r is Ok && r->Ok_0@ == t,
        Err(e) => r is Err && r->Err_0 == e,
    }
}

impl UnaryExpression {
    /// The type of the expression: `nanpa` for a number, `linja` for a
    /// string literal, the declared type of a variable, the return type of
    /// a called function.
    pub fn get_type(&self, scope: &Scope) -> (r: Result<String, SemanticError>)
        ensures
            typed_as(r, type_of(self@, scope@)),
    {
        match self {
            UnaryExpression::Nanpa(_) => Ok("nanpa".to_owned()),
            UnaryExpression::Linja(_) => Ok("linja".to_owned()),
            UnaryExpression::Nimi(nimi) => {
                let (variable, _) = scope.get_variable(&nimi.value)?;
                Ok(variable.var_type.clone())
            },
            UnaryExpression::O(o) => {
                let function = scope.get_function(&o.nimi.value)?;
                match &function.return_type {
                    Some(t) => Ok(t.clone()),
                    None => Err(SemanticError::NoReturnValue),
                }
            },
        }
    }
}

impl BinaryExpression {
    /// The type of the expression: the one type of its two sides.
    pub fn get_type(&self, scope: &Scope) -> (r: Result<String, SemanticError>)
        ensures
            typed_as(r, type_of(self@, scope@)),
        decreases self,
    {
        let lhstype = self.lhs.get_type(scope)?;
        let rhstype = self.rhs.get_type(scope)?;
        if lhstype == rhstype {
            Ok(rhstype)
        } else {
            Err(SemanticError::TypeMismatch)
        }
    }
}

impl Expression {
    /// The type of the expression.
    pub fn get_type(&self, scope: &Scope) -> (r: Result<String, SemanticError>)
        ensures
            typed_as(r, type_of(self@, scope@)),
        decreases self,
    {
        match self {
            Expression::Unary(unary) => unary.get_type(scope),
            Expression::Binary(binary) => binary.get_type(scope),
        }
    }

    /// The size, in bytes, of the values of the expression.
    pub fn get_size(&self, scope: &Scope) -> (r: Result<usize, SemanticError>)
        ensures
            match size_of_value(self@, scope@) {
                Ok(size) => r == Ok::<usize, SemanticError>(size as usize) && size <= usize::MAX,
                Err(e) => r == Err::<usize, SemanticError>(e),
            },
    {
        let t = self.get_type(scope)?;
        scope.size_of(&t)
    }
}

/// Whether two lists of texts are equal.
pub fn same_texts(a: &Vec<String>, b: &Vec<String>) -> (r: bool)
    ensures
        r == (texts_view(a@) == texts_view(b@)),
{
    if a.len() != b.len() {
        assert(texts_view(a@).len() != texts_view(b@).len());
        return false;
    }
    let mut i: usize = 0;
    while i < a.len()
        invariant
            i <= a.len() == b.len(),
            forall|j: int| 0 <= j < i ==> a@[j]@ == b@[j]@,
        decreases a.len() - i,
    {
        if a[i] != b[i] {
            assert(texts_view(a@)[i as int] != texts_view(b@)[i as int]);
            return false;
        }
        i += 1;
    }
    assert(texts_view(a@) =~= texts_view(b@));
    true
}

} // verus!

//! Measurements that may be undefined.

use crate::scalar::Scalar;
use vstd::prelude::*;

verus! {

/// A length that is either known or left open.
#[derive(Clone, Copy, Debug, PartialEq, Eq, Structural, Hash)]
pub enum Number {
    Defined(Scalar),
    Undefined,
}

/// Conversion of a plain value into a defined [`Number`].
pub trait ToNumber: Sized {
    /// The number that `to_number` returns.
    spec fn to_number_spec(self) -> Number;

    fn to_number(self) -> (r: Number)
        ensures
            r == self.to_number_spec(),
    ;
}

/// A value with a fallback for the undefined case.
pub trait OrElse<T>: Sized {
    /// The value that `or_else` returns.
    spec fn or_else_spec(self, other: T) -> T;

    fn or_else(self, other: T) -> (r: T)
        ensures
            r == self.or_else_spec(other),
    ;
}

/// Bounds that apply only where they are defined.
pub trait MinMax<In, Out>: Sized {
    /// The value that `maybe_min` returns.
    spec fn maybe_min_spec(self, rhs: In) -> Out;

    /// The value that `maybe_max` returns.
    spec fn maybe_max_spec(self, rhs: In) -> Out;

    fn maybe_min(self, rhs: In) -> (r: Out)
        ensures
            r == self.maybe_min_spec(rhs),
    ;

    fn maybe_max(self, rhs: In) -> (r: Out)
        ensures
            r == self.maybe_max_spec(rhs),
    ;
}

impl Default for Number {
    fn default() -> (r: Number)
        ensures
            r == Number::Undefined,
    {
        Number::Undefined
    }
}

impl OrElse<Scalar> for Number {
    open spec fn or_else_spec(self, other: Scalar) -> Scalar {
        match self {
            Number::Defined(val) => val,
            Number::Undefined => other,
        }
    }

    fn or_else(self, other: Scalar) -> (r: Scalar) {
        match self {
            Number::Defined(val) => val,
            Number::Undefined => other,
        }
    }
}

impl OrElse<Number> for Number {
    open spec fn or_else_spec(self, other: Number) -> Number {
        match self {
            Number::Defined(_) => self,
            Number::Undefined => other,
        }
    }

    fn or_else(self, other: Number) -> (r: Number) {
        match self {
            Number::Defined(_) => self,
            Number::Undefined => other,
        }
    }
}

impl MinMax<Number, Number> for Number {
    open spec fn maybe_min_spec(self, rhs: Number) -> Number {
        match self {
            Number::Defined(val) => match rhs {
                Number::Defined(other) => Number::Defined(val.min(other)),
                Number::Undefined => self,
            },
            Number::Undefined => Number::Undefined,
        }
    }

    open spec fn maybe_max_spec(self, rhs: Number) -> Number {
        match self {
            Number::Defined(val) => match rhs {
                Number::Defined(other) => Number::Defined(val.max(other)),
                Number::Undefined => self,
            },
            Number::Undefined => Number::Undefined,
        }
    }

    fn maybe_min(self, rhs: Number) -> (r: Number) {
        match self {
            Number::Defined(val) => match rhs {
                Number::Defined(other) => Number::Defined(val.min(other)),
                Number::Undefined => self,
            },
            Number::Undefined => Number::Undefined,
        }
    }

    fn maybe_max(self, rhs: Number) -> (r: Number) {
        match self {
            Number::Defined(val) => match rhs {
                Number::Defined(other) => Number::Defined(val.max(other)),
                Number::Undefined => self,
            },
            Number::Undefined => Number::Undefined,
        }
    }
}

impl MinMax<Scalar, Number> for Number {
    open spec fn maybe_min_spec(self, rhs: Scalar) -> Number {
        match self {
            Number::Defined(val) => Number::Defined(val.min(rhs)),
            Number::Undefined => Number::Undefined,
        }
    }

    open spec fn maybe_max_spec(self, rhs: Scalar) -> Number {
        match self {
            Number::Defined(val) => Number::Defined(val.max(rhs)),
            Number::Undefined => Number::Undefined,
        }
    }

    fn maybe_min(self, rhs: Scalar) -> (r: Number) {
        match self {
            Number::Defined(val) => Number::Defined(val.min(rhs)),
            Number::Undefined => Number::Undefined,
        }
    }

    fn maybe_max(self, rhs: Scalar) -> (r: Number) {
        match self {
            Number::Defined(val) => Number::Defined(val.max(rhs)),
            Number::Undefined => Number::Undefined,
        }
    }
}

impl MinMax<Number, Scalar> for Scalar {
    open spec fn maybe_min_spec(self, rhs: Number) -> Scalar {
        match rhs {
            Number::Defined(val) => self.min(val),
            Number::Undefined => self,
        }
    }

    open spec fn maybe_max_spec(self, rhs: Number) -> Scalar {
        match rhs {
            Number::Defined(val) => self.max(val),
            Number::Undefined => self,
        }
    }

    fn maybe_min(self, rhs: Number) -> (r: Scalar) {
        match rhs {
            Number::Defined(val) => self.min(val),
            Number::Undefined => self,
        }
    }

    fn maybe_max(self, rhs: Number) -> (r: Scalar) {
        match rhs {
            Number::Defined(val) => self.max(val),
            Number::Undefined => self,
        }
    }
}

impl ToNumber for Scalar {
    open spec fn to_number_spec(self) -> Number {
        Number::Defined(self)
    }

    fn to_number(self) -> (r: Number) {
        Number::Defined(self)
    }
}

impl Number {
    pub open spec fn spec_is_defined(self) -> bool {
        self is Defined
    }

    /// Whether the number holds a value.
    #[verifier::when_used_as_spec(spec_is_defined)]
    pub fn is_defined(self) -> (r: bool)
        ensures
            r == self.spec_is_defined(),
    {
        match self {
            Number::Defined(_) => true,
            Number::Undefined => false,
        }
    }

    pub open spec fn spec_is_undefined(self) -> bool {
        self is Undefined
    }

    /// Whether the number holds no value.
    #[verifier::when_used_as_spec(spec_is_undefined)]
    pub fn is_undefined(self) -> (r: bool)
        ensures
            r == self.spec_is_undefined(),
    {
        match self {
            Number::Defined(_) => false,
            Number::Undefined => true,
        }
    }

    /// Sum; undefined as soon as one operand is.
    pub open spec fn spec_add(self, rhs: Number) -> Number {
        match (self, rhs) {
            (Number::Defined(a), Number::Defined(b)) => Number::Defined(a.add(b)),
            _ => Number::Undefined,
        }
    }

    #[verifier::when_used_as_spec(spec_add)]
    pub fn add(self, rhs: Number) -> (r: Number)
        ensures
            r == self.spec_add(rhs),
    {
        match (self, rhs) {
            (Number::Defined(a), Number::Defined(b)) => Number::Defined(a.add(b)),
            _ => Number::Undefined,
        }
    }

    /// Difference; undefined as soon as one operand is.
    pub open spec fn spec_sub(self, rhs: Number) -> Number {
        match (self, rhs) {
            (Number::Defined(a), Number::Defined(b)) => Number::Defined(a.sub(b)),
            _ => Number::Undefined,
        }
    }

    #[verifier::when_used_as_spec(spec_sub)]
    pub fn sub(self, rhs: Number) -> (r: Number)
        ensures
            r == self.spec_sub(rhs),
    {
        match (self, rhs) {
            (Number::Defined(a), Number::Defined(b)) => Number::Defined(a.sub(b)),
            _ => Number::Undefined,
        }
    }

    /// Product; undefined as soon as one operand is.
    pub open spec fn spec_mul(self, rhs: Number) -> Number {
        match (self, rhs) {
            (Number::Defined(a), Number::Defined(b)) => Number::Defined(a.mul(b)),
            _ => Number::Undefined,
        }
    }

    #[verifier::when_used_as_spec(spec_mul)]
    pub fn mul(self, rhs: Number) -> (r: Number)
        ensures
            r == self.spec_mul(rhs),
    {
        match (self, rhs) {
            (Number::Defined(a), Number::Defined(b)) => Number::Defined(a.mul(b)),
            _ => Number::Undefined,
        }
    }

    /// Quotient; undefined as soon as one operand is.
    pub open spec fn spec_div(self, rhs: Number) -> Number {
        match (self, rhs) {
            (Number::Defined(a), Number::Defined(b)) => Number::Defined(a.div(b)),
            _ => Number::Undefined,
        }
    }

    #[verifier::when_used_as_spec(spec_div)]
    pub fn div(self, rhs: Number) -> (r: Number)
        ensures
            r == self.spec_div(rhs),
    {
        match (self, rhs) {
            (Number::Defined(a), Number::Defined(b)) => Number::Defined(a.div(b)),
            _ => Number::Undefined,
        }
    }

    /// Sum with a plain value.
    pub open spec fn spec_add_scalar(self, rhs: Scalar) -> Number {
        self.spec_add(Number::Defined(rhs))
    }

    #[verifier::when_used_as_spec(spec_add_scalar)]
    pub fn add_scalar(self, rhs: Scalar) -> (r: Number)
        ensures
            r == self.spec_add_scalar(rhs),
    {
        self.add(Number::Defined(rhs))
    }

    /// Difference with a plain value.
    pub open spec fn spec_sub_scalar(self, rhs: Scalar) -> Number {
        self.spec_sub(Number::Defined(rhs))
    }

    #[verifier::when_used_as_spec(spec_sub_scalar)]
    pub fn sub_scalar(self, rhs: Scalar) -> (r: Number)
        ensures
            r == self.spec_sub_scalar(rhs),
    {
        self.sub(Number::Defined(rhs))
    }

    /// Product with a plain value.
    pub open spec fn spec_mul_scalar(self, rhs: Scalar) -> Number {
        self.spec_mul(Number::Defined(rhs))
    }

    #[verifier::when_used_as_spec(spec_mul_scalar)]
    pub fn mul_scalar(self, rhs: Scalar) -> (r: Number)
        ensures
            r == self.spec_mul_scalar(rhs),
    {
        self.mul(Number::Defined(rhs))
    }

    /// Quotient by a plain value.
    pub open spec fn spec_div_scalar(self, rhs: Scalar) -> Number {
        self.spec_div(Number::Defined(rhs))
    }

    #[verifier::when_used_as_spec(spec_div_scalar)]
    pub fn div_scalar(self, rhs: Scalar) -> (r: Number)
        ensures
            r == self.spec_div_scalar(rhs),
    {
        self.div(Number::Defined(rhs))
    }
}

/// An undefined operand makes the sum, difference, product and quotient
/// undefined, on either side.
pub proof fn lemma_undefined_absorbs(a: Number)
    ensures
        a.add(Number::Undefined) == Number::Undefined,
        Number::Undefined.add(a) == Number::Undefined,
        a.sub(Number::Undefined) == Number::Undefined,
        Number::Undefined.sub(a) == Number::Undefined,
        a.mul(Number::Undefined) == Number::Undefined,
        Number::Undefined.mul(a) == Number::Undefined,
        a.div(Number::Undefined) == Number::Undefined,
        Number::Undefined.div(a) == Number::Undefined,
{
}

/// Two defined operands give the defined result of the scalar operation.
pub proof fn lemma_defined_arithmetic(a: Scalar, b: Scalar)
    ensures
        Number::Defined(a).add(Number::Defined(b)) == Number::Defined(a.add(b)),
        Number::Defined(a).sub(Number::Defined(b)) == Number::Defined(a.sub(b)),
        Number::Defined(a).mul(Number::Defined(b)) == Number::Defined(a.mul(b)),
        Number::Defined(a).div(Number::Defined(b)) == Number::Defined(a.div(b)),
{
}

/// `a.or_else(b)` is `a` where `a` is defined and `b` where it is not.
pub proof fn lemma_or_else(a: Number, b: Number, c: Scalar)
    ensures
        a.is_defined() ==> a.or_else_spec(b) == a,
        a.is_undefined() ==> a.or_else_spec(b) == b,
        a.is_defined() ==> Number::Defined(a.or_else_spec(c)) == a,
        a.is_undefined() ==> a.or_else_spec(c) == c,
{
}

} // verus!

//! Values that may not be known yet.

use crate::error::Error;
use crate::field::{field_add, field_mul, field_sub, lemma_field_closed, Field};
use vstd::prelude::*;

verus! {

/// A field element that is either known or still to be determined, as when
/// only the structure of a circuit is laid out.
#[derive(Clone, Copy, Debug)]
pub enum Value<F: Field> {
    /// A concrete field element.
    Known(F),
    /// No value yet.
    Unknown,
}

impl<F: Field> View for Value<F> {
    type V = Option<nat>;

    /// `Some` of the element's integer, or `None` for the unknown value.
    open spec fn view(&self) -> Option<nat> {
        match *self {
            Value::Known(x) => Some(x.value()),
            Value::Unknown => None,
        }
    }
}

/// The sum of two values modulo `p`, known when both are.
pub open spec fn value_add(p: nat, a: Option<nat>, b: Option<nat>) -> Option<nat> {
    match (a, b) {
        (Some(x), Some(y)) => Some(field_add(p, x, y)),
        _ => None,
    }
}

/// The difference of two values modulo `p`, known when both are.
pub open spec fn value_sub(p: nat, a: Option<nat>, b: Option<nat>) -> Option<nat> {
    match (a, b) {
        (Some(x), Some(y)) => Some(field_sub(p, x, y)),
        _ => None,
    }
}

/// The product of two values modulo `p`, known when both are.
pub open spec fn value_mul(p: nat, a: Option<nat>, b: Option<nat>) -> Option<nat> {
    match (a, b) {
        (Some(x), Some(y)) => Some(field_mul(p, x, y)),
        _ => None,
    }
}

/// A known value is an element of the field of order `p`: an integer below
/// `p`.
pub open spec fn canonical(p: nat, v: Option<nat>) -> bool {
    v matches Some(x) ==> x < p
}

/// Sums, differences and products of values are elements of the field.
pub proof fn lemma_values_closed(p: nat, a: Option<nat>, b: Option<nat>)
    requires
        0 < p,
    ensures
        canonical(p, value_add(p, a, b)),
        canonical(p, value_sub(p, a, b)),
        canonical(p, value_mul(p, a, b)),
{
    if a is Some && b is Some {
        lemma_field_closed(p, a.unwrap(), b.unwrap());
    }
}

impl<F: Field> Value<F> {
    /// A known value.
    pub fn known(x: F) -> (r: Value<F>)
        ensures
            r == Value::Known(x),
    {
        Value::Known(x)
    }

    /// The unknown value.
    pub fn unknown() -> (r: Value<F>)
        ensures
            r == Value::<F>::Unknown,
    {
        Value::Unknown
    }

    /// Whether the value is known.
    pub fn is_known(&self) -> (r: bool)
        ensures
            r == self@.is_some(),
    {
        match self {
            Value::Known(_) => true,
            Value::Unknown => false,
        }
    }

    /// Reads the concrete value, which fails with `Error::Synthesis` exactly
    /// when there is none.
    pub fn assign(&self) -> (r: Result<F, Error>)
        ensures
            match r {
                Ok(x) => *self == Value::Known(x),
                Err(e) => *self == Value::<F>::Unknown && e == Error::Synthesis,
            },
    {
        match self {
            Value::Known(x) => Ok(*x),
            Value::Unknown => Err(Error::Synthesis),
        }
    }

    /// The sum, known when both operands are.
    pub fn add(&self, rhs: &Value<F>) -> (r: Value<F>)
        ensures
            r@ == value_add(F::order(), self@, rhs@),
    {
        match (self, rhs) {
            (Value::Known(x), Value::Known(y)) => Value::Known(x.add(y)),
            _ => Value::Unknown,
        }
    }

    /// The difference, known when both operands are.
    pub fn sub(&self, rhs: &Value<F>) -> (r: Value<F>)
        ensures
            r@ == value_sub(F::order(), self@, rhs@),
    {
        match (self, rhs) {
            (Value::Known(x), Value::Known(y)) => Value::Known(x.sub(y)),
            _ => Value::Unknown,
        }
    }

    /// The product, known when both operands are.
    pub fn mul(&self, rhs: &Value<F>) -> (r: Value<F>)
        ensures
            r@ == value_mul(F::order(), self@, rhs@),
    {
        match (self, rhs) {
            (Value::Known(x), Value::Known(y)) => Value::Known(x.mul(y)),
            _ => Value::Unknown,
        }
    }

    /// Every value is an element of the field, or unknown.
    pub proof fn lemma_canonical(self)
        ensures
            1 < F::order(),
            canonical(F::order(), self@),
    {
        F::lemma_order();
        match self {
            Value::Known(x) => {
                x.lemma_value_below_order();
            },
            Value::Unknown => {},
        }
    }
}

impl<F: Field> PartialEq for Value<F> {
    fn eq(&self, other: &Value<F>) -> (r: bool) {
        match (self, other) {
            (Value::Known(x), Value::Known(y)) => x.equals(y),
            (Value::Unknown, Value::Unknown) => true,
            _ => false,
        }
    }
}

impl<F: Field> vstd::std_specs::cmp::PartialEqSpecImpl for Value<F> {
    open spec fn obeys_eq_spec() -> bool {
        true
    }

    open spec fn eq_spec(&self, other: &Value<F>) -> bool {
        self@ == other@
    }
}

impl<F: Field> Eq for Value<F> {

}

} // verus!

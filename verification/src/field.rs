//! Prime fields: what the engine asks of a field, and the Pallas base field,
//! held in canonical little-endian bytes.
//!
//! The arithmetic of the Pallas base field is performed by `pasta_curves`;
//! this module states what it computes in terms of integers modulo the field
//! order.

use halo2_proofs::pasta::group::ff::PrimeField;
use halo2_proofs::pasta::Fp;
use vstd::arithmetic::div_mod::{
    lemma_fundamental_div_mod_converse, lemma_mod_bound, lemma_small_mod,
};
use vstd::prelude::*;

verus! {

/// Addition modulo `p`.
pub open spec fn field_add(p: nat, a: nat, b: nat) -> nat {
    (a + b) % p
}

/// Subtraction modulo `p`.
pub open spec fn field_sub(p: nat, a: nat, b: nat) -> nat {
    ((a as int - b as int) % (p as int)) as nat
}

/// Multiplication modulo `p`.
pub open spec fn field_mul(p: nat, a: nat, b: nat) -> nat {
    (a * b) % p
}

/// Sums, differences and products modulo `p` are below `p`.
pub proof fn lemma_field_closed(p: nat, a: nat, b: nat)
    requires
        0 < p,
    ensures
        field_add(p, a, b) < p,
        field_sub(p, a, b) < p,
        field_mul(p, a, b) < p,
{
    lemma_mod_bound((a + b) as int, p as int);
    lemma_mod_bound(a as int - b as int, p as int);
    assert(a * b >= 0) by (nonlinear_arith);
    lemma_mod_bound((a * b) as int, p as int);
}

/// A difference modulo `p` is zero exactly when the two elements are equal.
pub proof fn lemma_field_sub_zero(p: nat, a: nat, b: nat)
    requires
        a < p,
        b < p,
    ensures
        field_sub(p, a, b) == 0 <==> a == b,
{
    if a >= b {
        lemma_small_mod((a - b) as nat, p);
    } else {
        lemma_fundamental_div_mod_converse(a as int - b as int, p as int, -1, a - b + p);
    }
}

/// Multiplying by one changes nothing, and multiplying by zero gives zero.
pub proof fn lemma_field_mul_unit(p: nat, a: nat)
    requires
        a < p,
    ensures
        field_mul(p, a, 1) == a,
        field_mul(p, a, 0) == 0,
{
    assert(a * 1 == a) by (nonlinear_arith);
    assert(a * 0 == 0) by (nonlinear_arith);
    lemma_small_mod(a, p);
    lemma_small_mod(0, p);
}

/// A prime field, as far as the engine uses it: its elements stand for the
/// integers below the field order, and are added, subtracted, multiplied and
/// compared as such.
pub trait Field: Copy {
    /// The number of elements of the field.
    spec fn order() -> nat;

    /// The element as an integer in `0..order()`.
    spec fn value(&self) -> nat;

    /// The field has more than one element.
    proof fn lemma_order()
        ensures
            1 < Self::order(),
    ;

    /// Every element is below the order.
    proof fn lemma_value_below_order(&self)
        ensures
            self.value() < Self::order(),
    ;

    /// The additive identity.
    fn zero() -> (r: Self)
        ensures
            r.value() == 0,
    ;

    /// The multiplicative identity.
    fn one() -> (r: Self)
        ensures
            r.value() == 1,
    ;

    /// The element congruent to `v`.
    fn from_u64(v: u64) -> (r: Self)
        ensures
            r.value() == (v as nat) % Self::order(),
    ;

    /// The sum of two elements.
    fn add(&self, rhs: &Self) -> (r: Self)
        ensures
            r.value() == field_add(Self::order(), self.value(), rhs.value()),
    ;

    /// The difference of two elements.
    fn sub(&self, rhs: &Self) -> (r: Self)
        ensures
            r.value() == field_sub(Self::order(), self.value(), rhs.value()),
    ;

    /// The product of two elements.
    fn mul(&self, rhs: &Self) -> (r: Self)
        ensures
            r.value() == field_mul(Self::order(), self.value(), rhs.value()),
    ;

    /// Whether this is the additive identity.
    fn is_zero(&self) -> (r: bool)
        ensures
            r == (self.value() == 0),
    ;

    /// Whether two elements are the same.
    fn equals(&self, other: &Self) -> (r: bool)
        ensures
            r == (self.value() == other.value()),
    ;
}

/// The order `p` of the Pallas base field.
pub open spec fn modulus() -> nat {
    0x40000000000000000000000000000000224698fc094cf91b992d30ed00000001nat
}

/// The integer that a little-endian byte string denotes.
pub open spec fn le_value(bytes: Seq<u8>) -> nat
    decreases bytes.len(),
{
    if bytes.len() == 0 {
        0
    } else {
        bytes[0] as nat + 256 * le_value(bytes.skip(1))
    }
}

/// Two byte strings of one length that denote the same integer are equal.
pub proof fn lemma_le_value_injective(a: Seq<u8>, b: Seq<u8>)
    requires
        a.len() == b.len(),
        le_value(a) == le_value(b),
    ensures
        a == b,
    decreases a.len(),
{
    if a.len() > 0 {
        lemma_le_value_injective(a.skip(1), b.skip(1));
        assert forall|i: int| 0 <= i < a.len() implies a[i] == b[i] by {
            if i > 0 {
                assert(a[i] == a.skip(1)[i - 1]);
                assert(b[i] == b.skip(1)[i - 1]);
            }
        }
    }
    assert(a =~= b);
}

/// A byte string of zeros denotes zero.
pub proof fn lemma_le_value_zeros(a: Seq<u8>)
    requires
        forall|i: int| 0 <= i < a.len() ==> a[i] == 0,
    ensures
        le_value(a) == 0,
    decreases a.len(),
{
    if a.len() > 0 {
        lemma_le_value_zeros(a.skip(1));
    }
}

/// An element of the Pallas base field.
#[derive(Clone, Copy, Debug)]
pub struct Fe {
    bytes: [u8; 32],
}

impl Fe {
    /// The representation is canonical: the bytes denote an integer below `p`.
    #[verifier::type_invariant]
    pub closed spec fn canonical(self) -> bool {
        le_value(self.bytes@) < modulus()
    }

    /// The canonical little-endian encoding.
    pub fn to_bytes(&self) -> (r: [u8; 32])
        ensures
            le_value(r@) == self.value(),
            le_value(r@) < modulus(),
    {
        proof {
            use_type_invariant(self);
            lemma_small_mod(le_value(self.bytes@), modulus());
        }
        self.bytes
    }
}

impl Field for Fe {
    open spec fn order() -> nat {
        modulus()
    }

    closed spec fn value(&self) -> nat {
        le_value(self.bytes@) % modulus()
    }

    proof fn lemma_order() {
    }

    proof fn lemma_value_below_order(&self) {
    }

    fn zero() -> (r: Fe) {
        let mut bytes = [0u8; 32];
        let mut i: usize = 0;
        while i < 32
            invariant
                i <= 32,
                forall|j: int| 0 <= j < i ==> bytes@[j] == 0,
            decreases 32 - i,
        {
            bytes[i] = 0;
            i += 1;
        }
        proof {
            lemma_le_value_zeros(bytes@);
            lemma_small_mod(0, modulus());
        }
        Fe { bytes }
    }

    fn one() -> (r: Fe) {
        fp_from_u64(1)
    }

    fn from_u64(v: u64) -> (r: Fe) {
        fp_from_u64(v)
    }

    fn add(&self, rhs: &Fe) -> (r: Fe) {
        proof {
            use_type_invariant(self);
            use_type_invariant(rhs);
        }
        fp_add(self, rhs)
    }

    fn sub(&self, rhs: &Fe) -> (r: Fe) {
        proof {
            use_type_invariant(self);
            use_type_invariant(rhs);
        }
        fp_sub(self, rhs)
    }

    fn mul(&self, rhs: &Fe) -> (r: Fe) {
        proof {
            use_type_invariant(self);
            use_type_invariant(rhs);
        }
        fp_mul(self, rhs)
    }

    fn is_zero(&self) -> (r: bool) {
        let zero = Fe::zero();
        self.equals(&zero)
    }

    fn equals(&self, other: &Fe) -> (r: bool) {
        proof {
            use_type_invariant(self);
            use_type_invariant(other);
            lemma_small_mod(le_value(self.bytes@), modulus());
            lemma_small_mod(le_value(other.bytes@), modulus());
        }
        let mut i: usize = 0;
        while i < 32
            invariant
                i <= 32,
                forall|j: int| 0 <= j < i ==> self.bytes@[j] == other.bytes@[j],
                self.value() == le_value(self.bytes@),
                other.value() == le_value(other.bytes@),
            decreases 32 - i,
        {
            if self.bytes[i] != other.bytes[i] {
                proof {
                    if le_value(self.bytes@) == le_value(other.bytes@) {
                        lemma_le_value_injective(self.bytes@, other.bytes@);
                    }
                }
                return false;
            }
            i += 1;
        }
        assert(self.bytes@ =~= other.bytes@);
        true
    }
}

impl PartialEq for Fe {
    fn eq(&self, other: &Fe) -> (r: bool) {
        self.equals(other)
    }
}

impl vstd::std_specs::cmp::PartialEqSpecImpl for Fe {
    open spec fn obeys_eq_spec() -> bool {
        true
    }

    open spec fn eq_spec(&self, other: &Fe) -> bool {
        self.value() == other.value()
    }
}

impl Eq for Fe {

}

/// `Fp::from(u64)`: the field element congruent to `v`, which is `v` itself
/// since every `u64` is below the field order. The result is handed back in
/// the canonical encoding that `to_repr` gives.
#[verifier::external_body]
fn fp_from_u64(v: u64) -> (r: Fe)
    ensures
        r.canonical(),
        r.value() == v as nat,
{
    Fe { bytes: Fp::from(v).to_repr() }
}

/// `Fp + Fp`: addition modulo the field order. The operands are decoded with
/// `from_repr`, which accepts exactly the canonical encodings.
#[verifier::external_body]
fn fp_add(a: &Fe, b: &Fe) -> (r: Fe)
    requires
        a.canonical(),
        b.canonical(),
    ensures
        r.canonical(),
        r.value() == field_add(modulus(), a.value(), b.value()),
{
    let x = Fp::from_repr(a.bytes).unwrap();
    let y = Fp::from_repr(b.bytes).unwrap();
    Fe { bytes: (x + y).to_repr() }
}

/// `Fp - Fp`: subtraction modulo the field order.
#[verifier::external_body]
fn fp_sub(a: &Fe, b: &Fe) -> (r: Fe)
    requires
        a.canonical(),
        b.canonical(),
    ensures
        r.canonical(),
        r.value() == field_sub(modulus(), a.value(), b.value()),
{
    let x = Fp::from_repr(a.bytes).unwrap();
    let y = Fp::from_repr(b.bytes).unwrap();
    Fe { bytes: (x - y).to_repr() }
}

/// `Fp * Fp`: multiplication modulo the field order.
#[verifier::external_body]
fn fp_mul(a: &Fe, b: &Fe) -> (r: Fe)
    requires
        a.canonical(),
        b.canonical(),
    ensures
        r.canonical(),
        r.value() == field_mul(modulus(), a.value(), b.value()),
{
    let x = Fp::from_repr(a.bytes).unwrap();
    let y = Fp::from_repr(b.bytes).unwrap();
    Fe { bytes: (x * y).to_repr() }
}

} // verus!

//! The circuit that proves knowledge of `a`, `b` and `c` with
//! `constant * (a * a + b * c) = d` for a public `d`.

use crate::chip::{
    after_add, after_load_constant, after_load_private, after_mul, combined,
    lemma_after_binary, lemma_after_load_constant, lemma_after_load_private, loaded, MyChip,
    MyConfig,
};
use crate::column::{Column, ColumnKind, Selector};
use crate::constraint_system::{ConstraintSystem, ConstraintSystemView, GateView};
use crate::error::Error;
use crate::expression::{Expression, CUR, NEXT};
use crate::field::Field;
use crate::layouter::{Layouter, LayouterView};
use crate::value::{value_add, value_mul, Value};
use vstd::prelude::*;

verus! {

/// The circuit's constant and its three private inputs.
#[derive(Clone, Copy, Debug)]
pub struct MyCircuit<F: Field> {
    pub constant: F,
    pub a: Value<F>,
    pub b: Value<F>,
    pub c: Value<F>,
}

/// The circuit as mathematics.
pub struct CircuitView {
    pub constant: nat,
    pub a: Option<nat>,
    pub b: Option<nat>,
    pub c: Option<nat>,
}

impl<F: Field> View for MyCircuit<F> {
    type V = CircuitView;

    open spec fn view(&self) -> CircuitView {
        CircuitView { constant: self.constant.value(), a: self.a@, b: self.b@, c: self.c@ }
    }
}

impl CircuitView {
    /// The circuit with a zero constant and no witness.
    pub open spec fn blank() -> CircuitView {
        CircuitView { constant: 0, a: None, b: None, c: None }
    }

    /// The value that the circuit exposes: `constant * (a * a + b * c)` in the
    /// field of order `p`, known when the three inputs are.
    pub open spec fn output(self, p: nat) -> Option<nat> {
        value_mul(
            p,
            Some(self.constant),
            value_add(p, value_mul(p, self.a, self.a), value_mul(p, self.b, self.c)),
        )
    }
}

/// The polynomial of a gate that ties the first advice cell of the next row
/// to the two advice cells of this row: `(combine(lhs, rhs) - out) * selector`.
pub open spec fn gate_poly<F: Field>(config: MyConfig, selector: Selector, product: bool)
    -> Expression<F> {
    let lhs = Expression::<F>::ColumnQuery(config.advice[0], CUR);
    let rhs = Expression::<F>::ColumnQuery(config.advice[1], CUR);
    let out = Expression::<F>::ColumnQuery(config.advice[0], NEXT);
    let combined = if product {
        Expression::Mul(Box::new(lhs), Box::new(rhs))
    } else {
        Expression::Add(Box::new(lhs), Box::new(rhs))
    };
    Expression::Mul(
        Box::new(Expression::Sub(Box::new(combined), Box::new(out))),
        Box::new(Expression::SelectorQuery(selector)),
    )
}

/// Multiplication: `(lhs * rhs - out) * s_mul`.
pub open spec fn mul_gate<F: Field>(config: MyConfig) -> GateView<F> {
    GateView { name: "mul"@, polys: seq![gate_poly(config, config.s_mul, true)] }
}

/// Addition: `(lhs + rhs - out) * s_add`.
pub open spec fn add_gate<F: Field>(config: MyConfig) -> GateView<F> {
    GateView { name: "add"@, polys: seq![gate_poly(config, config.s_add, false)] }
}

/// The two gates have different names.
pub proof fn lemma_names_differ()
    ensures
        "mul"@ != "add"@,
{
    reveal_strlit("mul");
    reveal_strlit("add");
    assert("mul"@[0] == 'm');
    assert("add"@[0] == 'a');
}

/// The fixed column that `configure` declares for the constants.
pub open spec fn constants_column<F: Field>(before: ConstraintSystemView<F>) -> Column {
    Column { kind: ColumnKind::Fixed, index: before.num_fixed as usize }
}

/// The columns and selectors that `configure` declares in a registry.
pub open spec fn configured<F: Field>(before: ConstraintSystemView<F>, config: MyConfig) -> bool {
    &&& config.advice[0] == (Column {
        kind: ColumnKind::Advice,
        index: before.num_advice as usize,
    })
    &&& config.advice[1] == (Column {
        kind: ColumnKind::Advice,
        index: (before.num_advice + 1) as usize,
    })
    &&& config.instance == (Column {
        kind: ColumnKind::Instance,
        index: before.num_instance as usize,
    })
    &&& config.s_mul == (Selector { index: before.num_selectors as usize })
    &&& config.s_add == (Selector { index: (before.num_selectors + 1) as usize })
}

/// The registry after `configure`: two advice columns, an instance column, a
/// fixed column for constants, two selectors, equality enabled for the
/// instance column, the constants column and the advice columns, and the two
/// gates.
pub open spec fn after_configure<F: Field>(before: ConstraintSystemView<F>, config: MyConfig)
    -> ConstraintSystemView<F> {
    ConstraintSystemView {
        num_advice: before.num_advice + 2,
        num_instance: before.num_instance + 1,
        num_fixed: before.num_fixed + 1,
        num_selectors: before.num_selectors + 2,
        equality: before.equality.push(config.instance).push(constants_column(before)).push(
            config.advice[0],
        ).push(config.advice[1]),
        constants: before.constants.push(constants_column(before)),
        gates: before.gates.push(mul_gate(config)).push(add_gate(config)),
    }
}

/// The rows that the circuit takes.
pub const CIRCUIT_ROWS: usize = 12;

/// Whether a layouter has room for the circuit: twelve rows, and a cell of the
/// constants column.
pub open spec fn has_room(l: LayouterView) -> bool {
    l.room() >= CIRCUIT_ROWS && l.constants_used < l.table.rows
}

/// The layouter after the circuit was laid out: `a`, `b`, `c` and the
/// constant are loaded, `a * a`, `b * c`, their sum and its product with the
/// constant are computed, and the last is bound to the first public input.
pub open spec fn synthesized(l: LayouterView, config: MyConfig, circuit: CircuitView)
    -> LayouterView {
    let a = loaded(l, config, circuit.a);
    let l1 = after_load_private(l, config, circuit.a);
    let b = loaded(l1, config, circuit.b);
    let l2 = after_load_private(l1, config, circuit.b);
    let c = loaded(l2, config, circuit.c);
    let l3 = after_load_private(l2, config, circuit.c);
    let constant = loaded(l3, config, Some(circuit.constant));
    let l4 = after_load_constant(l3, config, circuit.constant);
    let p = l.table.order;
    let aa = combined(l4, config, value_mul(p, a.value, a.value));
    let l5 = after_mul(l4, config, a, a);
    let bc = combined(l5, config, value_mul(p, b.value, c.value));
    let l6 = after_mul(l5, config, b, c);
    let sum = combined(l6, config, value_add(p, aa.value, bc.value));
    let l7 = after_add(l6, config, aa, bc);
    let d = combined(l7, config, value_mul(p, constant.value, sum.value));
    let l8 = after_mul(l7, config, constant, sum);
    l8.constrain_instance(d.cell, config.instance, 0)
}

impl<F: Field> Default for MyCircuit<F> {
    /// The circuit with a zero constant and no witness.
    fn default() -> (r: MyCircuit<F>)
        ensures
            r@ == CircuitView::blank(),
    {
        MyCircuit {
            constant: F::zero(),
            a: Value::unknown(),
            b: Value::unknown(),
            c: Value::unknown(),
        }
    }
}

impl<F: Field> MyCircuit<F> {
    /// The circuit without its witnesses, for laying out its structure alone.
    pub fn without_witnesses(&self) -> (r: MyCircuit<F>)
        ensures
            r@ == CircuitView::blank(),
    {
        MyCircuit {
            constant: F::zero(),
            a: Value::unknown(),
            b: Value::unknown(),
            c: Value::unknown(),
        }
    }

    /// Declares the circuit's columns, selectors and gates in a registry.
    pub fn configure(meta: &mut ConstraintSystem<F>) -> (config: MyConfig)
        requires
            old(meta)@.num_advice + 2 <= usize::MAX,
            old(meta)@.num_instance + 1 <= usize::MAX,
            old(meta)@.num_fixed + 1 <= usize::MAX,
            old(meta)@.num_selectors + 2 <= usize::MAX,
            !old(meta)@.has_gate("mul"@),
            !old(meta)@.has_gate("add"@),
        ensures
            configured(old(meta)@, config),
            final(meta)@ == after_configure(old(meta)@, config),
            old(meta)@.distinct_names() ==> final(meta)@.distinct_names(),
    {
        let advice = [meta.advice_column(), meta.advice_column()];
        let instance = meta.instance_column();
        let constant = meta.fixed_column();

        meta.enable_equality(instance);
        meta.enable_constant(constant);
        let mut i: usize = 0;
        while i < 2
            invariant
                i <= 2,
                meta@ == (ConstraintSystemView {
                    equality: if i == 0 {
                        old(meta)@.equality.push(instance).push(constant)
                    } else if i == 1 {
                        old(meta)@.equality.push(instance).push(constant).push(advice[0])
                    } else {
                        old(meta)@.equality.push(instance).push(constant).push(advice[0]).push(
                            advice[1],
                        )
                    },
                    num_advice: old(meta)@.num_advice + 2,
                    num_instance: old(meta)@.num_instance + 1,
                    num_fixed: old(meta)@.num_fixed + 1,
                    constants: old(meta)@.constants.push(constant),
                    ..old(meta)@
                }),
            decreases 2 - i,
        {
            meta.enable_equality(advice[i]);
            i += 1;
        }

        let s_mul = meta.selector();
        let s_add = meta.selector();
        let config = MyConfig { advice, instance, s_mul, s_add };

        let lhs = Expression::<F>::query(advice[0], CUR);
        let rhs = Expression::<F>::query(advice[1], CUR);
        let out = Expression::<F>::query(advice[0], NEXT);
        let s = Expression::<F>::selector(s_mul);
        let polys = vec![lhs.mul(rhs).sub(out).mul(s)];
        assert(polys@ =~= seq![gate_poly::<F>(config, config.s_mul, true)]);
        proof {
            lemma_names_differ();
            meta@.lemma_has_gate_after("mul"@, polys@, "add"@);
        }
        meta.create_gate("mul", polys);

        let lhs = Expression::<F>::query(advice[0], CUR);
        let rhs = Expression::<F>::query(advice[1], CUR);
        let out = Expression::<F>::query(advice[0], NEXT);
        let s = Expression::<F>::selector(s_add);
        let polys = vec![lhs.add(rhs).sub(out).mul(s)];
        assert(polys@ =~= seq![gate_poly::<F>(config, config.s_add, false)]);
        meta.create_gate("add", polys);

        config
    }

    /// Lays the circuit out. Fails with `Error::OutOfRows` exactly when the
    /// layouter lacks the room; unknown witnesses are no obstacle.
    pub fn synthesize(&self, config: MyConfig, layouter: Layouter<F>) -> (r: Result<
        Layouter<F>,
        Error,
    >)
        requires
            layouter.wf(),
            config.valid_for(layouter@),
        ensures
            match r {
                Ok(done) => {
                    &&& has_room(layouter@)
                    &&& done.wf()
                    &&& done@ == synthesized(layouter@, config, self@)
                },
                Err(e) => e == Error::OutOfRows && !has_room(layouter@),
            },
    {
        let mut layouter = layouter;
        let chip = MyChip::new(config);
        let ghost l0 = layouter@;
        proof {
            self.a.lemma_canonical();
            self.b.lemma_canonical();
            self.c.lemma_canonical();
            self.constant.lemma_value_below_order();
            if l0.room() >= 1 {
                lemma_after_load_private(l0, config, self.a@);
            }
        }
        let a = chip.load_private(&mut layouter, self.a)?;
        let ghost l1 = layouter@;
        proof {
            if l1.room() >= 1 {
                lemma_after_load_private(l1, config, self.b@);
            }
        }
        let b = chip.load_private(&mut layouter, self.b)?;
        let ghost l2 = layouter@;
        proof {
            if l2.room() >= 1 {
                lemma_after_load_private(l2, config, self.c@);
            }
        }
        let c = chip.load_private(&mut layouter, self.c)?;
        let ghost l3 = layouter@;
        proof {
            if l3.room() >= 1 && l3.constants_used < l3.table.rows {
                lemma_after_load_constant(l3, config, self.constant.value());
            }
        }
        let constant = chip.load_constant(&mut layouter, self.constant)?;
        let ghost l4 = layouter@;
        proof {
            if l4.room() >= 2 {
                lemma_after_binary(
                    l4,
                    config,
                    "mul"@,
                    config.s_mul,
                    a@,
                    a@,
                    value_mul(F::order(), a@.value, a@.value),
                );
            }
        }
        let aa = chip.mul(&mut layouter, a, a)?;
        let ghost l5 = layouter@;
        proof {
            if l5.room() >= 2 {
                lemma_after_binary(
                    l5,
                    config,
                    "mul"@,
                    config.s_mul,
                    b@,
                    c@,
                    value_mul(F::order(), b@.value, c@.value),
                );
            }
        }
        let bc = chip.mul(&mut layouter, b, c)?;
        let ghost l6 = layouter@;
        proof {
            if l6.room() >= 2 {
                lemma_after_binary(
                    l6,
                    config,
                    "add"@,
                    config.s_add,
                    aa@,
                    bc@,
                    value_add(F::order(), aa@.value, bc@.value),
                );
            }
        }
        let aa_bc = chip.add(&mut layouter, aa, bc)?;
        let ghost l7 = layouter@;
        proof {
            if l7.room() >= 2 {
                lemma_after_binary(
                    l7,
                    config,
                    "mul"@,
                    config.s_mul,
                    constant@,
                    aa_bc@,
                    value_mul(F::order(), constant@.value, aa_bc@.value),
                );
            }
        }
        let d = chip.mul(&mut layouter, constant, aa_bc)?;
        chip.expose_public(&mut layouter, d, 0)?;
        Ok(layouter)
    }
}

} // verus!

//! What holds of the prover and of the circuit, for every table and every
//! witness.

use crate::chip::MyConfig;
use crate::circuit::{add_gate, gate_poly, mul_gate};
use crate::column::{Cell, Column, ColumnKind, Selector};
use crate::constraint_system::GateView;
use crate::expression::{gate_mul, queried_row, Expression, CUR, NEXT};
use crate::field::{
    field_sub, lemma_field_closed, lemma_field_mul_unit, lemma_field_sub_zero, Field,
};
use crate::layouter::LayouterView;
use crate::prover::{violations_view, MockProver, ProverView, Violation, ViolationView};
use crate::table::TableView;
use crate::value::{canonical, lemma_values_closed, value_add, value_sub};
use vstd::arithmetic::div_mod::lemma_small_mod;
use vstd::prelude::*;

verus! {

/// What the two advice cells of a row combine to under a gate of the chip:
/// their product or their sum. The sum has a value when both cells have one;
/// so has the product, which is also zero when one cell is zero, whatever the
/// other holds.
pub open spec fn combination(t: TableView, config: MyConfig, product: bool, row: int) -> Option<
    nat,
> {
    let x = t.value(config.advice[0], row);
    let y = t.value(config.advice[1], row);
    if product {
        gate_mul(t.order, x, y)
    } else {
        value_add(t.order, x, y)
    }
}

/// What a gate of the chip asks of a row: the combination of the row's two
/// advice cells has a value, and the first advice cell of the next row holds
/// it.
pub open spec fn relation_holds(t: TableView, config: MyConfig, product: bool, row: int) -> bool {
    &&& combination(t, config, product, row).is_some()
    &&& t.value(config.advice[0], queried_row(t.rows, row, 1)) == combination(
        t,
        config,
        product,
        row,
    )
}

/// The value of a gate of the chip at a row, in terms of the cells it reads.
pub proof fn lemma_gate_poly_eval<F: Field>(
    t: TableView,
    config: MyConfig,
    selector: Selector,
    product: bool,
    row: int,
)
    requires
        0 <= row < t.rows,
    ensures
        gate_poly::<F>(config, selector, product).eval(t, row) == gate_mul(
            t.order,
            value_sub(
                t.order,
                combination(t, config, product, row),
                t.value(config.advice[0], queried_row(t.rows, row, 1)),
            ),
            if t.enabled(selector, row) {
                Some(1nat)
            } else {
                Some(0nat)
            },
        ),
{
    let lhs = Expression::<F>::ColumnQuery(config.advice[0], CUR);
    let rhs = Expression::<F>::ColumnQuery(config.advice[1], CUR);
    let out = Expression::<F>::ColumnQuery(config.advice[0], NEXT);
    let s = Expression::<F>::SelectorQuery(selector);
    lemma_small_mod(row as nat, t.rows);
    assert(queried_row(t.rows, row, CUR as int) == row);
    assert(lhs.eval(t, row) == t.value(config.advice[0], row));
    assert(rhs.eval(t, row) == t.value(config.advice[1], row));
    assert(out.eval(t, row) == t.value(config.advice[0], queried_row(t.rows, row, 1)));
    let both = if product {
        Expression::Mul(Box::new(lhs), Box::new(rhs))
    } else {
        Expression::Add(Box::new(lhs), Box::new(rhs))
    };
    assert(both.eval(t, row) == if product {
        gate_mul(t.order, lhs.eval(t, row), rhs.eval(t, row))
    } else {
        value_add(t.order, lhs.eval(t, row), rhs.eval(t, row))
    });
    let diff = Expression::Sub(Box::new(both), Box::new(out));
    assert(diff.eval(t, row) == value_sub(t.order, both.eval(t, row), out.eval(t, row)));
    let poly = Expression::Mul(Box::new(diff), Box::new(s));
    assert(poly.eval(t, row) == gate_mul(t.order, diff.eval(t, row), s.eval(t, row)));
    assert(poly == gate_poly::<F>(config, selector, product));
}

/// `(m - z) * s` is zero in the field of order `p` exactly when `s` is zero
/// or `m` and `z` are known and equal.
pub proof fn lemma_gate_value(p: nat, m: Option<nat>, z: Option<nat>, on: bool)
    requires
        1 < p,
        canonical(p, m),
        canonical(p, z),
    ensures
        gate_mul(
            p,
            value_sub(p, m, z),
            if on {
                Some(1nat)
            } else {
                Some(0nat)
            },
        ) == Some(0nat) <==> (on ==> m.is_some() && z == m),
{
    match (m, z) {
        (Some(a), Some(b)) => {
            lemma_field_closed(p, a, b);
            lemma_field_sub_zero(p, a, b);
            lemma_field_mul_unit(p, field_sub(p, a, b));
        },
        _ => {},
    }
}

/// A gate of the chip vanishes at a row exactly when its selector is off
/// there or the row satisfies its relation.
pub proof fn lemma_gate_poly<F: Field>(
    t: TableView,
    config: MyConfig,
    selector: Selector,
    product: bool,
    row: int,
)
    requires
        t.wf(),
        0 <= row < t.rows,
        config.advice[0].kind == ColumnKind::Advice,
        config.advice[1].kind == ColumnKind::Advice,
    ensures
        gate_poly::<F>(config, selector, product).eval(t, row) == Some(0nat) <==> (t.enabled(
            selector,
            row,
        ) ==> relation_holds(t, config, product, row)),
{
    let z = t.value(config.advice[0], queried_row(t.rows, row, 1));
    lemma_value_canonical(t, config.advice[0], queried_row(t.rows, row, 1));
    let x = t.value(config.advice[0], row);
    let y = t.value(config.advice[1], row);
    let m = combination(t, config, product, row);
    assert(canonical(t.order, m)) by {
        lemma_values_closed(t.order, x, y);
    }
    assert(canonical(t.order, z));
    lemma_gate_poly_eval::<F>(t, config, selector, product, row);
    lemma_gate_value(t.order, m, z, t.enabled(selector, row));
}

/// Every value of a well-formed table is a field element.
pub proof fn lemma_value_canonical(t: TableView, column: Column, row: int)
    requires
        t.wf(),
    ensures
        t.value(column, row) matches Some(v) ==> column.kind == ColumnKind::Instance
            || v < t.order,
{
    let c = column.index as int;
    if column.kind == ColumnKind::Advice && c < t.advice.len() {
        assert(t.advice[c].len() == t.rows);
        if 0 <= row < t.rows {
            assert(canonical(t.order, t.advice[c][row]));
        }
    }
    if column.kind == ColumnKind::Fixed && c < t.fixed.len() {
        assert(t.fixed[c].len() == t.rows);
        if 0 <= row < t.rows {
            assert(canonical(t.order, t.fixed[c][row]));
        }
    }
}

/// What a sequence with one more element contains.
pub proof fn lemma_push_contains<T>(s: Seq<T>, x: T, v: T)
    ensures
        s.push(x).contains(v) <==> s.contains(v) || v == x,
{
    if s.push(x).contains(v) {
        let i = choose|i: int| 0 <= i < s.push(x).len() && s.push(x)[i] == v;
        if i < s.len() {
            assert(s[i] == v);
        }
    }
    if s.contains(v) {
        let i = choose|i: int| 0 <= i < s.len() && s[i] == v;
        assert(s.push(x)[i] == v);
    }
    if v == x {
        assert(s.push(x)[s.len() as int] == v);
    }
}

/// What two sequences, one after the other, contain.
pub proof fn lemma_concat_contains<T>(a: Seq<T>, b: Seq<T>, v: T)
    ensures
        (a + b).contains(v) <==> a.contains(v) || b.contains(v),
{
    if (a + b).contains(v) {
        let i = choose|i: int| 0 <= i < (a + b).len() && (a + b)[i] == v;
        if i < a.len() {
            assert(a[i] == v);
        } else {
            assert(b[i - a.len()] == v);
        }
    }
    if a.contains(v) {
        let i = choose|i: int| 0 <= i < a.len() && a[i] == v;
        assert((a + b)[i] == v);
    }
    if b.contains(v) {
        let i = choose|i: int| 0 <= i < b.len() && b[i] == v;
        assert((a + b)[a.len() + i] == v);
    }
}

/// Whether `v` reports that a polynomial of a gate fails at a row.
pub open spec fn reports_poly<F: Field>(
    p: ProverView<F>,
    v: ViolationView,
    row: int,
    gate: int,
    poly: int,
) -> bool {
    !p.poly_holds(gate, poly, row) && v == p.gate_violation(gate, poly, row)
}

/// Whether `v` reports that the `i`-th pair of cells declared equal fails.
pub open spec fn reports_copy<F: Field>(p: ProverView<F>, v: ViolationView, i: int) -> bool {
    !p.pair_holds(p.table.copies[i]) && v == (ViolationView::Copy {
        left: p.table.copies[i].0,
        right: p.table.copies[i].1,
    })
}

/// Whether `v` reports that the `i`-th cell bound to a public input fails.
pub open spec fn reports_exposure<F: Field>(p: ProverView<F>, v: ViolationView, i: int) -> bool {
    !p.pair_holds(p.table.exposed[i]) && v == (ViolationView::PublicInput {
        cell: p.table.exposed[i].0,
        input: p.table.exposed[i].1,
    })
}

/// The violations of the first polynomials of a gate at a row are the reports
/// of those that fail.
pub proof fn lemma_poly_violations<F: Field>(
    p: ProverView<F>,
    v: ViolationView,
    row: int,
    gate: int,
    upto: nat,
)
    ensures
        p.poly_violations(row, gate, upto).contains(v) <==> exists|poly: int|
            0 <= poly < upto && #[trigger] reports_poly(p, v, row, gate, poly),
    decreases upto,
{
    if upto == 0 {
        assert(!p.poly_violations(row, gate, upto).contains(v));
    } else {
        let before = p.poly_violations(row, gate, (upto - 1) as nat);
        lemma_poly_violations(p, v, row, gate, (upto - 1) as nat);
        lemma_push_contains(before, p.gate_violation(gate, upto - 1, row), v);
        if p.poly_violations(row, gate, upto).contains(v) {
            if before.contains(v) {
                let poly = choose|poly: int|
                    0 <= poly < upto - 1 && #[trigger] reports_poly(p, v, row, gate, poly);
                assert(reports_poly(p, v, row, gate, poly));
            } else {
                assert(reports_poly(p, v, row, gate, upto - 1));
            }
        }
        if exists|poly: int| 0 <= poly < upto && #[trigger] reports_poly(p, v, row, gate, poly) {
            let poly = choose|poly: int|
                0 <= poly < upto && #[trigger] reports_poly(p, v, row, gate, poly);
            if poly < upto - 1 {
                assert(reports_poly(p, v, row, gate, poly));
            }
        }
    }
}

/// The violations of the first gates at a row are the reports of their
/// polynomials that fail.
pub proof fn lemma_gate_violations<F: Field>(
    p: ProverView<F>,
    v: ViolationView,
    row: int,
    upto: nat,
)
    ensures
        p.gate_violations(row, upto).contains(v) <==> exists|gate: int, poly: int|
            0 <= gate < upto && 0 <= poly < p.cs.gates[gate].polys.len() && #[trigger] reports_poly(
                p,
                v,
                row,
                gate,
                poly,
            ),
    decreases upto,
{
    if upto == 0 {
        assert(!p.gate_violations(row, upto).contains(v));
    } else {
        let before = p.gate_violations(row, (upto - 1) as nat);
        let last = p.poly_violations(row, upto - 1, p.cs.gates[upto - 1].polys.len());
        lemma_gate_violations(p, v, row, (upto - 1) as nat);
        lemma_poly_violations(p, v, row, upto - 1, p.cs.gates[upto - 1].polys.len());
        lemma_concat_contains(before, last, v);
        if p.gate_violations(row, upto).contains(v) {
            if before.contains(v) {
                let (gate, poly) = choose|gate: int, poly: int|
                    0 <= gate < upto - 1 && 0 <= poly < p.cs.gates[gate].polys.len()
                        && #[trigger] reports_poly(p, v, row, gate, poly);
                assert(reports_poly(p, v, row, gate, poly));
            } else {
                let poly = choose|poly: int|
                    0 <= poly < p.cs.gates[upto - 1].polys.len() && #[trigger] reports_poly(
                        p,
                        v,
                        row,
                        upto - 1,
                        poly,
                    );
                assert(reports_poly(p, v, row, upto - 1, poly));
            }
        }
        if exists|gate: int, poly: int|
            0 <= gate < upto && 0 <= poly < p.cs.gates[gate].polys.len() && #[trigger] reports_poly(
                p,
                v,
                row,
                gate,
                poly,
            ) {
            let (gate, poly) = choose|gate: int, poly: int|
                0 <= gate < upto && 0 <= poly < p.cs.gates[gate].polys.len()
                    && #[trigger] reports_poly(p, v, row, gate, poly);
            if gate < upto - 1 {
                assert(reports_poly(p, v, row, gate, poly));
            } else {
                assert(reports_poly(p, v, row, upto - 1, poly));
            }
        }
    }
}

/// The violations of the gates on the first rows are the reports of the
/// polynomials that fail there.
pub proof fn lemma_row_violations<F: Field>(p: ProverView<F>, v: ViolationView, upto: nat)
    ensures
        p.row_violations(upto).contains(v) <==> exists|row: int, gate: int, poly: int|
            0 <= row < upto && 0 <= gate < p.cs.gates.len() && 0 <= poly
                < p.cs.gates[gate].polys.len() && #[trigger] reports_poly(p, v, row, gate, poly),
    decreases upto,
{
    if upto == 0 {
        assert(!p.row_violations(upto).contains(v));
    } else {
        let before = p.row_violations((upto - 1) as nat);
        let last = p.gate_violations(upto - 1, p.cs.gates.len());
        lemma_row_violations(p, v, (upto - 1) as nat);
        lemma_gate_violations(p, v, upto - 1, p.cs.gates.len());
        lemma_concat_contains(before, last, v);
        if p.row_violations(upto).contains(v) {
            if before.contains(v) {
                let (row, gate, poly) = choose|row: int, gate: int, poly: int|
                    0 <= row < upto - 1 && 0 <= gate < p.cs.gates.len() && 0 <= poly
                        < p.cs.gates[gate].polys.len() && #[trigger] reports_poly(
                        p,
                        v,
                        row,
                        gate,
                        poly,
                    );
                assert(reports_poly(p, v, row, gate, poly));
            } else {
                let (gate, poly) = choose|gate: int, poly: int|
                    0 <= gate < p.cs.gates.len() && 0 <= poly < p.cs.gates[gate].polys.len()
                        && #[trigger] reports_poly(p, v, upto - 1, gate, poly);
                assert(reports_poly(p, v, upto - 1, gate, poly));
            }
        }
        if exists|row: int, gate: int, poly: int|
            0 <= row < upto && 0 <= gate < p.cs.gates.len() && 0 <= poly
                < p.cs.gates[gate].polys.len() && #[trigger] reports_poly(p, v, row, gate, poly) {
            let (row, gate, poly) = choose|row: int, gate: int, poly: int|
                0 <= row < upto && 0 <= gate < p.cs.gates.len() && 0 <= poly
                    < p.cs.gates[gate].polys.len() && #[trigger] reports_poly(
                    p,
                    v,
                    row,
                    gate,
                    poly,
                );
            if row < upto - 1 {
                assert(reports_poly(p, v, row, gate, poly));
            } else {
                assert(reports_poly(p, v, upto - 1, gate, poly));
            }
        }
    }
}

/// The violations among the first pairs of cells declared equal are the
/// reports of those that fail.
pub proof fn lemma_copy_violations<F: Field>(p: ProverView<F>, v: ViolationView, upto: nat)
    ensures
        p.copy_violations(upto).contains(v) <==> exists|i: int|
            0 <= i < upto && #[trigger] reports_copy(p, v, i),
    decreases upto,
{
    if upto == 0 {
        assert(!p.copy_violations(upto).contains(v));
    } else {
        let before = p.copy_violations((upto - 1) as nat);
        let pair = p.table.copies[upto - 1];
        lemma_copy_violations(p, v, (upto - 1) as nat);
        lemma_push_contains(before, ViolationView::Copy { left: pair.0, right: pair.1 }, v);
        if p.copy_violations(upto).contains(v) {
            if before.contains(v) {
                let i = choose|i: int| 0 <= i < upto - 1 && #[trigger] reports_copy(p, v, i);
                assert(reports_copy(p, v, i));
            } else {
                assert(reports_copy(p, v, upto - 1));
            }
        }
        if exists|i: int| 0 <= i < upto && #[trigger] reports_copy(p, v, i) {
            let i = choose|i: int| 0 <= i < upto && #[trigger] reports_copy(p, v, i);
            if i < upto - 1 {
                assert(reports_copy(p, v, i));
            }
        }
    }
}

/// The violations among the first cells bound to public inputs are the
/// reports of those that fail.
pub proof fn lemma_exposure_violations<F: Field>(p: ProverView<F>, v: ViolationView, upto: nat)
    ensures
        p.exposure_violations(upto).contains(v) <==> exists|i: int|
            0 <= i < upto && #[trigger] reports_exposure(p, v, i),
    decreases upto,
{
    if upto == 0 {
        assert(!p.exposure_violations(upto).contains(v));
    } else {
        let before = p.exposure_violations((upto - 1) as nat);
        let pair = p.table.exposed[upto - 1];
        lemma_exposure_violations(p, v, (upto - 1) as nat);
        lemma_push_contains(before, ViolationView::PublicInput { cell: pair.0, input: pair.1 }, v);
        if p.exposure_violations(upto).contains(v) {
            if before.contains(v) {
                let i = choose|i: int| 0 <= i < upto - 1 && #[trigger] reports_exposure(p, v, i);
                assert(reports_exposure(p, v, i));
            } else {
                assert(reports_exposure(p, v, upto - 1));
            }
        }
        if exists|i: int| 0 <= i < upto && #[trigger] reports_exposure(p, v, i) {
            let i = choose|i: int| 0 <= i < upto && #[trigger] reports_exposure(p, v, i);
            if i < upto - 1 {
                assert(reports_exposure(p, v, i));
            }
        }
    }
}

/// Whether `v` reports something that the table breaks: a polynomial of a
/// gate that does not vanish at a row, a pair of cells declared equal that
/// fails, or a cell that disagrees with the public input it is bound to.
pub open spec fn is_failure<F: Field>(p: ProverView<F>, v: ViolationView) -> bool {
    ||| exists|row: int, gate: int, poly: int|
        0 <= row < p.table.rows && 0 <= gate < p.cs.gates.len() && 0 <= poly
            < p.cs.gates[gate].polys.len() && #[trigger] reports_poly(p, v, row, gate, poly)
    ||| exists|i: int| 0 <= i < p.table.copies.len() && #[trigger] reports_copy(p, v, i)
    ||| exists|i: int| 0 <= i < p.table.exposed.len() && #[trigger] reports_exposure(p, v, i)
}

/// The prover reports exactly what the table breaks: every violation in the
/// list is a failure, and every failure is in the list.
pub proof fn lemma_violations_are_failures<F: Field>(p: ProverView<F>, v: ViolationView)
    ensures
        p.violations().contains(v) <==> is_failure(p, v),
{
    let gates = p.row_violations(p.table.rows);
    let copies = p.copy_violations(p.table.copies.len());
    let exposed = p.exposure_violations(p.table.exposed.len());
    lemma_row_violations(p, v, p.table.rows);
    lemma_copy_violations(p, v, p.table.copies.len());
    lemma_exposure_violations(p, v, p.table.exposed.len());
    lemma_concat_contains(gates, copies, v);
    lemma_concat_contains(gates + copies, exposed, v);
}

/// Verification succeeds exactly when the table satisfies every constraint.
pub proof fn lemma_verified_iff_satisfied<F: Field>(p: ProverView<F>)
    ensures
        p.violations().len() == 0 <==> p.satisfied(),
{
    let all = p.violations();
    if all.len() > 0 {
        let v = all[0];
        assert(all.contains(v));
        lemma_violations_are_failures(p, v);
        if exists|row: int, gate: int, poly: int|
            0 <= row < p.table.rows && 0 <= gate < p.cs.gates.len() && 0 <= poly
                < p.cs.gates[gate].polys.len() && #[trigger] reports_poly(p, v, row, gate, poly) {
            let (row, gate, poly) = choose|row: int, gate: int, poly: int|
                0 <= row < p.table.rows && 0 <= gate < p.cs.gates.len() && 0 <= poly
                    < p.cs.gates[gate].polys.len() && #[trigger] reports_poly(
                    p,
                    v,
                    row,
                    gate,
                    poly,
                );
            assert(!p.poly_holds(gate, poly, row));
        } else if exists|i: int| 0 <= i < p.table.copies.len() && #[trigger] reports_copy(p, v, i) {
            let i = choose|i: int|
                0 <= i < p.table.copies.len() && #[trigger] reports_copy(p, v, i);
            assert(!p.pair_holds(p.table.copies[i]));
        } else {
            let i = choose|i: int|
                0 <= i < p.table.exposed.len() && #[trigger] reports_exposure(p, v, i);
            assert(!p.pair_holds(p.table.exposed[i]));
        }
        assert(!p.satisfied());
    } else {
        assert forall|row: int, gate: int, poly: int|
            0 <= row < p.table.rows && 0 <= gate < p.cs.gates.len() && 0 <= poly
                < p.cs.gates[gate].polys.len() implies #[trigger] p.poly_holds(gate, poly, row) by {
            if !p.poly_holds(gate, poly, row) {
                let v = p.gate_violation(gate, poly, row);
                assert(reports_poly(p, v, row, gate, poly));
                lemma_violations_are_failures(p, v);
                assert(all.contains(v));
            }
        }
        assert forall|i: int| 0 <= i < p.table.copies.len() implies p.pair_holds(
            #[trigger] p.table.copies[i],
        ) by {
            if !p.pair_holds(p.table.copies[i]) {
                let v = ViolationView::Copy {
                    left: p.table.copies[i].0,
                    right: p.table.copies[i].1,
                };
                assert(reports_copy(p, v, i));
                lemma_violations_are_failures(p, v);
                assert(all.contains(v));
            }
        }
        assert forall|i: int| 0 <= i < p.table.exposed.len() implies p.pair_holds(
            #[trigger] p.table.exposed[i],
        ) by {
            if !p.pair_holds(p.table.exposed[i]) {
                let v = ViolationView::PublicInput {
                    cell: p.table.exposed[i].0,
                    input: p.table.exposed[i].1,
                };
                assert(reports_exposure(p, v, i));
                lemma_violations_are_failures(p, v);
                assert(all.contains(v));
            }
        }
    }
}

/// The selector of the multiplication gate or of the addition gate.
pub open spec fn selector_of(config: MyConfig, product: bool) -> Selector {
    if product {
        config.s_mul
    } else {
        config.s_add
    }
}

/// The multiplication gate or the addition gate.
pub open spec fn gate_of<F: Field>(config: MyConfig, product: bool) -> GateView<F> {
    if product {
        mul_gate::<F>(config)
    } else {
        add_gate::<F>(config)
    }
}

/// Where verification succeeds, every row on which the selector of a gate of
/// the chip is on satisfies its relation: the first advice cell of the
/// next row holds the product (or the sum) of the row's two advice cells.
pub proof fn lemma_gate_property<F: Field>(
    p: ProverView<F>,
    config: MyConfig,
    gate: int,
    product: bool,
)
    requires
        p.table.wf(),
        config.advice[0].kind == ColumnKind::Advice,
        config.advice[1].kind == ColumnKind::Advice,
        0 <= gate < p.cs.gates.len(),
        p.cs.gates[gate] == gate_of::<F>(config, product),
        p.violations().len() == 0,
    ensures
        forall|row: int|
            0 <= row < p.table.rows && #[trigger] p.table.enabled(selector_of(config, product), row)
                ==> relation_holds(p.table, config, product, row),
{
    lemma_verified_iff_satisfied(p);
    assert forall|row: int|
        0 <= row < p.table.rows && #[trigger] p.table.enabled(
            selector_of(config, product),
            row,
        ) implies relation_holds(p.table, config, product, row) by {
        assert(p.poly_holds(gate, 0, row));
        lemma_gate_poly::<F>(p.table, config, selector_of(config, product), product, row);
    }
}

/// A table with a row on which the selector of a gate of the chip is on and
/// its relation fails is rejected, and the failure is reported for that
/// gate and that row.
pub proof fn lemma_broken_gate_rejected<F: Field>(
    p: ProverView<F>,
    config: MyConfig,
    gate: int,
    product: bool,
    row: int,
)
    requires
        p.table.wf(),
        config.advice[0].kind == ColumnKind::Advice,
        config.advice[1].kind == ColumnKind::Advice,
        0 <= gate < p.cs.gates.len(),
        p.cs.gates[gate] == gate_of::<F>(config, product),
        0 <= row < p.table.rows,
        p.table.enabled(selector_of(config, product), row),
        !relation_holds(p.table, config, product, row),
    ensures
        p.violations().len() > 0,
        p.violations().contains(p.gate_violation(gate, 0, row)),
{
    lemma_gate_poly::<F>(p.table, config, selector_of(config, product), product, row);
    let v = p.gate_violation(gate, 0, row);
    assert(reports_poly(p, v, row, gate, 0));
    lemma_violations_are_failures(p, v);
}

/// Changing the value stored in one cell of a pair that was declared equal,
/// so that it differs from what the other cell holds, makes the prover report
/// that pair. This holds of the pairs that are enforced, those whose two
/// columns are enabled for equality, and whose two cells are distinct.
pub proof fn lemma_tampered_copy_reported<F: Field>(
    p: ProverView<F>,
    i: int,
    first: bool,
    v: Option<nat>,
)
    requires
        p.table.wf(),
        0 <= i < p.table.copies.len(),
        p.enforced(p.table.copies[i]),
        p.table.copies[i].0 != p.table.copies[i].1,
        p.table.assignable(tampered(p, i, first).column),
        tampered(p, i, first).row < p.table.rows,
        canonical(p.table.order, v),
        v != p.table.cell_value(tampered(p, i, !first)),
    ensures
        after_tampering(p, i, first, v).violations().contains(
            ViolationView::Copy { left: p.table.copies[i].0, right: p.table.copies[i].1 },
        ),
{
    let cell = tampered(p, i, first);
    let q = after_tampering(p, i, first, v);
    p.table.lemma_set(cell.column, cell.row as int, v);
    let report = ViolationView::Copy { left: p.table.copies[i].0, right: p.table.copies[i].1 };
    assert(q.table.copies == p.table.copies);
    assert(q.table.cell_value(cell) == v);
    assert(q.table.cell_value(tampered(p, i, !first)) == p.table.cell_value(
        tampered(p, i, !first),
    ));
    assert(reports_copy(q, report, i));
    lemma_violations_are_failures(q, report);
}

/// The first or the second cell of the `i`-th pair declared equal.
pub open spec fn tampered<F: Field>(p: ProverView<F>, i: int, first: bool) -> Cell {
    if first {
        p.table.copies[i].0
    } else {
        p.table.copies[i].1
    }
}

/// The prover after one cell of the `i`-th pair declared equal was overwritten.
pub open spec fn after_tampering<F: Field>(
    p: ProverView<F>,
    i: int,
    first: bool,
    v: Option<nat>,
) -> ProverView<F> {
    ProverView {
        table: p.table.set(tampered(p, i, first).column, tampered(p, i, first).row as int, v),
        ..p
    }
}

/// Verifying twice gives the same answer: what `verify` returns is fixed by
/// the prover, which it does not change.
pub proof fn lemma_verify_idempotent<F: Field>(
    prover: MockProver<F>,
    once: Result<(), Vec<Violation>>,
    again: Result<(), Vec<Violation>>,
)
    requires
        prover.verified_as(once),
        prover.verified_as(again),
    ensures
        once.is_ok() == again.is_ok(),
        once matches Err(v) ==> again matches Err(w) && violations_view(v@) == violations_view(w@),
{
}

/// Regions do not overlap: each ends where or before every later one starts.
pub proof fn lemma_regions_disjoint(l: LayouterView, i: int, j: int)
    requires
        l.wf(),
        0 <= i < j < l.regions.len(),
    ensures
        l.regions[i].start + l.regions[i].rows <= l.regions[j].start,
    decreases j - i,
{
    assert(l.regions[j].start == l.regions[j - 1].start + l.regions[j - 1].rows);
    if i < j - 1 {
        lemma_regions_disjoint(l, i, j - 1);
    }
}

} // verus!

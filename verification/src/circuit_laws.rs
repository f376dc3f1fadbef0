//! Why the circuit verifies: every operation of the chip leaves the table
//! with all gates and all equalities holding, so the laid-out circuit is
//! accepted exactly when the public input is the value that it computes.

use crate::chip::{
    after_add, after_binary, after_load_constant, after_load_private, after_mul, combined,
    lemma_after_binary, lemma_after_load_constant, lemma_after_load_private, loaded, same_frame,
    MyConfig,
};
use crate::circuit::{
    add_gate, gate_poly, has_room, mul_gate, synthesized, CircuitView, CIRCUIT_ROWS,
};
use crate::column::{Cell, Column, ColumnKind, Selector};
use crate::field::Field;
use crate::laws::{
    combination, lemma_copy_violations, lemma_gate_poly, lemma_row_violations,
    lemma_value_canonical, lemma_verified_iff_satisfied, relation_holds, reports_copy,
    reports_poly, selector_of,
};
use crate::layouter::{AssignedCellView, LayouterView};
use crate::prover::{circuit_structure, first_config, ran, ViolationView};
use crate::table::TableView;
use crate::value::{canonical, lemma_values_closed, value_add, value_mul};
use vstd::arithmetic::div_mod::lemma_small_mod;
use vstd::arithmetic::power2::{lemma_pow2_pos, pow2};
use vstd::prelude::*;

verus! {

/// A number stands in the table: its cell is an advice cell of a region laid
/// out so far and holds the number's value, which is known.
pub open spec fn stands(l: LayouterView, n: AssignedCellView) -> bool {
    &&& l.has_advice(n.cell.column)
    &&& n.cell.row < l.used()
    &&& l.table.cell_value(n.cell) == n.value
    &&& n.value.is_some()
}

/// A cell is settled: it lies in a row that no later operation writes again.
pub open spec fn settled(l: LayouterView, cell: Cell) -> bool {
    ||| cell.column.kind == ColumnKind::Advice && cell.row < l.used()
    ||| Some(cell.column) == l.constants_column && cell.row < l.constants_used
}

/// Two cells that were declared equal are settled and hold one known value.
pub open spec fn agree(l: LayouterView, pair: (Cell, Cell)) -> bool {
    &&& settled(l, pair.0)
    &&& settled(l, pair.1)
    &&& l.table.cell_value(pair.0).is_some()
    &&& l.table.cell_value(pair.0) == l.table.cell_value(pair.1)
}

/// Wherever the selector of a gate is on, its relation holds, and the
/// rows it reads belong to regions laid out so far.
pub open spec fn gate_consistent(l: LayouterView, config: MyConfig, product: bool) -> bool {
    forall|row: int|
        0 <= row < l.table.rows && #[trigger] l.table.enabled(selector_of(config, product), row)
            ==> row + 1 < l.used() && relation_holds(l.table, config, product, row)
}

/// The layout so far is consistent: both gates hold wherever they are on, and
/// all cells declared equal agree.
#[verifier::opaque]
pub open spec fn consistent(l: LayouterView, config: MyConfig) -> bool {
    &&& l.wf()
    &&& config.valid_for(l)
    &&& config.advice[0] != config.advice[1]
    &&& config.s_mul != config.s_add
    &&& gate_consistent(l, config, true)
    &&& gate_consistent(l, config, false)
    &&& forall|i: int| 0 <= i < l.table.copies.len() ==> agree(l, #[trigger] l.table.copies[i])
}

/// What an operation of the chip keeps of the table: the cells that were
/// settled, and the selector flags of the rows laid out before.
#[verifier::opaque]
pub open spec fn extends(before: LayouterView, after: LayouterView) -> bool {
    &&& same_frame(before, after)
    &&& before.used() <= after.used()
    &&& before.constants_used <= after.constants_used
    &&& forall|cell: Cell| #[trigger]
        settled(before, cell) ==> after.table.cell_value(cell) == before.table.cell_value(cell)
    &&& forall|s: Selector, row: int|
        0 <= row < before.used() ==> #[trigger] after.table.enabled(s, row) == before.table.enabled(
            s,
            row,
        )
}

/// A gate that held before an operation of the chip holds after it on the
/// rows laid out before.
pub proof fn lemma_gate_kept(
    before: LayouterView,
    after: LayouterView,
    config: MyConfig,
    product: bool,
    row: int,
)
    requires
        before.wf(),
        config.valid_for(before),
        extends(before, after),
        0 <= row,
        row + 1 < before.used(),
        relation_holds(before.table, config, product, row),
    ensures
        relation_holds(after.table, config, product, row),
{
    reveal(extends);
    lemma_small_mod((row + 1) as nat, before.table.rows);
    let x = Cell { column: config.advice[0], row: row as usize };
    let y = Cell { column: config.advice[1], row: row as usize };
    let z = Cell { column: config.advice[0], row: (row + 1) as usize };
    assert(settled(before, x));
    assert(settled(before, y));
    assert(settled(before, z));
    assert(after.table.cell_value(x) == before.table.cell_value(x));
    assert(after.table.cell_value(y) == before.table.cell_value(y));
    assert(after.table.cell_value(z) == before.table.cell_value(z));
}

/// Numbers that stood before an operation of the chip stand after it.
pub proof fn lemma_number_kept(before: LayouterView, after: LayouterView, n: AssignedCellView)
    requires
        extends(before, after),
        stands(before, n),
    ensures
        stands(after, n),
{
    reveal(extends);
    assert(settled(before, n.cell));
}

/// Loading a known private value keeps the layout consistent, and the number
/// it gives stands in the table.
pub proof fn lemma_load_private_consistent(l: LayouterView, config: MyConfig, v: Option<nat>)
    requires
        consistent(l, config),
        l.room() >= 1,
        canonical(l.table.order, v),
        v.is_some(),
    ensures
        consistent(after_load_private(l, config, v), config),
        extends(l, after_load_private(l, config, v)),
        stands(after_load_private(l, config, v), loaded(l, config, v)),
        same_frame(l, after_load_private(l, config, v)),
        after_load_private(l, config, v).used() == l.used() + 1,
        after_load_private(l, config, v).constants_used == l.constants_used,
{
    reveal(consistent);
    reveal(extends);
    let n = after_load_private(l, config, v);
    lemma_after_load_private(l, config, v);
    assert(extends(l, n));
    assert forall|product: bool| gate_consistent(n, config, product) by {
        assert forall|row: int|
            0 <= row < n.table.rows && #[trigger] n.table.enabled(
                selector_of(config, product),
                row,
            ) implies row + 1 < n.used() && relation_holds(n.table, config, product, row) by {
            assert(l.table.enabled(selector_of(config, product), row));
            assert(gate_consistent(l, config, product));
            lemma_gate_kept(l, n, config, product, row);
        }
    }
    assert forall|i: int| 0 <= i < n.table.copies.len() implies agree(
        n,
        #[trigger] n.table.copies[i],
    ) by {
        assert(agree(l, l.table.copies[i]));
    }
}

/// Loading a constant keeps the layout consistent, and the number it gives
/// stands in the table.
pub proof fn lemma_load_constant_consistent(l: LayouterView, config: MyConfig, c: nat)
    requires
        consistent(l, config),
        l.room() >= 1,
        l.constants_used < l.table.rows,
        c < l.table.order,
    ensures
        consistent(after_load_constant(l, config, c), config),
        extends(l, after_load_constant(l, config, c)),
        stands(after_load_constant(l, config, c), loaded(l, config, Some(c))),
        same_frame(l, after_load_constant(l, config, c)),
        after_load_constant(l, config, c).used() == l.used() + 1,
        after_load_constant(l, config, c).constants_used == l.constants_used + 1,
{
    reveal(consistent);
    reveal(extends);
    let n = after_load_constant(l, config, c);
    lemma_after_load_constant(l, config, c);
    assert(extends(l, n));
    assert forall|product: bool| gate_consistent(n, config, product) by {
        assert forall|row: int|
            0 <= row < n.table.rows && #[trigger] n.table.enabled(
                selector_of(config, product),
                row,
            ) implies row + 1 < n.used() && relation_holds(n.table, config, product, row) by {
            assert(l.table.enabled(selector_of(config, product), row));
            assert(gate_consistent(l, config, product));
            lemma_gate_kept(l, n, config, product, row);
        }
    }
    assert forall|i: int| 0 <= i < n.table.copies.len() implies agree(
        n,
        #[trigger] n.table.copies[i],
    ) by {
        if i < l.table.copies.len() {
            assert(agree(l, l.table.copies[i]));
        }
    }
}

/// Multiplying or adding two numbers that stand in the table keeps the layout
/// consistent, and the number it gives stands in the table.
pub proof fn lemma_binary_consistent(
    l: LayouterView,
    config: MyConfig,
    name: Seq<char>,
    product: bool,
    a: AssignedCellView,
    b: AssignedCellView,
)
    requires
        consistent(l, config),
        l.room() >= 2,
        stands(l, a),
        stands(l, b),
    ensures
        consistent(
            after_binary(
                l,
                config,
                name,
                selector_of(config, product),
                a,
                b,
                combine(l.table.order, product, a.value, b.value),
            ),
            config,
        ),
        extends(
            l,
            after_binary(
                l,
                config,
                name,
                selector_of(config, product),
                a,
                b,
                combine(l.table.order, product, a.value, b.value),
            ),
        ),
        stands(
            after_binary(
                l,
                config,
                name,
                selector_of(config, product),
                a,
                b,
                combine(l.table.order, product, a.value, b.value),
            ),
            combined(l, config, combine(l.table.order, product, a.value, b.value)),
        ),
        same_frame(
            l,
            after_binary(
                l,
                config,
                name,
                selector_of(config, product),
                a,
                b,
                combine(l.table.order, product, a.value, b.value),
            ),
        ),
        after_binary(
            l,
            config,
            name,
            selector_of(config, product),
            a,
            b,
            combine(l.table.order, product, a.value, b.value),
        ).used() == l.used() + 2,
        after_binary(
            l,
            config,
            name,
            selector_of(config, product),
            a,
            b,
            combine(l.table.order, product, a.value, b.value),
        ).constants_used == l.constants_used,
        combine(l.table.order, product, a.value, b.value).is_some(),
{
    reveal(consistent);
    reveal(extends);
    let selector = selector_of(config, product);
    let out = combine(l.table.order, product, a.value, b.value);
    let n = after_binary(l, config, name, selector, a, b, out);
    let u = l.used() as int;
    lemma_value_canonical(l.table, a.cell.column, a.cell.row as int);
    lemma_value_canonical(l.table, b.cell.column, b.cell.row as int);
    lemma_values_closed(l.table.order, a.value, b.value);
    lemma_after_binary(l, config, name, selector, a, b, out);
    assert(extends(l, n)) by {
        assert forall|s: Selector, row: int| 0 <= row < l.used() implies #[trigger] n.table.enabled(
            s,
            row,
        ) == l.table.enabled(s, row) by {}
    }
    lemma_small_mod((u + 1) as nat, l.table.rows);
    assert forall|other: bool| gate_consistent(n, config, other) by {
        assert forall|row: int|
            0 <= row < n.table.rows && #[trigger] n.table.enabled(
                selector_of(config, other),
                row,
            ) implies row + 1 < n.used() && relation_holds(n.table, config, other, row) by {
            assert(gate_consistent(l, config, other));
            if l.table.enabled(selector_of(config, other), row) {
                lemma_gate_kept(l, n, config, other, row);
            } else {
                assert(row == u && other == product);
                assert(n.table.value(config.advice[0], u) == a.value);
                assert(n.table.value(config.advice[1], u) == b.value);
                assert(n.table.value(config.advice[0], u + 1) == out);
                assert(combination(n.table, config, product, row) == out);
            }
        }
    }
    assert forall|i: int| 0 <= i < n.table.copies.len() implies agree(
        n,
        #[trigger] n.table.copies[i],
    ) by {
        if i < l.table.copies.len() {
            assert(agree(l, l.table.copies[i]));
        } else {
            assert(settled(l, a.cell));
            assert(settled(l, b.cell));
        }
    }
}

/// The product or the sum of two values modulo `p`, known when both are.
pub open spec fn combine(p: nat, product: bool, a: Option<nat>, b: Option<nat>) -> Option<nat> {
    if product {
        value_mul(p, a, b)
    } else {
        value_add(p, a, b)
    }
}

/// Where the circuit is laid out does not depend on its witnesses: whatever
/// they are, known or not, the regions, the selector flags, the cells declared
/// equal and the cell bound to the public input are the same. Only the values
/// of the cells differ.
pub proof fn lemma_structure_independent_of_witnesses(
    l: LayouterView,
    config: MyConfig,
    one: CircuitView,
    other: CircuitView,
)
    ensures
        synthesized(l, config, one).regions == synthesized(l, config, other).regions,
        synthesized(l, config, one).table.selectors == synthesized(
            l,
            config,
            other,
        ).table.selectors,
        synthesized(l, config, one).table.copies == synthesized(l, config, other).table.copies,
        synthesized(l, config, one).table.exposed == synthesized(l, config, other).table.exposed,
        synthesized(l, config, one).constants_used == synthesized(l, config, other).constants_used,
{
}

/// The witnesses and the constant are elements of the field of order `p`,
/// and the witnesses are known.
pub open spec fn witnessed(p: nat, circuit: CircuitView) -> bool {
    &&& circuit.constant < p
    &&& circuit.a.is_some() && canonical(p, circuit.a)
    &&& circuit.b.is_some() && canonical(p, circuit.b)
    &&& circuit.c.is_some() && canonical(p, circuit.c)
}

/// The cell that holds the circuit's result: the first advice cell in the
/// last of the twelve rows.
pub open spec fn output_cell(l: LayouterView, config: MyConfig) -> Cell {
    Cell { column: config.advice[0], row: (l.used() + 11) as usize }
}

/// The instance cell that the circuit's result is bound to.
pub open spec fn input_cell(config: MyConfig) -> Cell {
    Cell { column: config.instance, row: 0 }
}

/// Laying the circuit out with known witnesses keeps the layout consistent,
/// puts `constant * (a * a + b * c)` into the output cell, and binds that cell
/// to the first public input.
pub proof fn lemma_synthesized_consistent(l: LayouterView, config: MyConfig, circuit: CircuitView)
    requires
        consistent(l, config),
        has_room(l),
        witnessed(l.table.order, circuit),
    ensures
        consistent(synthesized(l, config, circuit), config),
        synthesized(l, config, circuit).table.order == l.table.order,
        synthesized(l, config, circuit).table.rows == l.table.rows,
        synthesized(l, config, circuit).table.instance == l.table.instance,
        synthesized(l, config, circuit).table.exposed == l.table.exposed.push(
            (output_cell(l, config), input_cell(config)),
        ),
        synthesized(l, config, circuit).table.cell_value(output_cell(l, config))
            == circuit.output(l.table.order),
        circuit.output(l.table.order).is_some(),
{
    let a = loaded(l, config, circuit.a);
    let l1 = after_load_private(l, config, circuit.a);
    lemma_load_private_consistent(l, config, circuit.a);
    let b = loaded(l1, config, circuit.b);
    let l2 = after_load_private(l1, config, circuit.b);
    lemma_load_private_consistent(l1, config, circuit.b);
    lemma_number_kept(l1, l2, a);
    let c = loaded(l2, config, circuit.c);
    let l3 = after_load_private(l2, config, circuit.c);
    lemma_load_private_consistent(l2, config, circuit.c);
    lemma_number_kept(l2, l3, a);
    lemma_number_kept(l2, l3, b);
    let constant = loaded(l3, config, Some(circuit.constant));
    let l4 = after_load_constant(l3, config, circuit.constant);
    lemma_load_constant_consistent(l3, config, circuit.constant);
    lemma_number_kept(l3, l4, a);
    lemma_number_kept(l3, l4, b);
    lemma_number_kept(l3, l4, c);
    let p = l.table.order;
    let aa = combined(l4, config, value_mul(p, a.value, a.value));
    let l5 = after_mul(l4, config, a, a);
    lemma_binary_consistent(l4, config, "mul"@, true, a, a);
    lemma_number_kept(l4, l5, b);
    lemma_number_kept(l4, l5, c);
    lemma_number_kept(l4, l5, constant);
    let bc = combined(l5, config, value_mul(p, b.value, c.value));
    let l6 = after_mul(l5, config, b, c);
    lemma_binary_consistent(l5, config, "mul"@, true, b, c);
    lemma_number_kept(l5, l6, aa);
    lemma_number_kept(l5, l6, constant);
    let sum = combined(l6, config, value_add(p, aa.value, bc.value));
    let l7 = after_add(l6, config, aa, bc);
    lemma_binary_consistent(l6, config, "add"@, false, aa, bc);
    lemma_number_kept(l6, l7, constant);
    let d = combined(l7, config, value_mul(p, constant.value, sum.value));
    let l8 = after_mul(l7, config, constant, sum);
    lemma_binary_consistent(l7, config, "mul"@, true, constant, sum);
    lemma_bound_consistent(l8, config, d.cell, 0);
}

/// Binding a cell to a public input keeps the layout consistent and changes
/// no value.
pub proof fn lemma_bound_consistent(l: LayouterView, config: MyConfig, cell: Cell, row: nat)
    requires
        consistent(l, config),
    ensures
        consistent(l.constrain_instance(cell, config.instance, row), config),
        forall|c: Cell| #[trigger]
            l.constrain_instance(cell, config.instance, row).table.cell_value(c)
                == l.table.cell_value(c),
{
    reveal(consistent);
    let done = l.constrain_instance(cell, config.instance, row);
    l.table.lemma_expose(cell, Cell { column: config.instance, row: row as usize });
    assert forall|product: bool| gate_consistent(done, config, product) by {
        assert forall|r: int|
            0 <= r < done.table.rows && #[trigger] done.table.enabled(
                selector_of(config, product),
                r,
            ) implies r + 1 < done.used() && relation_holds(done.table, config, product, r) by {
            assert(l.table.enabled(selector_of(config, product), r));
            assert(gate_consistent(l, config, product));
            assert(relation_holds(l.table, config, product, r));
        }
    }
    assert forall|i: int| 0 <= i < done.table.copies.len() implies agree(
        done,
        #[trigger] done.table.copies[i],
    ) by {
        assert(agree(l, l.table.copies[i]));
    }
}

/// The layouter over a fresh table for the circuit's structure is consistent:
/// no selector is on and no cells were declared equal.
pub proof fn lemma_initial_consistent<F: Field>(k: nat, instance: Seq<Seq<nat>>)
    requires
        pow2(k) <= usize::MAX,
    ensures
        consistent(LayouterView::initial(circuit_structure::<F>(), k, instance), first_config()),
        LayouterView::initial(circuit_structure::<F>(), k, instance).used() == 0,
{
    reveal(consistent);
    lemma_pow2_pos(k);
    F::lemma_order();
    TableView::lemma_empty(F::order(), 2, 1, 2, pow2(k), instance);
    let cs = circuit_structure::<F>();
    assert(cs.constants[0] == Column { kind: ColumnKind::Fixed, index: 0 });
}

/// For all field elements `a`, `b`, `c` and `constant`: the circuit, laid out
/// in a fresh table with room for it, verifies when the first public input is
/// `constant * (a * a + b * c)`.
pub proof fn lemma_circuit_verifies<F: Field>(k: nat, circuit: CircuitView, instance: Seq<Seq<nat>>)
    requires
        CIRCUIT_ROWS <= pow2(k) <= usize::MAX,
        witnessed(F::order(), circuit),
        instance.len() > 0,
        instance[0].len() > 0,
        Some(instance[0][0]) == circuit.output(F::order()),
    ensures
        ran::<F>(k, circuit, instance).violations().len() == 0,
{
    let p = ran::<F>(k, circuit, instance);
    lemma_ran_consistent::<F>(k, circuit, instance);
    assert forall|i: int| 0 <= i < p.table.exposed.len() implies p.pair_holds(
        #[trigger] p.table.exposed[i],
    ) by {}
    lemma_verified_iff_satisfied(p);
}

/// With any other first public input, or none, the prover reports exactly one
/// violation: the output cell disagrees with the public input it is bound to.
pub proof fn lemma_wrong_input_reported<F: Field>(
    k: nat,
    circuit: CircuitView,
    instance: Seq<Seq<nat>>,
)
    requires
        CIRCUIT_ROWS <= pow2(k) <= usize::MAX,
        witnessed(F::order(), circuit),
        !(instance.len() > 0 && instance[0].len() > 0 && Some(instance[0][0])
            == circuit.output(F::order())),
    ensures
        ran::<F>(k, circuit, instance).violations() == seq![
            ViolationView::PublicInput {
                cell: Cell { column: first_config().advice[0], row: 11 },
                input: Cell { column: first_config().instance, row: 0 },
            },
        ],
{
    let p = ran::<F>(k, circuit, instance);
    lemma_ran_consistent::<F>(k, circuit, instance);
    let gates = p.row_violations(p.table.rows);
    let copies = p.copy_violations(p.table.copies.len());
    if gates.len() > 0 {
        let v = gates[0];
        assert(gates.contains(v));
        lemma_row_violations(p, v, p.table.rows);
        let (row, gate, poly) = choose|row: int, gate: int, poly: int|
            0 <= row < p.table.rows && 0 <= gate < p.cs.gates.len() && 0 <= poly
                < p.cs.gates[gate].polys.len() && #[trigger] reports_poly(p, v, row, gate, poly);
        assert(p.poly_holds(gate, poly, row));
    }
    if copies.len() > 0 {
        let v = copies[0];
        assert(copies.contains(v));
        lemma_copy_violations(p, v, p.table.copies.len());
        let i = choose|i: int| 0 <= i < p.table.copies.len() && #[trigger] reports_copy(p, v, i);
        assert(p.pair_holds(p.table.copies[i]));
    }
    let pair = p.table.exposed[0];
    let cs = circuit_structure::<F>();
    assert(cs.equality[2] == first_config().advice[0]);
    assert(cs.equality[0] == first_config().instance);
    assert(p.enforced(pair));
    assert(!p.pair_holds(pair));
    assert(p.exposure_violations(0) =~= Seq::empty());
    assert(p.exposure_violations(1) =~= seq![
        ViolationView::PublicInput { cell: pair.0, input: pair.1 },
    ]);
    assert(gates =~= Seq::empty());
    assert(copies =~= Seq::empty());
    assert(p.violations() =~= p.exposure_violations(1));
}

/// In the prover that ran the circuit with known witnesses, every gate holds
/// on every row and all cells declared equal agree; the one cell bound to a
/// public input is the output cell, which holds `constant * (a * a + b * c)`.
pub proof fn lemma_ran_consistent<F: Field>(k: nat, circuit: CircuitView, instance: Seq<Seq<nat>>)
    requires
        CIRCUIT_ROWS <= pow2(k) <= usize::MAX,
        witnessed(F::order(), circuit),
    ensures
        forall|row: int, gate: int, poly: int|
            0 <= row < ran::<F>(k, circuit, instance).table.rows && 0 <= gate < ran::<F>(
                k,
                circuit,
                instance,
            ).cs.gates.len() && 0 <= poly < ran::<F>(
                k,
                circuit,
                instance,
            ).cs.gates[gate].polys.len()
                ==> #[trigger] ran::<F>(k, circuit, instance).poly_holds(gate, poly, row),
        forall|i: int|
            0 <= i < ran::<F>(k, circuit, instance).table.copies.len() ==> ran::<F>(
                k,
                circuit,
                instance,
            ).pair_holds(#[trigger] ran::<F>(k, circuit, instance).table.copies[i]),
        ran::<F>(k, circuit, instance).table.exposed == seq![
            (
                Cell { column: first_config().advice[0], row: 11 },
                Cell { column: first_config().instance, row: 0 },
            ),
        ],
        ran::<F>(k, circuit, instance).table.cell_value(
            Cell { column: first_config().advice[0], row: 11 },
        ) == circuit.output(F::order()),
        circuit.output(F::order()).is_some(),
        ran::<F>(k, circuit, instance).table.cell_value(
            Cell { column: first_config().instance, row: 0 },
        ) == if instance.len() > 0 && instance[0].len() > 0 {
            Some(instance[0][0])
        } else {
            None
        },
{
    reveal(consistent);
    let config = first_config();
    let l = LayouterView::initial(circuit_structure::<F>(), k, instance);
    lemma_initial_consistent::<F>(k, instance);
    lemma_synthesized_consistent(l, config, circuit);
    let done = synthesized(l, config, circuit);
    let p = ran::<F>(k, circuit, instance);
    assert(p.table == done.table);
    assert(p.cs.gates.len() == 2);
    assert(p.cs.gates[0] == mul_gate::<F>(config));
    assert(p.cs.gates[1] == add_gate::<F>(config));
    assert forall|row: int, gate: int, poly: int|
        0 <= row < p.table.rows && 0 <= gate < p.cs.gates.len() && 0 <= poly
            < p.cs.gates[gate].polys.len() implies #[trigger] p.poly_holds(gate, poly, row) by {
        let product = gate == 0;
        assert(poly == 0);
        assert(p.cs.gates[gate].polys[poly] == gate_poly::<F>(
            config,
            selector_of(config, product),
            product,
        ));
        assert(gate_consistent(done, config, product));
        lemma_gate_poly::<F>(p.table, config, selector_of(config, product), product, row);
    }
    assert forall|i: int| 0 <= i < p.table.copies.len() implies p.pair_holds(
        #[trigger] p.table.copies[i],
    ) by {
        assert(agree(done, done.table.copies[i]));
    }
    assert(l.table.exposed =~= Seq::empty());
    assert(p.table.exposed =~= seq![
        (Cell { column: config.advice[0], row: 11 }, Cell { column: config.instance, row: 0 }),
    ]);
}

} // verus!

//! The mock prover: lays a circuit out and checks every gate on every row,
//! every equality constraint and every binding to a public input.

use crate::chip::MyConfig;
use crate::circuit::{after_configure, synthesized, CircuitView, MyCircuit, CIRCUIT_ROWS};
use crate::column::{Cell, Column, ColumnKind, Selector};
use crate::constraint_system::{ConstraintSystem, ConstraintSystemView};
use crate::error::Error;
use crate::field::Field;
use crate::layouter::{Layouter, LayouterView};
use crate::table::{instance_view, Table, TableView};
use vstd::arithmetic::power2::{lemma_pow2_pos, pow2};
use vstd::prelude::*;

verus! {

/// A constraint that a table breaks.
#[derive(Debug, PartialEq, Eq)]
pub enum Violation {
    /// A polynomial of a gate does not vanish at a row.
    Gate { name: String, gate: usize, poly: usize, row: usize },
    /// Two cells that were declared equal differ, or one has no value.
    Copy { left: Cell, right: Cell },
    /// A cell differs from the public input that it is bound to, or one of
    /// the two has no value. The row of `input` is the index of the public
    /// input.
    PublicInput { cell: Cell, input: Cell },
}

/// A violation as mathematics.
pub enum ViolationView {
    Gate { name: Seq<char>, gate: nat, poly: nat, row: nat },
    Copy { left: Cell, right: Cell },
    PublicInput { cell: Cell, input: Cell },
}

impl View for Violation {
    type V = ViolationView;

    open spec fn view(&self) -> ViolationView {
        match *self {
            Violation::Gate { name, gate, poly, row } => ViolationView::Gate {
                name: name@,
                gate: gate as nat,
                poly: poly as nat,
                row: row as nat,
            },
            Violation::Copy { left, right } => ViolationView::Copy { left, right },
            Violation::PublicInput { cell, input } => ViolationView::PublicInput { cell, input },
        }
    }
}

/// The views of a list of violations.
pub open spec fn violations_view(violations: Seq<Violation>) -> Seq<ViolationView> {
    Seq::new(violations.len(), |i: int| violations[i]@)
}

/// The prover as mathematics: the structure of a circuit and a filled table.
pub struct ProverView<F: Field> {
    pub cs: ConstraintSystemView<F>,
    pub table: TableView,
}

impl<F: Field> ProverView<F> {
    /// Whether a polynomial of a gate vanishes at a row. One that depends on
    /// a cell without a value does not.
    pub open spec fn poly_holds(self, gate: int, poly: int, row: int) -> bool {
        self.cs.gates[gate].polys[poly].eval(self.table, row) == Some(0nat)
    }

    /// Whether an equality between two cells is enforced: only where both
    /// columns are enabled for equality.
    pub open spec fn enforced(self, pair: (Cell, Cell)) -> bool {
        self.cs.equality_enabled(pair.0.column) && self.cs.equality_enabled(pair.1.column)
    }

    /// Whether an equality between two cells holds: where it is enforced, both
    /// cells have a value, and the same one.
    pub open spec fn pair_holds(self, pair: (Cell, Cell)) -> bool {
        self.enforced(pair) ==> self.table.cell_value(pair.0).is_some() && self.table.cell_value(
            pair.0,
        ) == self.table.cell_value(pair.1)
    }

    /// Every gate holds on every row, every pair of cells declared equal
    /// holds, and every cell bound to a public input agrees with it.
    pub open spec fn satisfied(self) -> bool {
        &&& forall|row: int, gate: int, poly: int|
            0 <= row < self.table.rows && 0 <= gate < self.cs.gates.len() && 0 <= poly
                < self.cs.gates[gate].polys.len() ==> #[trigger] self.poly_holds(gate, poly, row)
        &&& forall|i: int|
            0 <= i < self.table.copies.len() ==> self.pair_holds(#[trigger] self.table.copies[i])
        &&& forall|i: int|
            0 <= i < self.table.exposed.len() ==> self.pair_holds(#[trigger] self.table.exposed[i])
    }

    /// The violation that a failing polynomial is reported as.
    pub open spec fn gate_violation(self, gate: int, poly: int, row: int) -> ViolationView {
        ViolationView::Gate {
            name: self.cs.gates[gate].name,
            gate: gate as nat,
            poly: poly as nat,
            row: row as nat,
        }
    }

    /// The violations of the first `upto` polynomials of a gate at a row.
    pub open spec fn poly_violations(self, row: int, gate: int, upto: nat) -> Seq<ViolationView>
        decreases upto,
    {
        if upto == 0 {
            Seq::empty()
        } else {
            let before = self.poly_violations(row, gate, (upto - 1) as nat);
            if self.poly_holds(gate, upto - 1, row) {
                before
            } else {
                before.push(self.gate_violation(gate, upto - 1, row))
            }
        }
    }

    /// The violations of the first `upto` gates at a row.
    pub open spec fn gate_violations(self, row: int, upto: nat) -> Seq<ViolationView>
        decreases upto,
    {
        if upto == 0 {
            Seq::empty()
        } else {
            self.gate_violations(row, (upto - 1) as nat) + self.poly_violations(
                row,
                upto - 1,
                self.cs.gates[upto - 1].polys.len(),
            )
        }
    }

    /// The violations of all gates on the first `upto` rows, row by row.
    pub open spec fn row_violations(self, upto: nat) -> Seq<ViolationView>
        decreases upto,
    {
        if upto == 0 {
            Seq::empty()
        } else {
            self.row_violations((upto - 1) as nat) + self.gate_violations(
                upto - 1,
                self.cs.gates.len(),
            )
        }
    }

    /// The violations among the first `upto` pairs of cells declared equal.
    pub open spec fn copy_violations(self, upto: nat) -> Seq<ViolationView>
        decreases upto,
    {
        if upto == 0 {
            Seq::empty()
        } else {
            let before = self.copy_violations((upto - 1) as nat);
            let pair = self.table.copies[upto - 1];
            if self.pair_holds(pair) {
                before
            } else {
                before.push(ViolationView::Copy { left: pair.0, right: pair.1 })
            }
        }
    }

    /// The violations among the first `upto` cells bound to public inputs.
    pub open spec fn exposure_violations(self, upto: nat) -> Seq<ViolationView>
        decreases upto,
    {
        if upto == 0 {
            Seq::empty()
        } else {
            let before = self.exposure_violations((upto - 1) as nat);
            let pair = self.table.exposed[upto - 1];
            if self.pair_holds(pair) {
                before
            } else {
                before.push(ViolationView::PublicInput { cell: pair.0, input: pair.1 })
            }
        }
    }

    /// Everything that the table breaks: the gates row by row, and within a
    /// row gate by gate; then the pairs of cells declared equal; then the
    /// cells bound to public inputs; each in the order recorded.
    pub open spec fn violations(self) -> Seq<ViolationView> {
        self.row_violations(self.table.rows) + self.copy_violations(self.table.copies.len())
            + self.exposure_violations(self.table.exposed.len())
    }
}

/// The columns and selectors that `configure` declares in an empty registry.
pub open spec fn first_config() -> MyConfig {
    MyConfig {
        advice: [
            Column { kind: ColumnKind::Advice, index: 0 },
            Column { kind: ColumnKind::Advice, index: 1 },
        ],
        instance: Column { kind: ColumnKind::Instance, index: 0 },
        s_mul: Selector { index: 0 },
        s_add: Selector { index: 1 },
    }
}

/// The structure of the circuit.
pub open spec fn circuit_structure<F: Field>() -> ConstraintSystemView<F> {
    after_configure(ConstraintSystemView::<F>::empty(), first_config())
}

/// The prover after the circuit was laid out in a fresh table of `2^k` rows
/// with the given public inputs.
pub open spec fn ran<F: Field>(k: nat, circuit: CircuitView, instance: Seq<Seq<nat>>)
    -> ProverView<F> {
    ProverView {
        cs: circuit_structure::<F>(),
        table: synthesized(
            LayouterView::initial(circuit_structure::<F>(), k, instance),
            first_config(),
            circuit,
        ).table,
    }
}

/// The mock prover: the structure of a circuit and its filled table.
#[derive(Debug)]
pub struct MockProver<F: Field> {
    cs: ConstraintSystem<F>,
    table: Table<F>,
}

impl<F: Field> View for MockProver<F> {
    type V = ProverView<F>;

    closed spec fn view(&self) -> ProverView<F> {
        ProverView { cs: self.cs@, table: self.table@ }
    }
}

impl<F: Field> MockProver<F> {
    /// The table is well formed, over the field `F`.
    pub open spec fn wf(&self) -> bool {
        self@.table.wf() && self@.table.order == F::order()
    }

    /// What `verify` returns: success when nothing is broken, else all the
    /// violations.
    pub open spec fn verified_as(&self, r: Result<(), Vec<Violation>>) -> bool {
        match r {
            Ok(_) => self@.violations().len() == 0,
            Err(v) => v@.len() > 0 && violations_view(v@) == self@.violations(),
        }
    }

    /// A prover over a structure and a table filled by hand.
    pub fn new(cs: ConstraintSystem<F>, table: Table<F>) -> (r: MockProver<F>)
        requires
            table.wf(),
        ensures
            r.wf(),
            r@ == (ProverView::<F> { cs: cs@, table: table@ }),
    {
        MockProver { cs, table }
    }

    /// Configures the circuit, lays it out in a fresh table of `2^k` rows with
    /// the given public inputs, one sequence for each instance column, and
    /// keeps the result for `verify`. Fails with `Error::OutOfRows` exactly
    /// when `2^k` is less than the rows that the circuit takes.
    pub fn run(k: u32, circuit: &MyCircuit<F>, instance: Vec<Vec<F>>) -> (r: Result<
        MockProver<F>,
        Error,
    >)
        requires
            pow2(k as nat) <= usize::MAX,
        ensures
            match r {
                Ok(prover) => {
                    &&& pow2(k as nat) >= CIRCUIT_ROWS
                    &&& prover.wf()
                    &&& prover@ == ran::<F>(k as nat, circuit@, instance_view(instance))
                },
                Err(e) => e == Error::OutOfRows && pow2(k as nat) < CIRCUIT_ROWS,
            },
    {
        let mut cs = ConstraintSystem::<F>::new();
        let config = MyCircuit::<F>::configure(&mut cs);
        proof {
            lemma_pow2_pos(k as nat);
            assert(config.advice =~= first_config().advice);
            assert(config == first_config());
        }
        let layouter = Layouter::new(&cs, k, instance);
        let layouter = circuit.synthesize(config, layouter)?;
        Ok(MockProver { cs, table: layouter.finish() })
    }

    /// The structure of the circuit.
    pub fn cs(&self) -> (r: &ConstraintSystem<F>)
        ensures
            r@ == self@.cs,
    {
        &self.cs
    }

    /// The filled table.
    pub fn table(&self) -> (r: &Table<F>)
        ensures
            r@ == self@.table,
    {
        &self.table
    }

    /// Appends the violations of one gate at one row.
    fn check_gate(&self, gate: usize, row: usize, out: &mut Vec<Violation>)
        requires
            self.wf(),
            gate < self@.cs.gates.len(),
            row < self@.table.rows,
        ensures
            violations_view(final(out)@) == violations_view(old(out)@) + self@.poly_violations(
                row as int,
                gate as int,
                self@.cs.gates[gate as int].polys.len(),
            ),
    {
        let g = self.cs.gate(gate);
        let polys = g.polys();
        let mut p: usize = 0;
        assert(violations_view(out@) =~= violations_view(old(out)@) + self@.poly_violations(
            row as int,
            gate as int,
            0,
        ));
        while p < polys.len()
            invariant
                self.wf(),
                gate < self@.cs.gates.len(),
                row < self@.table.rows,
                g@ == self@.cs.gates[gate as int],
                polys@ == g@.polys,
                p <= polys@.len(),
                violations_view(out@) == violations_view(old(out)@) + self@.poly_violations(
                    row as int,
                    gate as int,
                    p as nat,
                ),
            decreases polys@.len() - p,
        {
            let value = polys[p].evaluate(&self.table, row);
            let holds = match value.assign() {
                Ok(x) => x.is_zero(),
                Err(_) => false,
            };
            assert(holds == self@.poly_holds(gate as int, p as int, row as int));
            if !holds {
                let ghost before = out@;
                let violation = Violation::Gate { name: g.name().clone(), gate, poly: p, row };
                out.push(violation);
                assert(violations_view(out@) =~= violations_view(before).push(violation@));
                assert(violation@ == self@.gate_violation(gate as int, p as int, row as int));
                assert(violations_view(out@) =~= violations_view(old(out)@)
                    + self@.poly_violations(row as int, gate as int, (p + 1) as nat));
            }
            p += 1;
        }
    }

    /// Appends the violations of all gates at one row.
    fn check_row(&self, row: usize, out: &mut Vec<Violation>)
        requires
            self.wf(),
            row < self@.table.rows,
        ensures
            violations_view(final(out)@) == violations_view(old(out)@) + self@.gate_violations(
                row as int,
                self@.cs.gates.len(),
            ),
    {
        let mut g: usize = 0;
        assert(violations_view(out@) =~= violations_view(old(out)@) + self@.gate_violations(
            row as int,
            0,
        ));
        while g < self.cs.num_gates()
            invariant
                self.wf(),
                row < self@.table.rows,
                g <= self@.cs.gates.len(),
                violations_view(out@) == violations_view(old(out)@) + self@.gate_violations(
                    row as int,
                    g as nat,
                ),
            decreases self@.cs.gates.len() - g,
        {
            self.check_gate(g, row, out);
            assert(violations_view(out@) =~= violations_view(old(out)@) + self@.gate_violations(
                row as int,
                (g + 1) as nat,
            ));
            g += 1;
        }
    }

    /// Appends the violations of all gates on all rows.
    fn check_gates(&self, out: &mut Vec<Violation>)
        requires
            self.wf(),
        ensures
            violations_view(final(out)@) == violations_view(old(out)@) + self@.row_violations(
                self@.table.rows,
            ),
    {
        let mut row: usize = 0;
        let rows = self.table.rows();
        assert(violations_view(out@) =~= violations_view(old(out)@) + self@.row_violations(0));
        while row < rows
            invariant
                self.wf(),
                rows == self@.table.rows,
                row <= rows,
                violations_view(out@) == violations_view(old(out)@) + self@.row_violations(
                    row as nat,
                ),
            decreases rows - row,
        {
            self.check_row(row, out);
            assert(violations_view(out@) =~= violations_view(old(out)@) + self@.row_violations(
                (row + 1) as nat,
            ));
            row += 1;
        }
    }

    /// Whether an equality between two cells holds.
    fn check_pair(&self, pair: (Cell, Cell)) -> (r: bool)
        ensures
            r == self@.pair_holds(pair),
    {
        if self.cs.equality_enabled(pair.0.column) && self.cs.equality_enabled(pair.1.column) {
            let left = self.table.get(pair.0.column, pair.0.row);
            let right = self.table.get(pair.1.column, pair.1.row);
            left.is_known() && left == right
        } else {
            true
        }
    }

    /// Appends the violations among the pairs of cells declared equal.
    fn check_copies(&self, out: &mut Vec<Violation>)
        ensures
            violations_view(final(out)@) == violations_view(old(out)@) + self@.copy_violations(
                self@.table.copies.len(),
            ),
    {
        let mut i: usize = 0;
        let n = self.table.num_copies();
        assert(violations_view(out@) =~= violations_view(old(out)@) + self@.copy_violations(0));
        while i < n
            invariant
                n == self@.table.copies.len(),
                i <= n,
                violations_view(out@) == violations_view(old(out)@) + self@.copy_violations(
                    i as nat,
                ),
            decreases n - i,
        {
            let pair = self.table.copy_at(i);
            if !self.check_pair(pair) {
                let ghost before = out@;
                let violation = Violation::Copy { left: pair.0, right: pair.1 };
                out.push(violation);
                assert(violations_view(out@) =~= violations_view(before).push(violation@));
            }
            assert(violations_view(out@) =~= violations_view(old(out)@) + self@.copy_violations(
                (i + 1) as nat,
            ));
            i += 1;
        }
    }

    /// Appends the violations among the cells bound to public inputs.
    fn check_exposed(&self, out: &mut Vec<Violation>)
        ensures
            violations_view(final(out)@) == violations_view(old(out)@)
                + self@.exposure_violations(self@.table.exposed.len()),
    {
        let mut i: usize = 0;
        let n = self.table.num_exposed();
        assert(violations_view(out@) =~= violations_view(old(out)@) + self@.exposure_violations(
            0,
        ));
        while i < n
            invariant
                n == self@.table.exposed.len(),
                i <= n,
                violations_view(out@) == violations_view(old(out)@) + self@.exposure_violations(
                    i as nat,
                ),
            decreases n - i,
        {
            let pair = self.table.exposed_at(i);
            if !self.check_pair(pair) {
                let ghost before = out@;
                let violation = Violation::PublicInput { cell: pair.0, input: pair.1 };
                out.push(violation);
                assert(violations_view(out@) =~= violations_view(before).push(violation@));
            }
            assert(violations_view(out@) =~= violations_view(old(out)@)
                + self@.exposure_violations((i + 1) as nat));
            i += 1;
        }
    }

    /// Checks every gate on every row, every pair of cells declared equal and
    /// every cell bound to a public input, and reports all that fails.
    pub fn verify(&self) -> (r: Result<(), Vec<Violation>>)
        requires
            self.wf(),
        ensures
            self.verified_as(r),
    {
        let mut out: Vec<Violation> = Vec::new();
        assert(violations_view(out@) =~= Seq::empty());
        self.check_gates(&mut out);
        self.check_copies(&mut out);
        self.check_exposed(&mut out);
        assert(violations_view(out@) =~= self@.violations());
        if out.len() == 0 {
            Ok(())
        } else {
            Err(out)
        }
    }
}

} // verus!

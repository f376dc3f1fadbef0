//! The registry of a circuit's structure: how many columns of each kind there
//! are, which of them may take part in equality constraints, and the gates.

use crate::column::{Column, ColumnKind, Selector};
use crate::expression::Expression;
use crate::field::Field;
use vstd::prelude::*;

verus! {

/// A gate as mathematics: its name and its polynomials, each of which must
/// vanish on every row.
pub struct GateView<F: Field> {
    pub name: Seq<char>,
    pub polys: Seq<Expression<F>>,
}

/// The registry as mathematics.
pub struct ConstraintSystemView<F: Field> {
    /// The number of advice columns declared.
    pub num_advice: nat,
    /// The number of instance columns declared.
    pub num_instance: nat,
    /// The number of fixed columns declared.
    pub num_fixed: nat,
    /// The number of selectors declared.
    pub num_selectors: nat,
    /// The columns for which equality was enabled, in the order of the calls.
    pub equality: Seq<Column>,
    /// The fixed columns that hold the circuit's constants.
    pub constants: Seq<Column>,
    /// The gates, in the order they were created.
    pub gates: Seq<GateView<F>>,
}

impl<F: Field> ConstraintSystemView<F> {
    /// The registry with nothing declared.
    pub open spec fn empty() -> ConstraintSystemView<F> {
        ConstraintSystemView {
            num_advice: 0,
            num_instance: 0,
            num_fixed: 0,
            num_selectors: 0,
            equality: Seq::empty(),
            constants: Seq::empty(),
            gates: Seq::empty(),
        }
    }

    /// Whether the registry has a gate of the given name.
    pub open spec fn has_gate(self, name: Seq<char>) -> bool {
        exists|i: int| 0 <= i < self.gates.len() && (#[trigger] self.gates[i]).name == name
    }

    /// No two gates have the same name.
    pub open spec fn distinct_names(self) -> bool {
        forall|i: int, j: int|
            0 <= i < j < self.gates.len() ==> (#[trigger] self.gates[i]).name != (
            #[trigger] self.gates[j]).name
    }

    /// After a gate was added, the registry has the gates it had and that one.
    pub proof fn lemma_has_gate_after(
        self,
        name: Seq<char>,
        polys: Seq<Expression<F>>,
        other: Seq<char>,
    )
        ensures
            self.create_gate(name, polys).has_gate(other) <==> self.has_gate(other) || other
                == name,
    {
        let after = self.create_gate(name, polys);
        if after.has_gate(other) {
            let i = choose|i: int|
                0 <= i < after.gates.len() && (#[trigger] after.gates[i]).name == other;
            if i < self.gates.len() {
                assert(self.gates[i].name == other);
            }
        }
        if self.has_gate(other) {
            let i = choose|i: int|
                0 <= i < self.gates.len() && (#[trigger] self.gates[i]).name == other;
            assert(after.gates[i].name == other);
        }
        if other == name {
            assert(after.gates[self.gates.len() as int].name == other);
        }
    }

    /// A gate under a new name keeps the names distinct.
    pub proof fn lemma_create_gate_distinct(self, name: Seq<char>, polys: Seq<Expression<F>>)
        requires
            self.distinct_names(),
            !self.has_gate(name),
        ensures
            self.create_gate(name, polys).distinct_names(),
    {
        let after = self.create_gate(name, polys);
        assert forall|i: int, j: int| 0 <= i < j < after.gates.len() implies (
        #[trigger] after.gates[i]).name != (#[trigger] after.gates[j]).name by {
            assert(after.gates[i] == self.gates[i]);
            if j < self.gates.len() {
                assert(after.gates[j] == self.gates[j]);
            }
        }
    }

    /// Whether cells of the column may take part in equality constraints.
    pub open spec fn equality_enabled(self, column: Column) -> bool {
        self.equality.contains(column)
    }

    /// The registry after equality was enabled for a column.
    pub open spec fn enable_equality(self, column: Column) -> ConstraintSystemView<F> {
        ConstraintSystemView { equality: self.equality.push(column), ..self }
    }

    /// The registry after a fixed column was given to the constants.
    pub open spec fn enable_constant(self, column: Column) -> ConstraintSystemView<F> {
        ConstraintSystemView {
            constants: self.constants.push(column),
            equality: self.equality.push(column),
            ..self
        }
    }

    /// The registry with one more gate.
    pub open spec fn create_gate(self, name: Seq<char>, polys: Seq<Expression<F>>)
        -> ConstraintSystemView<F> {
        ConstraintSystemView { gates: self.gates.push(GateView { name, polys }), ..self }
    }
}

/// A named gate.
#[derive(Debug)]
pub struct Gate<F: Field> {
    name: String,
    polys: Vec<Expression<F>>,
}

impl<F: Field> View for Gate<F> {
    type V = GateView<F>;

    closed spec fn view(&self) -> GateView<F> {
        GateView { name: self.name@, polys: self.polys@ }
    }
}

impl<F: Field> Gate<F> {
    /// Its name.
    pub fn name(&self) -> (r: &String)
        ensures
            r@ == self@.name,
    {
        &self.name
    }

    /// Its polynomials, each of which must vanish on every row.
    pub fn polys(&self) -> (r: &Vec<Expression<F>>)
        ensures
            r@ == self@.polys,
    {
        &self.polys
    }
}

/// The views of a list of gates.
pub open spec fn gates_view<F: Field>(gates: Seq<Gate<F>>) -> Seq<GateView<F>> {
    Seq::new(gates.len(), |i: int| gates[i]@)
}

/// The registry that `configure` fills.
#[derive(Debug)]
pub struct ConstraintSystem<F: Field> {
    num_advice: usize,
    num_instance: usize,
    num_fixed: usize,
    num_selectors: usize,
    equality: Vec<Column>,
    constants: Vec<Column>,
    gates: Vec<Gate<F>>,
}

impl<F: Field> View for ConstraintSystem<F> {
    type V = ConstraintSystemView<F>;

    closed spec fn view(&self) -> ConstraintSystemView<F> {
        ConstraintSystemView {
            num_advice: self.num_advice as nat,
            num_instance: self.num_instance as nat,
            num_fixed: self.num_fixed as nat,
            num_selectors: self.num_selectors as nat,
            equality: self.equality@,
            constants: self.constants@,
            gates: gates_view(self.gates@),
        }
    }
}

impl<F: Field> ConstraintSystem<F> {
    /// A registry with nothing declared.
    pub fn new() -> (r: ConstraintSystem<F>)
        ensures
            r@ == ConstraintSystemView::<F>::empty(),
    {
        let r = ConstraintSystem {
            num_advice: 0,
            num_instance: 0,
            num_fixed: 0,
            num_selectors: 0,
            equality: Vec::new(),
            constants: Vec::new(),
            gates: Vec::new(),
        };
        assert(gates_view(r.gates@) =~= Seq::<GateView<F>>::empty());
        r
    }

    /// Declares an advice column.
    pub fn advice_column(&mut self) -> (r: Column)
        requires
            old(self)@.num_advice < usize::MAX,
        ensures
            r == (Column { kind: ColumnKind::Advice, index: old(self)@.num_advice as usize }),
            final(self)@ == (ConstraintSystemView {
                num_advice: old(self)@.num_advice + 1,
                ..old(self)@
            }),
    {
        let index = self.num_advice;
        self.num_advice = index + 1;
        Column { kind: ColumnKind::Advice, index }
    }

    /// Declares an instance column.
    pub fn instance_column(&mut self) -> (r: Column)
        requires
            old(self)@.num_instance < usize::MAX,
        ensures
            r == (Column { kind: ColumnKind::Instance, index: old(self)@.num_instance as usize }),
            final(self)@ == (ConstraintSystemView {
                num_instance: old(self)@.num_instance + 1,
                ..old(self)@
            }),
    {
        let index = self.num_instance;
        self.num_instance = index + 1;
        Column { kind: ColumnKind::Instance, index }
    }

    /// Declares a fixed column.
    pub fn fixed_column(&mut self) -> (r: Column)
        requires
            old(self)@.num_fixed < usize::MAX,
        ensures
            r == (Column { kind: ColumnKind::Fixed, index: old(self)@.num_fixed as usize }),
            final(self)@ == (ConstraintSystemView {
                num_fixed: old(self)@.num_fixed + 1,
                ..old(self)@
            }),
    {
        let index = self.num_fixed;
        self.num_fixed = index + 1;
        Column { kind: ColumnKind::Fixed, index }
    }

    /// Declares a selector.
    pub fn selector(&mut self) -> (r: Selector)
        requires
            old(self)@.num_selectors < usize::MAX,
        ensures
            r == (Selector { index: old(self)@.num_selectors as usize }),
            final(self)@ == (ConstraintSystemView {
                num_selectors: old(self)@.num_selectors + 1,
                ..old(self)@
            }),
    {
        let index = self.num_selectors;
        self.num_selectors = index + 1;
        Selector { index }
    }

    /// Lets the cells of a column take part in equality constraints.
    pub fn enable_equality(&mut self, column: Column)
        ensures
            final(self)@ == old(self)@.enable_equality(column),
    {
        self.equality.push(column);
    }

    /// Gives a fixed column to the circuit's constants; its cells may then
    /// take part in equality constraints too.
    pub fn enable_constant(&mut self, column: Column)
        ensures
            final(self)@ == old(self)@.enable_constant(column),
    {
        self.constants.push(column);
        self.equality.push(column);
    }

    /// Adds a gate under a name that no gate has yet: every one of `polys`
    /// must evaluate to zero on every row.
    pub fn create_gate(&mut self, name: &str, polys: Vec<Expression<F>>)
        requires
            !old(self)@.has_gate(name@),
        ensures
            final(self)@ == old(self)@.create_gate(name@, polys@),
            old(self)@.distinct_names() ==> final(self)@.distinct_names(),
    {
        proof {
            if self@.distinct_names() {
                self@.lemma_create_gate_distinct(name@, polys@);
            }
        }
        let gate = Gate { name: name.to_owned(), polys };
        self.gates.push(gate);
        assert(gates_view(self.gates@) =~= gates_view(old(self).gates@).push(gate@));
    }

    /// The number of advice columns declared.
    pub fn num_advice(&self) -> (r: usize)
        ensures
            r == self@.num_advice,
    {
        self.num_advice
    }

    /// The number of instance columns declared.
    pub fn num_instance(&self) -> (r: usize)
        ensures
            r == self@.num_instance,
    {
        self.num_instance
    }

    /// The number of fixed columns declared.
    pub fn num_fixed(&self) -> (r: usize)
        ensures
            r == self@.num_fixed,
    {
        self.num_fixed
    }

    /// The number of selectors declared.
    pub fn num_selectors(&self) -> (r: usize)
        ensures
            r == self@.num_selectors,
    {
        self.num_selectors
    }

    /// The number of gates.
    pub fn num_gates(&self) -> (r: usize)
        ensures
            r == self@.gates.len(),
    {
        self.gates.len()
    }

    /// The `i`-th gate.
    pub fn gate(&self, i: usize) -> (r: &Gate<F>)
        requires
            i < self@.gates.len(),
        ensures
            r@ == self@.gates[i as int],
    {
        &self.gates[i]
    }

    /// The fixed column that holds the constants: the first one given to them.
    pub fn constants_column(&self) -> (r: Option<Column>)
        ensures
            r == if self@.constants.len() > 0 {
                Some(self@.constants[0])
            } else {
                None
            },
    {
        if self.constants.len() > 0 {
            Some(self.constants[0])
        } else {
            None
        }
    }

    /// Whether equality was enabled for the column.
    pub fn equality_enabled(&self, column: Column) -> (r: bool)
        ensures
            r == self@.equality_enabled(column),
    {
        let mut i: usize = 0;
        while i < self.equality.len()
            invariant
                i <= self.equality@.len(),
                forall|j: int| 0 <= j < i ==> self.equality@[j] != column,
            decreases self.equality@.len() - i,
        {
            if self.equality[i] == column {
                return true;
            }
            i += 1;
        }
        false
    }
}

} // verus!

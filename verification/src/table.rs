//! The assignment table: a grid of cells, the selector flags, and the
//! equality constraints recorded while the grid was filled.

use crate::column::{Cell, Column, ColumnKind, Selector};
use crate::field::Field;
use crate::value::{canonical, Value};
use vstd::prelude::*;

verus! {

/// The table as mathematics. Cells hold `Some` of an integer below the field
/// order, or `None` where nothing is known.
pub struct TableView {
    /// The order of the field that the values belong to.
    pub order: nat,
    /// The number of rows.
    pub rows: nat,
    /// The advice columns, each of `rows` cells.
    pub advice: Seq<Seq<Option<nat>>>,
    /// The fixed columns, each of `rows` cells.
    pub fixed: Seq<Seq<Option<nat>>>,
    /// The public inputs, one sequence per instance column.
    pub instance: Seq<Seq<nat>>,
    /// The selector columns, each of `rows` flags.
    pub selectors: Seq<Seq<bool>>,
    /// The pairs of cells that were declared equal, in the order recorded.
    pub copies: Seq<(Cell, Cell)>,
    /// The cells bound to public inputs, each with the instance cell it is
    /// bound to, in the order recorded.
    pub exposed: Seq<(Cell, Cell)>,
}

impl TableView {
    /// Every column has `rows` cells, there is at least one row and no more
    /// than a `usize` can count, and every known cell holds a field element.
    pub open spec fn wf(self) -> bool {
        &&& 1 < self.order
        &&& 0 < self.rows <= usize::MAX
        &&& forall|c: int|
            0 <= c < self.advice.len() ==> (#[trigger] self.advice[c]).len() == self.rows
        &&& forall|c: int|
            0 <= c < self.fixed.len() ==> (#[trigger] self.fixed[c]).len() == self.rows
        &&& forall|c: int|
            0 <= c < self.selectors.len() ==> (#[trigger] self.selectors[c]).len() == self.rows
        &&& forall|c: int, r: int|
            0 <= c < self.advice.len() && 0 <= r < self.rows ==> canonical(
                self.order,
                #[trigger] self.advice[c][r],
            )
        &&& forall|c: int, r: int|
            0 <= c < self.fixed.len() && 0 <= r < self.rows ==> canonical(
                self.order,
                #[trigger] self.fixed[c][r],
            )
    }

    /// Whether the column is an advice or fixed column of this table, whose
    /// cells can be assigned.
    pub open spec fn assignable(self, column: Column) -> bool {
        match column.kind {
            ColumnKind::Advice => column.index < self.advice.len(),
            ColumnKind::Fixed => column.index < self.fixed.len(),
            ColumnKind::Instance => false,
        }
    }

    /// The value of a cell. A cell that the table does not have, or a public
    /// input that was not supplied, has no value.
    pub open spec fn value(self, column: Column, row: int) -> Option<nat> {
        let c = column.index as int;
        match column.kind {
            ColumnKind::Advice => if c < self.advice.len() && 0 <= row < self.advice[c].len() {
                self.advice[c][row]
            } else {
                None
            },
            ColumnKind::Fixed => if c < self.fixed.len() && 0 <= row < self.fixed[c].len() {
                self.fixed[c][row]
            } else {
                None
            },
            ColumnKind::Instance => if c < self.instance.len() && 0 <= row
                < self.instance[c].len() {
                Some(self.instance[c][row])
            } else {
                None
            },
        }
    }

    /// The value of a cell given as a `Cell`.
    pub open spec fn cell_value(self, cell: Cell) -> Option<nat> {
        self.value(cell.column, cell.row as int)
    }

    /// Whether the selector is switched on at the row; a selector that the
    /// table does not have is off everywhere.
    pub open spec fn enabled(self, selector: Selector, row: int) -> bool {
        let s = selector.index as int;
        s < self.selectors.len() && 0 <= row < self.selectors[s].len() && self.selectors[s][row]
    }

    /// The table with one advice or fixed cell set.
    pub open spec fn set(self, column: Column, row: int, v: Option<nat>) -> TableView {
        let c = column.index as int;
        match column.kind {
            ColumnKind::Advice => TableView {
                advice: self.advice.update(c, self.advice[c].update(row, v)),
                ..self
            },
            ColumnKind::Fixed => TableView {
                fixed: self.fixed.update(c, self.fixed[c].update(row, v)),
                ..self
            },
            ColumnKind::Instance => self,
        }
    }

    /// The table with a selector switched on at one row.
    pub open spec fn enable(self, selector: Selector, row: int) -> TableView {
        let s = selector.index as int;
        TableView {
            selectors: self.selectors.update(s, self.selectors[s].update(row, true)),
            ..self
        }
    }

    /// The table with one more pair of cells declared equal.
    pub open spec fn copy(self, left: Cell, right: Cell) -> TableView {
        TableView { copies: self.copies.push((left, right)), ..self }
    }

    /// The table with one more cell bound to a public input.
    pub open spec fn expose(self, cell: Cell, input: Cell) -> TableView {
        TableView { exposed: self.exposed.push((cell, input)), ..self }
    }

    /// Setting a cell keeps the table well formed and changes the value of
    /// that cell alone.
    pub proof fn lemma_set(self, column: Column, row: int, v: Option<nat>)
        requires
            self.wf(),
            self.assignable(column),
            0 <= row < self.rows,
            canonical(self.order, v),
        ensures
            self.set(column, row, v).wf(),
            forall|c: Column, r: int| #[trigger]
                self.set(column, row, v).value(c, r) == if c == column && r == row {
                    v
                } else {
                    self.value(c, r)
                },
            forall|s: Selector, r: int| #[trigger]
                self.set(column, row, v).enabled(s, r) == self.enabled(s, r),
    {
        let t = self.set(column, row, v);
        let i = column.index as int;
        match column.kind {
            ColumnKind::Advice => {
                assert(self.advice[i].len() == self.rows);
                assert forall|c: int| 0 <= c < t.advice.len() implies (#[trigger] t.advice[c]).len()
                    == t.rows by {
                    assert(self.advice[c].len() == self.rows);
                }
                assert forall|c: int, r: int|
                    0 <= c < t.advice.len() && 0 <= r < t.rows implies canonical(
                    t.order,
                    #[trigger] t.advice[c][r],
                ) by {
                    assert(self.advice[c].len() == self.rows);
                    assert(canonical(self.order, self.advice[c][r]));
                }
            },
            ColumnKind::Fixed => {
                assert(self.fixed[i].len() == self.rows);
                assert forall|c: int| 0 <= c < t.fixed.len() implies (#[trigger] t.fixed[c]).len()
                    == t.rows by {
                    assert(self.fixed[c].len() == self.rows);
                }
                assert forall|c: int, r: int|
                    0 <= c < t.fixed.len() && 0 <= r < t.rows implies canonical(
                    t.order,
                    #[trigger] t.fixed[c][r],
                ) by {
                    assert(self.fixed[c].len() == self.rows);
                    assert(canonical(self.order, self.fixed[c][r]));
                }
            },
            ColumnKind::Instance => {},
        }
        assert forall|c: Column, r: int| #[trigger]
            t.value(c, r) == if c == column && r == row {
                v
            } else {
                self.value(c, r)
            } by {
            let j = c.index as int;
            if c.kind == ColumnKind::Advice && j < self.advice.len() {
                assert(self.advice[j].len() == self.rows);
            }
            if c.kind == ColumnKind::Fixed && j < self.fixed.len() {
                assert(self.fixed[j].len() == self.rows);
            }
        }
    }

    /// Switching a selector on keeps the table well formed and changes that
    /// one flag alone.
    pub proof fn lemma_enable(self, selector: Selector, row: int)
        requires
            self.wf(),
            selector.index < self.selectors.len(),
            0 <= row < self.rows,
        ensures
            self.enable(selector, row).wf(),
            forall|c: Column, r: int| #[trigger]
                self.enable(selector, row).value(c, r) == self.value(c, r),
            forall|s: Selector, r: int| #[trigger]
                self.enable(selector, row).enabled(s, r) == (self.enabled(s, r) || (s == selector
                    && r == row)),
    {
        let t = self.enable(selector, row);
        let i = selector.index as int;
        assert(self.selectors[i].len() == self.rows);
        assert forall|c: int| 0 <= c < t.selectors.len() implies (#[trigger] t.selectors[c]).len()
            == t.rows by {
            assert(self.selectors[c].len() == self.rows);
        }
        assert forall|s: Selector, r: int| #[trigger]
            t.enabled(s, r) == (self.enabled(s, r) || (s == selector && r == row)) by {
            let j = s.index as int;
            if j < self.selectors.len() {
                assert(self.selectors[j].len() == self.rows);
            }
        }
    }

    /// Declaring two cells equal changes no value and no flag.
    pub proof fn lemma_copy(self, left: Cell, right: Cell)
        ensures
            self.wf() ==> self.copy(left, right).wf(),
            forall|c: Column, r: int| #[trigger]
                self.copy(left, right).value(c, r) == self.value(c, r),
            forall|s: Selector, r: int| #[trigger]
                self.copy(left, right).enabled(s, r) == self.enabled(s, r),
    {
    }

    /// Binding a cell to a public input changes no value and no flag.
    pub proof fn lemma_expose(self, cell: Cell, input: Cell)
        ensures
            self.wf() ==> self.expose(cell, input).wf(),
            forall|c: Column, r: int| #[trigger]
                self.expose(cell, input).value(c, r) == self.value(c, r),
            forall|s: Selector, r: int| #[trigger]
                self.expose(cell, input).enabled(s, r) == self.enabled(s, r),
    {
    }

    /// In the empty table no advice or fixed cell has a value, every public
    /// input is as supplied, and every selector is off.
    pub proof fn lemma_empty(
        order: nat,
        advice: nat,
        fixed: nat,
        selectors: nat,
        rows: nat,
        instance: Seq<Seq<nat>>,
    )
        requires
            1 < order,
            0 < rows <= usize::MAX,
        ensures
            Self::empty(order, advice, fixed, selectors, rows, instance).wf(),
            forall|c: Column, r: int|
                c.kind != ColumnKind::Instance ==> #[trigger] Self::empty(
                    order,
                    advice,
                    fixed,
                    selectors,
                    rows,
                    instance,
                ).value(c, r) == None::<nat>,
            forall|s: Selector, r: int|
                !#[trigger] Self::empty(order, advice, fixed, selectors, rows, instance).enabled(
                    s,
                    r,
                ),
    {
    }

    /// The empty table of the given shape.
    pub open spec fn empty(
        order: nat,
        advice: nat,
        fixed: nat,
        selectors: nat,
        rows: nat,
        instance: Seq<Seq<nat>>,
    ) -> TableView {
        TableView {
            order,
            rows,
            advice: Seq::new(advice, |c: int| Seq::new(rows, |r: int| None::<nat>)),
            fixed: Seq::new(fixed, |c: int| Seq::new(rows, |r: int| None::<nat>)),
            instance,
            selectors: Seq::new(selectors, |c: int| Seq::new(rows, |r: int| false)),
            copies: Seq::empty(),
            exposed: Seq::empty(),
        }
    }
}

/// The values of a column of cells.
pub open spec fn column_view<F: Field>(column: Vec<Value<F>>) -> Seq<Option<nat>> {
    Seq::new(column@.len(), |r: int| column@[r]@)
}

/// The values of several columns of cells.
pub open spec fn columns_view<F: Field>(columns: Vec<Vec<Value<F>>>) -> Seq<Seq<Option<nat>>> {
    Seq::new(columns@.len(), |c: int| column_view(columns@[c]))
}

/// The public inputs as integers.
pub open spec fn instance_view<F: Field>(instance: Vec<Vec<F>>) -> Seq<Seq<nat>> {
    Seq::new(
        instance@.len(),
        |c: int| Seq::new(instance@[c]@.len(), |r: int| instance@[c]@[r].value()),
    )
}

/// The flags of several selector columns.
pub open spec fn selectors_view(selectors: Vec<Vec<bool>>) -> Seq<Seq<bool>> {
    Seq::new(selectors@.len(), |c: int| selectors@[c]@)
}

/// The assignment table.
#[derive(Debug)]
pub struct Table<F: Field> {
    rows: usize,
    advice: Vec<Vec<Value<F>>>,
    fixed: Vec<Vec<Value<F>>>,
    instance: Vec<Vec<F>>,
    selectors: Vec<Vec<bool>>,
    copies: Vec<(Cell, Cell)>,
    exposed: Vec<(Cell, Cell)>,
}

impl<F: Field> View for Table<F> {
    type V = TableView;

    closed spec fn view(&self) -> TableView {
        TableView {
            order: F::order(),
            rows: self.rows as nat,
            advice: columns_view(self.advice),
            fixed: columns_view(self.fixed),
            instance: instance_view(self.instance),
            selectors: selectors_view(self.selectors),
            copies: self.copies@,
            exposed: self.exposed@,
        }
    }
}

/// A column of `rows` unknown cells.
fn blank_column<F: Field>(rows: usize) -> (r: Vec<Value<F>>)
    ensures
        column_view(r) == Seq::new(rows as nat, |r: int| None::<nat>),
{
    let mut column: Vec<Value<F>> = Vec::new();
    while column.len() < rows
        invariant
            column@.len() <= rows,
            forall|i: int| 0 <= i < column@.len() ==> column@[i]@ == None::<nat>,
        decreases rows - column@.len(),
    {
        column.push(Value::unknown());
    }
    assert(column_view(column) =~= Seq::new(rows as nat, |r: int| None::<nat>));
    column
}

/// `count` columns of `rows` unknown cells each.
fn blank_columns<F: Field>(count: usize, rows: usize) -> (r: Vec<Vec<Value<F>>>)
    ensures
        columns_view(r) == Seq::new(
            count as nat,
            |c: int| Seq::new(rows as nat, |r: int| None::<nat>),
        ),
{
    let mut columns: Vec<Vec<Value<F>>> = Vec::new();
    while columns.len() < count
        invariant
            columns@.len() <= count,
            forall|c: int|
                0 <= c < columns@.len() ==> column_view(#[trigger] columns@[c]) == Seq::new(
                    rows as nat,
                    |r: int| None::<nat>,
                ),
        decreases count - columns@.len(),
    {
        columns.push(blank_column(rows));
    }
    assert(columns_view(columns) =~= Seq::new(
        count as nat,
        |c: int| Seq::new(rows as nat, |r: int| None::<nat>),
    ));
    columns
}

/// `count` selector columns of `rows` flags each, all off.
fn blank_selectors(count: usize, rows: usize) -> (r: Vec<Vec<bool>>)
    ensures
        selectors_view(r) == Seq::new(count as nat, |c: int| Seq::new(rows as nat, |r: int| false)),
{
    let mut columns: Vec<Vec<bool>> = Vec::new();
    while columns.len() < count
        invariant
            columns@.len() <= count,
            forall|c: int|
                0 <= c < columns@.len() ==> (#[trigger] columns@[c])@ == Seq::new(
                    rows as nat,
                    |r: int| false,
                ),
        decreases count - columns@.len(),
    {
        let mut column: Vec<bool> = Vec::new();
        while column.len() < rows
            invariant
                column@.len() <= rows,
                forall|i: int| 0 <= i < column@.len() ==> !column@[i],
            decreases rows - column@.len(),
        {
            column.push(false);
        }
        assert(column@ =~= Seq::new(rows as nat, |r: int| false));
        columns.push(column);
    }
    assert(selectors_view(columns) =~= Seq::new(
        count as nat,
        |c: int| Seq::new(rows as nat, |r: int| false),
    ));
    columns
}

impl<F: Field> Table<F> {
    /// The table is well formed when its view is, over the field `F`.
    pub open spec fn wf(&self) -> bool {
        self@.wf() && self@.order == F::order()
    }

    /// An empty table: every cell unknown, every selector off, no constraint
    /// recorded.
    pub fn new(
        advice: usize,
        fixed: usize,
        selectors: usize,
        rows: usize,
        instance: Vec<Vec<F>>,
    ) -> (r: Table<F>)
        requires
            rows > 0,
        ensures
            r.wf(),
            r@ == TableView::empty(
                F::order(),
                advice as nat,
                fixed as nat,
                selectors as nat,
                rows as nat,
                instance_view(instance),
            ),
    {
        proof {
            F::lemma_order();
        }
        Table {
            rows,
            advice: blank_columns(advice, rows),
            fixed: blank_columns(fixed, rows),
            instance,
            selectors: blank_selectors(selectors, rows),
            copies: Vec::new(),
            exposed: Vec::new(),
        }
    }

    /// The number of rows.
    pub fn rows(&self) -> (r: usize)
        ensures
            r == self@.rows,
    {
        self.rows
    }

    /// The number of advice columns.
    pub fn num_advice(&self) -> (r: usize)
        ensures
            r == self@.advice.len(),
    {
        self.advice.len()
    }

    /// The number of fixed columns.
    pub fn num_fixed(&self) -> (r: usize)
        ensures
            r == self@.fixed.len(),
    {
        self.fixed.len()
    }

    /// The number of selectors.
    pub fn num_selectors(&self) -> (r: usize)
        ensures
            r == self@.selectors.len(),
    {
        self.selectors.len()
    }

    /// The value of a cell; unknown where the table has no such cell.
    pub fn get(&self, column: Column, row: usize) -> (r: Value<F>)
        ensures
            r@ == self@.value(column, row as int),
    {
        let c = column.index;
        match column.kind {
            ColumnKind::Advice => {
                if c < self.advice.len() && row < self.advice[c].len() {
                    self.advice[c][row]
                } else {
                    Value::unknown()
                }
            },
            ColumnKind::Fixed => {
                if c < self.fixed.len() && row < self.fixed[c].len() {
                    self.fixed[c][row]
                } else {
                    Value::unknown()
                }
            },
            ColumnKind::Instance => {
                if c < self.instance.len() && row < self.instance[c].len() {
                    Value::known(self.instance[c][row])
                } else {
                    Value::unknown()
                }
            },
        }
    }

    /// Whether a selector is on at a row.
    pub fn enabled(&self, selector: Selector, row: usize) -> (r: bool)
        ensures
            r == self@.enabled(selector, row as int),
    {
        let s = selector.index;
        s < self.selectors.len() && row < self.selectors[s].len() && self.selectors[s][row]
    }

    /// Sets an advice or fixed cell.
    pub fn set(&mut self, column: Column, row: usize, value: Value<F>)
        requires
            old(self).wf(),
            old(self)@.assignable(column),
            row < old(self)@.rows,
        ensures
            final(self).wf(),
            final(self)@ == old(self)@.set(column, row as int, value@),
    {
        proof {
            value.lemma_canonical();
            self@.lemma_set(column, row as int, value@);
        }
        let c = column.index;
        match column.kind {
            ColumnKind::Advice => {
                assert(self@.advice[c as int].len() == self.rows);
                self.advice[c][row] = value;
                assert(columns_view(self.advice) =~~= columns_view(old(self).advice).update(
                    c as int,
                    columns_view(old(self).advice)[c as int].update(row as int, value@),
                ));
            },
            ColumnKind::Fixed => {
                assert(self@.fixed[c as int].len() == self.rows);
                self.fixed[c][row] = value;
                assert(columns_view(self.fixed) =~~= columns_view(old(self).fixed).update(
                    c as int,
                    columns_view(old(self).fixed)[c as int].update(row as int, value@),
                ));
            },
            ColumnKind::Instance => {},
        }
    }

    /// Switches a selector on at a row.
    pub fn enable(&mut self, selector: Selector, row: usize)
        requires
            old(self).wf(),
            selector.index < old(self)@.selectors.len(),
            row < old(self)@.rows,
        ensures
            final(self).wf(),
            final(self)@ == old(self)@.enable(selector, row as int),
    {
        let s = selector.index;
        proof {
            self@.lemma_enable(selector, row as int);
        }
        assert(self@.selectors[s as int].len() == self.rows);
        self.selectors[s][row] = true;
        assert(selectors_view(self.selectors) =~~= selectors_view(old(self).selectors).update(
            s as int,
            selectors_view(old(self).selectors)[s as int].update(row as int, true),
        ));
    }

    /// Declares two cells equal.
    pub fn copy(&mut self, left: Cell, right: Cell)
        requires
            old(self).wf(),
        ensures
            final(self).wf(),
            final(self)@ == old(self)@.copy(left, right),
    {
        self.copies.push((left, right));
    }

    /// Binds a cell to a public input, given as a cell of an instance column.
    pub fn expose(&mut self, cell: Cell, input: Cell)
        requires
            old(self).wf(),
        ensures
            final(self).wf(),
            final(self)@ == old(self)@.expose(cell, input),
    {
        self.exposed.push((cell, input));
    }

    /// How many pairs of cells were declared equal.
    pub fn num_copies(&self) -> (r: usize)
        ensures
            r == self@.copies.len(),
    {
        self.copies.len()
    }

    /// The `i`-th pair of cells declared equal.
    pub fn copy_at(&self, i: usize) -> (r: (Cell, Cell))
        requires
            i < self@.copies.len(),
        ensures
            r == self@.copies[i as int],
    {
        self.copies[i]
    }

    /// How many cells were bound to public inputs.
    pub fn num_exposed(&self) -> (r: usize)
        ensures
            r == self@.exposed.len(),
    {
        self.exposed.len()
    }

    /// The `i`-th cell bound to a public input, with the instance cell.
    pub fn exposed_at(&self, i: usize) -> (r: (Cell, Cell))
        requires
            i < self@.exposed.len(),
        ensures
            r == self@.exposed[i as int],
    {
        self.exposed[i]
    }
}

} // verus!

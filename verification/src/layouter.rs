//! The layouter: places regions one after the other in the table and turns
//! region-relative assignments into cells.

use crate::column::{Cell, Column, ColumnKind, Selector};
use crate::constraint_system::{ConstraintSystem, ConstraintSystemView};
use crate::error::Error;
use crate::field::Field;
use crate::table::{instance_view, Table, TableView};
use crate::value::{canonical, Value};
use vstd::arithmetic::power2::{lemma2_to64, lemma_pow2_strictly_increases, lemma_pow2_unfold, pow2};
use vstd::prelude::*;

verus! {

/// A region as mathematics: a name and the rows `start..start + rows`.
pub struct RegionView {
    pub name: Seq<char>,
    pub start: nat,
    pub rows: nat,
}

/// An assigned cell as mathematics: where it is and what was put there.
pub struct AssignedCellView {
    pub cell: Cell,
    pub value: Option<nat>,
}

/// The layouter as mathematics.
pub struct LayouterView {
    /// The table filled so far.
    pub table: TableView,
    /// The regions placed so far; the last one is open.
    pub regions: Seq<RegionView>,
    /// The fixed column that receives the constants, if the circuit has one.
    pub constants_column: Option<Column>,
    /// How many rows of that column hold a constant.
    pub constants_used: nat,
}

impl LayouterView {
    /// The first row of the open region.
    pub open spec fn start(self) -> nat {
        if self.regions.len() == 0 {
            0
        } else {
            self.regions.last().start
        }
    }

    /// The number of rows that the regions placed so far take up.
    pub open spec fn used(self) -> nat {
        if self.regions.len() == 0 {
            0
        } else {
            self.regions.last().start + self.regions.last().rows
        }
    }

    /// The number of rows after the open region.
    pub open spec fn room(self) -> int {
        self.table.rows - self.used()
    }

    /// Whether a region is open.
    pub open spec fn in_region(self) -> bool {
        self.regions.len() > 0
    }

    /// Regions follow one another without gap or overlap, starting at row 0,
    /// and the table has a row for each of theirs.
    pub open spec fn wf(self) -> bool {
        &&& self.table.wf()
        &&& forall|i: int|
            0 <= i < self.regions.len() ==> (#[trigger] self.regions[i]).start == if i == 0 {
                0
            } else {
                self.regions[i - 1].start + self.regions[i - 1].rows
            }
        &&& self.used() <= self.table.rows
        &&& self.constants_used <= self.table.rows
        &&& (self.constants_column matches Some(c) ==> c.kind == ColumnKind::Fixed && c.index
            < self.table.fixed.len())
    }

    /// Whether `column` is an advice column of the table.
    pub open spec fn has_advice(self, column: Column) -> bool {
        column.kind == ColumnKind::Advice && column.index < self.table.advice.len()
    }

    /// Whether `selector` is a selector of the table.
    pub open spec fn has_selector(self, selector: Selector) -> bool {
        selector.index < self.table.selectors.len()
    }

    /// Whether the table has the row at `offset` in the open region.
    pub open spec fn fits(self, offset: nat) -> bool {
        self.start() + offset < self.table.rows
    }

    /// The cell of `column` at `offset` in the open region.
    pub open spec fn cell(self, column: Column, offset: nat) -> Cell {
        Cell { column, row: (self.start() + offset) as usize }
    }

    /// The layouter over an empty table of `2^k` rows, shaped as the registry
    /// says. The constants go to the first column given to them, provided it
    /// is a fixed column that was declared.
    pub open spec fn initial<F: Field>(
        cs: ConstraintSystemView<F>,
        k: nat,
        instance: Seq<Seq<nat>>,
    ) -> LayouterView {
        LayouterView {
            table: TableView::empty(
                F::order(),
                cs.num_advice,
                cs.num_fixed,
                cs.num_selectors,
                pow2(k),
                instance,
            ),
            regions: Seq::empty(),
            constants_column: if cs.constants.len() > 0 && cs.constants[0].kind == ColumnKind::Fixed
                && cs.constants[0].index < cs.num_fixed {
                Some(cs.constants[0])
            } else {
                None
            },
            constants_used: 0,
        }
    }

    /// A new region opens right after the rows used so far.
    pub open spec fn begin_region(self, name: Seq<char>) -> LayouterView {
        LayouterView {
            regions: self.regions.push(RegionView { name, start: self.used(), rows: 0 }),
            ..self
        }
    }

    /// The open region grows to hold the row at `offset`.
    pub open spec fn touch(self, offset: nat) -> LayouterView {
        let last = self.regions.last();
        let rows = if offset + 1 > last.rows {
            offset + 1
        } else {
            last.rows
        };
        LayouterView {
            regions: self.regions.update(
                self.regions.len() - 1,
                RegionView { rows, ..last },
            ),
            ..self
        }
    }

    /// A value is put into the advice cell at `offset` of the open region.
    pub open spec fn assign_advice(self, column: Column, offset: nat, v: Option<nat>)
        -> LayouterView {
        LayouterView {
            table: self.table.set(column, (self.start() + offset) as int, v),
            ..self.touch(offset)
        }
    }

    /// A selector is switched on at `offset` of the open region.
    pub open spec fn enable_selector(self, selector: Selector, offset: nat) -> LayouterView {
        LayouterView {
            table: self.table.enable(selector, (self.start() + offset) as int),
            ..self.touch(offset)
        }
    }

    /// The value of an earlier cell is put into the advice cell at `offset` of
    /// the open region, and the two cells are declared equal.
    pub open spec fn copy_advice(self, source: AssignedCellView, column: Column, offset: nat)
        -> LayouterView {
        let after = self.assign_advice(column, offset, source.value);
        LayouterView { table: after.table.copy(self.cell(column, offset), source.cell), ..after }
    }

    /// The cell of the constants column that the next constant goes to.
    pub open spec fn constant_cell(self) -> Cell {
        Cell { column: self.constants_column.unwrap(), row: self.constants_used as usize }
    }

    /// A constant is put into the advice cell at `offset` of the open region
    /// and into the next free cell of the constants column, and the two cells
    /// are declared equal.
    pub open spec fn assign_advice_from_constant(self, column: Column, offset: nat, c: nat)
        -> LayouterView {
        let after = self.assign_advice(column, offset, Some(c));
        let fixed = self.constant_cell();
        LayouterView {
            table: after.table.set(fixed.column, fixed.row as int, Some(c)).copy(
                self.cell(column, offset),
                fixed,
            ),
            constants_used: self.constants_used + 1,
            ..after
        }
    }

    /// A cell is bound to the public input at `row` of an instance column.
    pub open spec fn constrain_instance(self, cell: Cell, instance: Column, row: nat)
        -> LayouterView {
        LayouterView {
            table: self.table.expose(cell, Cell { column: instance, row: row as usize }),
            ..self
        }
    }

    /// Rows are never revisited: an assignment in the open region changes no
    /// advice cell of the regions before it.
    pub proof fn lemma_assign_advice_keeps(self, column: Column, offset: nat, v: Option<nat>)
        requires
            self.wf(),
            self.in_region(),
            self.has_advice(column),
            self.fits(offset),
            canonical(self.table.order, v),
        ensures
            self.assign_advice(column, offset, v).wf(),
            self.assign_advice(column, offset, v).start() == self.start(),
            forall|c: Column, r: int|
                !(c == column && r == self.start() + offset) ==> #[trigger] self.assign_advice(
                    column,
                    offset,
                    v,
                ).table.value(c, r) == self.table.value(c, r),
            forall|s: Selector, r: int| #[trigger]
                self.assign_advice(column, offset, v).table.enabled(s, r) == self.table.enabled(
                    s,
                    r,
                ),
    {
        self.lemma_touch(offset);
        self.table.lemma_set(column, (self.start() + offset) as int, v);
    }

    /// Rows are never revisited: switching a selector on in the open region
    /// changes no cell, and no flag but the one at that row.
    pub proof fn lemma_enable_selector_keeps(self, selector: Selector, offset: nat)
        requires
            self.wf(),
            self.in_region(),
            self.has_selector(selector),
            self.fits(offset),
        ensures
            self.enable_selector(selector, offset).wf(),
            self.enable_selector(selector, offset).start() == self.start(),
            forall|c: Column, r: int| #[trigger]
                self.enable_selector(selector, offset).table.value(c, r) == self.table.value(c, r),
            forall|s: Selector, r: int|
                !(s == selector && r == self.start() + offset) ==> #[trigger] self.enable_selector(
                    selector,
                    offset,
                ).table.enabled(s, r) == self.table.enabled(s, r),
    {
        self.lemma_touch(offset);
        self.table.lemma_enable(selector, (self.start() + offset) as int);
    }

    /// Opening a region keeps the layouter well formed.
    pub proof fn lemma_begin_region(self, name: Seq<char>)
        requires
            self.wf(),
        ensures
            self.begin_region(name).wf(),
            self.begin_region(name).in_region(),
            self.begin_region(name).start() == self.used(),
            self.begin_region(name).used() == self.used(),
    {
        let l = self.begin_region(name);
        assert forall|i: int| 0 <= i < l.regions.len() implies (#[trigger] l.regions[i]).start
            == if i == 0 {
            0
        } else {
            l.regions[i - 1].start + l.regions[i - 1].rows
        } by {
            if i < self.regions.len() {
                assert(l.regions[i] == self.regions[i]);
            }
        }
    }

    /// Growing the open region keeps the layouter well formed, keeps where the
    /// region starts, and uses the rows up to the one touched.
    pub proof fn lemma_touch(self, offset: nat)
        requires
            self.wf(),
            self.in_region(),
            self.fits(offset),
        ensures
            self.touch(offset).wf(),
            self.touch(offset).in_region(),
            self.touch(offset).start() == self.start(),
            self.touch(offset).used() == if self.start() + offset + 1 > self.used() {
                self.start() + offset + 1
            } else {
                self.used()
            },
    {
        let l = self.touch(offset);
        assert forall|i: int| 0 <= i < l.regions.len() implies (#[trigger] l.regions[i]).start
            == if i == 0 {
            0
        } else {
            l.regions[i - 1].start + l.regions[i - 1].rows
        } by {
            assert(l.regions[i].start == self.regions[i].start);
            if i > 0 {
                assert(l.regions[i - 1] == self.regions[i - 1]);
            }
        }
    }
}

/// A cell that was assigned, with the value put there.
#[derive(Clone, Copy, Debug)]
pub struct AssignedCell<F: Field> {
    cell: Cell,
    value: Value<F>,
}

impl<F: Field> View for AssignedCell<F> {
    type V = AssignedCellView;

    closed spec fn view(&self) -> AssignedCellView {
        AssignedCellView { cell: self.cell, value: self.value@ }
    }
}

impl<F: Field> AssignedCell<F> {
    /// Where the cell is.
    pub fn cell(&self) -> (r: Cell)
        ensures
            r == self@.cell,
    {
        self.cell
    }

    /// The value that was put there.
    pub fn value(&self) -> (r: Value<F>)
        ensures
            r@ == self@.value,
    {
        self.value
    }
}

/// A named range of rows that one operation of a circuit fills.
#[derive(Debug)]
pub struct Region {
    name: String,
    start: usize,
    rows: usize,
}

impl View for Region {
    type V = RegionView;

    closed spec fn view(&self) -> RegionView {
        RegionView { name: self.name@, start: self.start as nat, rows: self.rows as nat }
    }
}

impl Region {
    /// The region's name.
    pub fn name(&self) -> (r: &String)
        ensures
            r@ == self@.name,
    {
        &self.name
    }

    /// The region's first row.
    pub fn start(&self) -> (r: usize)
        ensures
            r == self@.start,
    {
        self.start
    }

    /// The number of rows of the region.
    pub fn rows(&self) -> (r: usize)
        ensures
            r == self@.rows,
    {
        self.rows
    }
}

/// The views of a list of regions.
pub open spec fn regions_view(regions: Seq<Region>) -> Seq<RegionView> {
    Seq::new(regions.len(), |i: int| regions[i]@)
}

/// The number of rows of a table with row-capacity exponent `k`.
pub fn table_rows(k: u32) -> (n: usize)
    requires
        pow2(k as nat) <= usize::MAX,
    ensures
        n == pow2(k as nat),
{
    let mut n: usize = 1;
    let mut i: u32 = 0;
    proof {
        lemma2_to64();
    }
    while i < k
        invariant
            i <= k,
            n == pow2(i as nat),
            pow2(k as nat) <= usize::MAX,
        decreases k - i,
    {
        proof {
            lemma_pow2_unfold((i + 1) as nat);
            if i + 1 < k {
                lemma_pow2_strictly_increases((i + 1) as nat, k as nat);
            }
        }
        n = n * 2;
        i += 1;
    }
    n
}

/// Lays a circuit out in a table, region after region.
#[derive(Debug)]
pub struct Layouter<F: Field> {
    table: Table<F>,
    regions: Vec<Region>,
    constants_column: Option<Column>,
    constants_used: usize,
}

impl<F: Field> View for Layouter<F> {
    type V = LayouterView;

    closed spec fn view(&self) -> LayouterView {
        LayouterView {
            table: self.table@,
            regions: regions_view(self.regions@),
            constants_column: self.constants_column,
            constants_used: self.constants_used as nat,
        }
    }
}

impl<F: Field> Layouter<F> {
    /// The layouter is well formed when its view is, over the field `F`.
    pub open spec fn wf(&self) -> bool {
        self@.wf() && self@.table.order == F::order()
    }

    /// A layouter over an empty table of `2^k` rows with the columns that the
    /// registry declares and the given public inputs.
    pub fn new(cs: &ConstraintSystem<F>, k: u32, instance: Vec<Vec<F>>) -> (r: Layouter<F>)
        requires
            pow2(k as nat) <= usize::MAX,
        ensures
            r.wf(),
            r@ == LayouterView::initial(cs@, k as nat, instance_view(instance)),
    {
        let rows = table_rows(k);
        proof {
            vstd::arithmetic::power2::lemma_pow2_pos(k as nat);
        }
        let table = Table::new(cs.num_advice(), cs.num_fixed(), cs.num_selectors(), rows, instance);
        let constants_column = match cs.constants_column() {
            Some(c) => {
                if c.kind == ColumnKind::Fixed && c.index < cs.num_fixed() {
                    Some(c)
                } else {
                    None
                }
            },
            None => None,
        };
        let r = Layouter { table, regions: Vec::new(), constants_column, constants_used: 0 };
        assert(regions_view(r.regions@) =~= Seq::empty());
        r
    }

    /// The table filled so far.
    pub fn table(&self) -> (r: &Table<F>)
        ensures
            r@ == self@.table,
    {
        &self.table
    }

    /// Ends the layout and hands the table over.
    pub fn finish(self) -> (r: Table<F>)
        ensures
            r@ == self@.table,
            self.wf() ==> r.wf(),
    {
        self.table
    }

    /// The number of regions placed so far.
    pub fn num_regions(&self) -> (r: usize)
        ensures
            r == self@.regions.len(),
    {
        self.regions.len()
    }

    /// The `i`-th region.
    pub fn region(&self, i: usize) -> (r: &Region)
        requires
            i < self@.regions.len(),
        ensures
            r@ == self@.regions[i as int],
    {
        &self.regions[i]
    }

    /// The first row of the open region.
    pub fn start(&self) -> (r: usize)
        requires
            self.wf(),
        ensures
            r == self@.start(),
    {
        let n = self.regions.len();
        if n == 0 {
            0
        } else {
            self.regions[n - 1].start
        }
    }

    /// The number of rows that the regions placed so far take up.
    pub fn used(&self) -> (r: usize)
        requires
            self.wf(),
        ensures
            r == self@.used(),
    {
        let n = self.regions.len();
        let rows = self.table.rows();
        if n == 0 {
            0
        } else {
            assert(self@.regions[n - 1] == self.regions@[n - 1]@);
            self.regions[n - 1].start + self.regions[n - 1].rows
        }
    }

    /// The number of rows left after the regions placed so far.
    pub fn room(&self) -> (r: usize)
        requires
            self.wf(),
        ensures
            r == self@.room(),
    {
        self.table.rows() - self.used()
    }

    /// Whether the constants column has a free row.
    pub fn constant_fits(&self) -> (r: bool)
        requires
            self.wf(),
        ensures
            r == (self@.constants_used < self@.table.rows),
    {
        self.constants_used < self.table.rows()
    }

    /// Opens a new region right after the rows used so far. The assignments
    /// that follow are relative to its first row.
    pub fn begin_region(&mut self, name: &str)
        requires
            old(self).wf(),
        ensures
            final(self).wf(),
            final(self)@ == old(self)@.begin_region(name@),
    {
        let start = self.used();
        let region = Region { name: name.to_owned(), start, rows: 0 };
        proof {
            self@.lemma_begin_region(name@);
        }
        self.regions.push(region);
        assert(regions_view(self.regions@) =~= regions_view(old(self).regions@).push(region@));
    }

    /// Grows the open region to hold the row at `offset`.
    fn touch(&mut self, offset: usize)
        requires
            old(self).wf(),
            old(self)@.in_region(),
            old(self)@.fits(offset as nat),
        ensures
            final(self).wf(),
            final(self)@ == old(self)@.touch(offset as nat),
    {
        proof {
            self@.lemma_touch(offset as nat);
        }
        let last = self.regions.len() - 1;
        assert(self@.regions[last as int] == self.regions@[last as int]@);
        if offset + 1 > self.regions[last].rows {
            self.regions[last].rows = offset + 1;
        }
        assert(regions_view(self.regions@) =~= old(self)@.touch(offset as nat).regions);
    }

    /// Puts a value into the advice cell at `offset` of the open region.
    /// Fails with `Error::OutOfRows`, changing nothing, exactly when the table
    /// has no such row.
    pub fn assign_advice(&mut self, column: Column, offset: usize, value: Value<F>) -> (r: Result<
        AssignedCell<F>,
        Error,
    >)
        requires
            old(self).wf(),
            old(self)@.in_region(),
            old(self)@.has_advice(column),
        ensures
            final(self).wf(),
            match r {
                Ok(a) => {
                    &&& old(self)@.fits(offset as nat)
                    &&& final(self)@ == old(self)@.assign_advice(column, offset as nat, value@)
                    &&& a@ == (AssignedCellView {
                        cell: old(self)@.cell(column, offset as nat),
                        value: value@,
                    })
                },
                Err(e) => {
                    &&& e == Error::OutOfRows
                    &&& !old(self)@.fits(offset as nat)
                    &&& final(self)@ == old(self)@
                },
            },
    {
        let start = self.start();
        if offset >= self.table.rows() - start {
            return Err(Error::OutOfRows);
        }
        let row = start + offset;
        self.touch(offset);
        self.table.set(column, row, value);
        Ok(AssignedCell { cell: Cell { column, row }, value })
    }

    /// Switches a selector on at `offset` of the open region. Fails with
    /// `Error::OutOfRows`, changing nothing, exactly when the table has no
    /// such row.
    pub fn enable_selector(&mut self, selector: Selector, offset: usize) -> (r: Result<(), Error>)
        requires
            old(self).wf(),
            old(self)@.in_region(),
            old(self)@.has_selector(selector),
        ensures
            final(self).wf(),
            match r {
                Ok(_) => {
                    &&& old(self)@.fits(offset as nat)
                    &&& final(self)@ == old(self)@.enable_selector(selector, offset as nat)
                },
                Err(e) => {
                    &&& e == Error::OutOfRows
                    &&& !old(self)@.fits(offset as nat)
                    &&& final(self)@ == old(self)@
                },
            },
    {
        let start = self.start();
        if offset >= self.table.rows() - start {
            return Err(Error::OutOfRows);
        }
        let row = start + offset;
        self.touch(offset);
        self.table.enable(selector, row);
        Ok(())
    }

    /// Puts the value of an earlier cell into the advice cell at `offset` of
    /// the open region and declares the two cells equal. Fails with
    /// `Error::OutOfRows`, changing nothing, exactly when the table has no
    /// such row.
    pub fn copy_advice(&mut self, source: &AssignedCell<F>, column: Column, offset: usize) -> (r:
        Result<AssignedCell<F>, Error>)
        requires
            old(self).wf(),
            old(self)@.in_region(),
            old(self)@.has_advice(column),
        ensures
            final(self).wf(),
            match r {
                Ok(a) => {
                    &&& old(self)@.fits(offset as nat)
                    &&& final(self)@ == old(self)@.copy_advice(source@, column, offset as nat)
                    &&& a@ == (AssignedCellView {
                        cell: old(self)@.cell(column, offset as nat),
                        value: source@.value,
                    })
                },
                Err(e) => {
                    &&& e == Error::OutOfRows
                    &&& !old(self)@.fits(offset as nat)
                    &&& final(self)@ == old(self)@
                },
            },
    {
        let assigned = self.assign_advice(column, offset, source.value)?;
        self.table.copy(assigned.cell, source.cell);
        Ok(assigned)
    }

    /// Puts a constant into the advice cell at `offset` of the open region and
    /// into the next free cell of the constants column, and declares the two
    /// cells equal. Fails with `Error::OutOfRows`, changing nothing, exactly
    /// when the table has no such row or the constants column is full.
    pub fn assign_advice_from_constant(&mut self, column: Column, offset: usize, constant: F) -> (r:
        Result<AssignedCell<F>, Error>)
        requires
            old(self).wf(),
            old(self)@.in_region(),
            old(self)@.has_advice(column),
            old(self)@.constants_column.is_some(),
        ensures
            final(self).wf(),
            match r {
                Ok(a) => {
                    &&& old(self)@.fits(offset as nat)
                    &&& old(self)@.constants_used < old(self)@.table.rows
                    &&& final(self)@ == old(self)@.assign_advice_from_constant(
                        column,
                        offset as nat,
                        constant.value(),
                    )
                    &&& a@ == (AssignedCellView {
                        cell: old(self)@.cell(column, offset as nat),
                        value: Some(constant.value()),
                    })
                },
                Err(e) => {
                    &&& e == Error::OutOfRows
                    &&& !(old(self)@.fits(offset as nat) && old(self)@.constants_used < old(
                        self,
                    )@.table.rows)
                    &&& final(self)@ == old(self)@
                },
            },
    {
        if self.constants_used >= self.table.rows() {
            return Err(Error::OutOfRows);
        }
        let value = Value::known(constant);
        let assigned = self.assign_advice(column, offset, value)?;
        let fixed = Cell { column: self.constants_column.unwrap(), row: self.constants_used };
        self.table.set(fixed.column, fixed.row, value);
        self.table.copy(assigned.cell, fixed);
        self.constants_used = self.constants_used + 1;
        Ok(assigned)
    }

    /// Binds a cell to the public input at `row` of an instance column. Fails
    /// with `Error::OutOfRows`, changing nothing, exactly when the table has
    /// no such row.
    pub fn constrain_instance(&mut self, cell: Cell, instance: Column, row: usize) -> (r: Result<
        (),
        Error,
    >)
        requires
            old(self).wf(),
        ensures
            final(self).wf(),
            match r {
                Ok(_) => {
                    &&& row < old(self)@.table.rows
                    &&& final(self)@ == old(self)@.constrain_instance(cell, instance, row as nat)
                },
                Err(e) => {
                    &&& e == Error::OutOfRows
                    &&& row >= old(self)@.table.rows
                    &&& final(self)@ == old(self)@
                },
            },
    {
        if row >= self.table.rows() {
            return Err(Error::OutOfRows);
        }
        self.table.expose(cell, Cell { column: instance, row });
        Ok(())
    }
}

} // verus!

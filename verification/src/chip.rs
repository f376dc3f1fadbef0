//! The arithmetic chip: loading values, multiplying, adding and exposing a
//! result, each operation in a region of its own.

use crate::column::{Cell, Column, Selector};
use crate::error::Error;
use crate::field::Field;
use crate::layouter::{AssignedCell, AssignedCellView, Layouter, LayouterView};
use crate::value::{canonical, value_add, value_mul, Value};
use vstd::prelude::*;

verus! {

/// The columns and selectors that the chip works with.
#[derive(Clone, Copy, Debug)]
pub struct MyConfig {
    /// The two advice columns.
    pub advice: [Column; 2],
    /// The instance column that holds the public inputs.
    pub instance: Column,
    /// Switches the multiplication gate on.
    pub s_mul: Selector,
    /// Switches the addition gate on.
    pub s_add: Selector,
}

impl MyConfig {
    /// The table of the layouter has the chip's advice columns and selectors,
    /// and a column for constants.
    pub open spec fn valid_for(self, l: LayouterView) -> bool {
        &&& l.has_advice(self.advice[0])
        &&& l.has_advice(self.advice[1])
        &&& l.has_selector(self.s_mul)
        &&& l.has_selector(self.s_add)
        &&& l.constants_column.is_some()
    }
}

/// A number in the circuit: a cell and the value assigned to it.
#[derive(Clone, Copy, Debug)]
pub struct Number<F: Field>(pub AssignedCell<F>);

impl<F: Field> View for Number<F> {
    type V = AssignedCellView;

    open spec fn view(&self) -> AssignedCellView {
        self.0@
    }
}

/// The layouter after a private value was loaded: a region of one row, with
/// the value in the first advice column.
pub open spec fn after_load_private(l: LayouterView, config: MyConfig, v: Option<nat>)
    -> LayouterView {
    l.begin_region("load private"@).assign_advice(config.advice[0], 0, v)
}

/// The layouter after a constant was loaded: a region of one row, with the
/// constant in the first advice column, tied to a cell of the constants column.
pub open spec fn after_load_constant(l: LayouterView, config: MyConfig, c: nat) -> LayouterView {
    l.begin_region("load constant"@).assign_advice_from_constant(config.advice[0], 0, c)
}

/// The number that loading gives: the first advice cell of the new region.
pub open spec fn loaded(l: LayouterView, config: MyConfig, v: Option<nat>) -> AssignedCellView {
    AssignedCellView { cell: Cell { column: config.advice[0], row: l.used() as usize }, value: v }
}

/// The layouter after two numbers were combined under a selector: a region of
/// two rows, with the selector on at the first, copies of the operands in the
/// first row, and the result in the first advice column of the second row.
pub open spec fn after_binary(
    l: LayouterView,
    config: MyConfig,
    name: Seq<char>,
    selector: Selector,
    a: AssignedCellView,
    b: AssignedCellView,
    out: Option<nat>,
) -> LayouterView {
    let region = l.begin_region(name).enable_selector(selector, 0);
    let copied = region.copy_advice(a, config.advice[0], 0).copy_advice(b, config.advice[1], 0);
    copied.assign_advice(config.advice[0], 1, out)
}

/// The layouter after a multiplication.
pub open spec fn after_mul(
    l: LayouterView,
    config: MyConfig,
    a: AssignedCellView,
    b: AssignedCellView,
) -> LayouterView {
    after_binary(l, config, "mul"@, config.s_mul, a, b, value_mul(l.table.order, a.value, b.value))
}

/// The layouter after an addition.
pub open spec fn after_add(
    l: LayouterView,
    config: MyConfig,
    a: AssignedCellView,
    b: AssignedCellView,
) -> LayouterView {
    after_binary(l, config, "add"@, config.s_add, a, b, value_add(l.table.order, a.value, b.value))
}

/// The number that a multiplication or an addition gives: the first advice
/// cell in the second row of the new region.
pub open spec fn combined(l: LayouterView, config: MyConfig, out: Option<nat>)
    -> AssignedCellView {
    AssignedCellView {
        cell: Cell { column: config.advice[0], row: (l.used() + 1) as usize },
        value: out,
    }
}

/// What laying out a region keeps: the field, the shape of the table, the
/// public inputs, the bindings to them, and the constants column.
pub open spec fn same_frame(before: LayouterView, after: LayouterView) -> bool {
    &&& after.table.order == before.table.order
    &&& after.table.rows == before.table.rows
    &&& after.table.advice.len() == before.table.advice.len()
    &&& after.table.fixed.len() == before.table.fixed.len()
    &&& after.table.selectors.len() == before.table.selectors.len()
    &&& after.table.instance == before.table.instance
    &&& after.table.exposed == before.table.exposed
    &&& after.constants_column == before.constants_column
}

/// Loading a private value takes one row, keeps the layouter well formed, and
/// changes the table in the one cell that it fills.
pub proof fn lemma_after_load_private(l: LayouterView, config: MyConfig, v: Option<nat>)
    requires
        l.wf(),
        config.valid_for(l),
        l.room() >= 1,
        canonical(l.table.order, v),
    ensures
        after_load_private(l, config, v).wf(),
        same_frame(l, after_load_private(l, config, v)),
        after_load_private(l, config, v).used() == l.used() + 1,
        after_load_private(l, config, v).constants_used == l.constants_used,
        after_load_private(l, config, v).table.copies == l.table.copies,
        forall|c: Column, r: int| #[trigger]
            after_load_private(l, config, v).table.value(c, r) == if c == config.advice[0] && r
                == l.used() {
                v
            } else {
                l.table.value(c, r)
            },
        forall|s: Selector, r: int| #[trigger]
            after_load_private(l, config, v).table.enabled(s, r) == l.table.enabled(s, r),
{
    let l1 = l.begin_region("load private"@);
    l.lemma_begin_region("load private"@);
    l1.lemma_touch(0);
    l1.table.lemma_set(config.advice[0], l1.start() as int, v);
}

/// Loading a constant takes one row and one cell of the constants column,
/// keeps the layouter well formed, fills those two cells and declares them
/// equal.
pub proof fn lemma_after_load_constant(l: LayouterView, config: MyConfig, c: nat)
    requires
        l.wf(),
        config.valid_for(l),
        l.room() >= 1,
        l.constants_used < l.table.rows,
        c < l.table.order,
    ensures
        after_load_constant(l, config, c).wf(),
        same_frame(l, after_load_constant(l, config, c)),
        after_load_constant(l, config, c).used() == l.used() + 1,
        after_load_constant(l, config, c).constants_used == l.constants_used + 1,
        after_load_constant(l, config, c).table.copies == l.table.copies.push(
            (loaded(l, config, Some(c)).cell, l.constant_cell()),
        ),
        forall|col: Column, r: int| #[trigger]
            after_load_constant(l, config, c).table.value(col, r) == if (col == config.advice[0]
                && r == l.used()) || (Some(col) == l.constants_column && r == l.constants_used) {
                Some(c)
            } else {
                l.table.value(col, r)
            },
        forall|s: Selector, r: int| #[trigger]
            after_load_constant(l, config, c).table.enabled(s, r) == l.table.enabled(s, r),
{
    let l1 = l.begin_region("load constant"@);
    l.lemma_begin_region("load constant"@);
    l1.lemma_touch(0);
    let t1 = l1.table.set(config.advice[0], l1.start() as int, Some(c));
    l1.table.lemma_set(config.advice[0], l1.start() as int, Some(c));
    let fixed = l1.constant_cell();
    let t2 = t1.set(fixed.column, fixed.row as int, Some(c));
    t1.lemma_set(fixed.column, fixed.row as int, Some(c));
    let t3 = t2.copy(l1.cell(config.advice[0], 0), fixed);
    t2.lemma_copy(l1.cell(config.advice[0], 0), fixed);
    assert(after_load_constant(l, config, c).table == t3);
}

/// Laying out a gate takes two rows, keeps the layouter well formed, switches
/// the selector on at the first row, fills the three cells and declares the
/// copies equal to the operands.
pub proof fn lemma_after_binary(
    l: LayouterView,
    config: MyConfig,
    name: Seq<char>,
    selector: Selector,
    a: AssignedCellView,
    b: AssignedCellView,
    out: Option<nat>,
)
    requires
        l.wf(),
        config.valid_for(l),
        l.has_selector(selector),
        l.room() >= 2,
        canonical(l.table.order, a.value),
        canonical(l.table.order, b.value),
        canonical(l.table.order, out),
    ensures
        after_binary(l, config, name, selector, a, b, out).wf(),
        same_frame(l, after_binary(l, config, name, selector, a, b, out)),
        after_binary(l, config, name, selector, a, b, out).used() == l.used() + 2,
        after_binary(l, config, name, selector, a, b, out).constants_used == l.constants_used,
        after_binary(l, config, name, selector, a, b, out).table.copies == l.table.copies.push(
            (Cell { column: config.advice[0], row: l.used() as usize }, a.cell),
        ).push((Cell { column: config.advice[1], row: l.used() as usize }, b.cell)),
        forall|c: Column, r: int| #[trigger]
            after_binary(l, config, name, selector, a, b, out).table.value(c, r) == if c
                == config.advice[0] && r == l.used() + 1 {
                out
            } else if c == config.advice[1] && r == l.used() {
                b.value
            } else if c == config.advice[0] && r == l.used() {
                a.value
            } else {
                l.table.value(c, r)
            },
        forall|s: Selector, r: int| #[trigger]
            after_binary(l, config, name, selector, a, b, out).table.enabled(s, r) == (
            l.table.enabled(s, r) || (s == selector && r == l.used())),
{
    let l1 = l.begin_region(name);
    l.lemma_begin_region(name);
    let row = l1.start() as int;
    let first = Cell { column: config.advice[0], row: l.used() as usize };
    let second = Cell { column: config.advice[1], row: l.used() as usize };
    l1.lemma_touch(0);
    let t1 = l1.table.enable(selector, row);
    l1.table.lemma_enable(selector, row);
    let l2 = l1.enable_selector(selector, 0);
    l2.lemma_touch(0);
    let t2 = t1.set(config.advice[0], row, a.value);
    t1.lemma_set(config.advice[0], row, a.value);
    let t3 = t2.copy(first, a.cell);
    t2.lemma_copy(first, a.cell);
    let l3 = l2.copy_advice(a, config.advice[0], 0);
    assert(l3.table == t3);
    l3.lemma_touch(0);
    let t4 = t3.set(config.advice[1], row, b.value);
    t3.lemma_set(config.advice[1], row, b.value);
    let t5 = t4.copy(second, b.cell);
    t4.lemma_copy(second, b.cell);
    let l4 = l3.copy_advice(b, config.advice[1], 0);
    assert(l4.table == t5);
    l4.lemma_touch(1);
    let t6 = t5.set(config.advice[0], row + 1, out);
    t5.lemma_set(config.advice[0], row + 1, out);
    assert(after_binary(l, config, name, selector, a, b, out).table == t6);
}

/// The chip. Its operations work over any field.
#[derive(Clone, Copy, Debug)]
pub struct MyChip {
    /// The columns and selectors that the chip works with.
    pub config: MyConfig,
}

impl MyChip {
    /// A chip over the given columns and selectors.
    pub fn new(config: MyConfig) -> (r: MyChip)
        ensures
            r.config == config,
    {
        MyChip { config }
    }

    /// Loads a private value, known or not, into a region of its own. Fails
    /// with `Error::OutOfRows`, changing nothing, exactly when no row is left.
    pub fn load_private<F: Field>(
        &self,
        layouter: &mut Layouter<F>,
        value: Value<F>,
    ) -> (r: Result<Number<F>, Error>)
        requires
            old(layouter).wf(),
            self.config.valid_for(old(layouter)@),
        ensures
            final(layouter).wf(),
            self.config.valid_for(final(layouter)@),
            match r {
                Ok(n) => {
                    &&& old(layouter)@.room() >= 1
                    &&& final(layouter)@ == after_load_private(old(layouter)@, self.config, value@)
                    &&& n@ == loaded(old(layouter)@, self.config, value@)
                },
                Err(e) => {
                    &&& e == Error::OutOfRows
                    &&& old(layouter)@.room() < 1
                    &&& final(layouter)@ == old(layouter)@
                },
            },
    {
        if layouter.room() < 1 {
            return Err(Error::OutOfRows);
        }
        layouter.begin_region("load private");
        let cell = layouter.assign_advice(self.config.advice[0], 0, value)?;
        Ok(Number(cell))
    }

    /// Loads a constant into a region of its own and ties it to a cell of the
    /// constants column. Fails with `Error::OutOfRows`, changing nothing,
    /// exactly when no row is left or the constants column is full.
    pub fn load_constant<F: Field>(
        &self,
        layouter: &mut Layouter<F>,
        constant: F,
    ) -> (r: Result<Number<F>, Error>)
        requires
            old(layouter).wf(),
            self.config.valid_for(old(layouter)@),
        ensures
            final(layouter).wf(),
            self.config.valid_for(final(layouter)@),
            match r {
                Ok(n) => {
                    &&& old(layouter)@.room() >= 1
                    &&& old(layouter)@.constants_used < old(layouter)@.table.rows
                    &&& final(layouter)@ == after_load_constant(
                        old(layouter)@,
                        self.config,
                        constant.value(),
                    )
                    &&& n@ == loaded(old(layouter)@, self.config, Some(constant.value()))
                },
                Err(e) => {
                    &&& e == Error::OutOfRows
                    &&& !(old(layouter)@.room() >= 1 && old(layouter)@.constants_used < old(
                        layouter,
                    )@.table.rows)
                    &&& final(layouter)@ == old(layouter)@
                },
            },
    {
        if layouter.room() < 1 || !layouter.constant_fits() {
            return Err(Error::OutOfRows);
        }
        layouter.begin_region("load constant");
        let cell = layouter.assign_advice_from_constant(self.config.advice[0], 0, constant)?;
        Ok(Number(cell))
    }

    /// Lays out one gate: the selector on, copies of the operands in the
    /// first row, the result below.
    fn binary<F: Field>(
        &self,
        layouter: &mut Layouter<F>,
        name: &str,
        selector: Selector,
        a: Number<F>,
        b: Number<F>,
        out: Value<F>,
    ) -> (r: Result<Number<F>, Error>)
        requires
            old(layouter).wf(),
            self.config.valid_for(old(layouter)@),
            old(layouter)@.has_selector(selector),
        ensures
            final(layouter).wf(),
            self.config.valid_for(final(layouter)@),
            match r {
                Ok(n) => {
                    &&& old(layouter)@.room() >= 2
                    &&& final(layouter)@ == after_binary(
                        old(layouter)@,
                        self.config,
                        name@,
                        selector,
                        a@,
                        b@,
                        out@,
                    )
                    &&& n@ == combined(old(layouter)@, self.config, out@)
                },
                Err(e) => {
                    &&& e == Error::OutOfRows
                    &&& old(layouter)@.room() < 2
                    &&& final(layouter)@ == old(layouter)@
                },
            },
    {
        if layouter.room() < 2 {
            return Err(Error::OutOfRows);
        }
        layouter.begin_region(name);
        layouter.enable_selector(selector, 0)?;
        layouter.copy_advice(&a.0, self.config.advice[0], 0)?;
        layouter.copy_advice(&b.0, self.config.advice[1], 0)?;
        let cell = layouter.assign_advice(self.config.advice[0], 1, out)?;
        Ok(Number(cell))
    }

    /// Multiplies two numbers in a region of two rows. The product is known
    /// when both operands are. Fails with `Error::OutOfRows`, changing
    /// nothing, exactly when fewer than two rows are left.
    pub fn mul<F: Field>(
        &self,
        layouter: &mut Layouter<F>,
        a: Number<F>,
        b: Number<F>,
    ) -> (r: Result<Number<F>, Error>)
        requires
            old(layouter).wf(),
            self.config.valid_for(old(layouter)@),
        ensures
            final(layouter).wf(),
            self.config.valid_for(final(layouter)@),
            match r {
                Ok(n) => {
                    &&& old(layouter)@.room() >= 2
                    &&& final(layouter)@ == after_mul(old(layouter)@, self.config, a@, b@)
                    &&& n@ == combined(
                        old(layouter)@,
                        self.config,
                        value_mul(F::order(), a@.value, b@.value),
                    )
                },
                Err(e) => {
                    &&& e == Error::OutOfRows
                    &&& old(layouter)@.room() < 2
                    &&& final(layouter)@ == old(layouter)@
                },
            },
    {
        let value = a.0.value().mul(&b.0.value());
        self.binary(layouter, "mul", self.config.s_mul, a, b, value)
    }

    /// Adds two numbers in a region of two rows. The sum is known when both
    /// operands are. Fails with `Error::OutOfRows`, changing nothing, exactly
    /// when fewer than two rows are left.
    pub fn add<F: Field>(
        &self,
        layouter: &mut Layouter<F>,
        a: Number<F>,
        b: Number<F>,
    ) -> (r: Result<Number<F>, Error>)
        requires
            old(layouter).wf(),
            self.config.valid_for(old(layouter)@),
        ensures
            final(layouter).wf(),
            self.config.valid_for(final(layouter)@),
            match r {
                Ok(n) => {
                    &&& old(layouter)@.room() >= 2
                    &&& final(layouter)@ == after_add(old(layouter)@, self.config, a@, b@)
                    &&& n@ == combined(
                        old(layouter)@,
                        self.config,
                        value_add(F::order(), a@.value, b@.value),
                    )
                },
                Err(e) => {
                    &&& e == Error::OutOfRows
                    &&& old(layouter)@.room() < 2
                    &&& final(layouter)@ == old(layouter)@
                },
            },
    {
        let value = a.0.value().add(&b.0.value());
        self.binary(layouter, "add", self.config.s_add, a, b, value)
    }

    /// Binds a number to the public input at `row` of the instance column.
    /// Fails with `Error::OutOfRows`, changing nothing, exactly when the table
    /// has no such row.
    pub fn expose_public<F: Field>(
        &self,
        layouter: &mut Layouter<F>,
        num: Number<F>,
        row: usize,
    ) -> (r: Result<(), Error>)
        requires
            old(layouter).wf(),
        ensures
            final(layouter).wf(),
            match r {
                Ok(_) => {
                    &&& row < old(layouter)@.table.rows
                    &&& final(layouter)@ == old(layouter)@.constrain_instance(
                        num@.cell,
                        self.config.instance,
                        row as nat,
                    )
                },
                Err(e) => {
                    &&& e == Error::OutOfRows
                    &&& row >= old(layouter)@.table.rows
                    &&& final(layouter)@ == old(layouter)@
                },
            },
    {
        layouter.constrain_instance(num.0.cell(), self.config.instance, row)
    }
}

} // verus!

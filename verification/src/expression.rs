//! Gate polynomials: expression trees over the cells of the table, and their
//! value at a row.

use crate::column::{Column, Selector};
use crate::field::{field_mul, Field};
use crate::table::{Table, TableView};
use crate::value::{value_add, value_sub, Value};
use vstd::arithmetic::div_mod::{
    lemma_add_mod_noop_right, lemma_fundamental_div_mod_converse, lemma_small_mod,
};
use vstd::prelude::*;

verus! {

/// The offset of the row that a query is evaluated at.
pub const CUR: usize = 0;

/// The offset of the row after it.
pub const NEXT: usize = 1;

/// A polynomial over the cells near a row.
#[derive(Debug)]
pub enum Expression<F: Field> {
    /// A constant of the field.
    Constant(F),
    /// The cell of a column, the given number of rows further down; rows wrap
    /// around at the end of the table.
    ColumnQuery(Column, usize),
    /// One where the selector is on at the row, zero where it is off.
    SelectorQuery(Selector),
    /// The sum of two polynomials.
    Add(Box<Expression<F>>, Box<Expression<F>>),
    /// The difference of two polynomials.
    Sub(Box<Expression<F>>, Box<Expression<F>>),
    /// The product of two polynomials.
    Mul(Box<Expression<F>>, Box<Expression<F>>),
}

/// The row that a query with the given offset reads, when evaluated at `row`.
pub open spec fn queried_row(rows: nat, row: int, offset: int) -> int {
    (row + offset) % (rows as int)
}

/// The product inside a gate, modulo `p`: zero times anything is zero, even
/// where the other factor has no value, so that a gate whose selector is off
/// holds on rows that were never assigned.
pub open spec fn gate_mul(p: nat, a: Option<nat>, b: Option<nat>) -> Option<nat> {
    match (a, b) {
        (Some(x), Some(y)) => Some(field_mul(p, x, y)),
        (Some(x), None) => if x == 0 {
            Some(0nat)
        } else {
            None
        },
        (None, Some(y)) => if y == 0 {
            Some(0nat)
        } else {
            None
        },
        (None, None) => None,
    }
}

impl<F: Field> Expression<F> {
    /// The value of the polynomial at a row of a table, or `None` where it
    /// depends on a cell without a value.
    pub open spec fn eval(self, t: TableView, row: int) -> Option<nat>
        decreases self,
    {
        match self {
            Expression::Constant(c) => Some(c.value()),
            Expression::ColumnQuery(column, offset) => t.value(
                column,
                queried_row(t.rows, row, offset as int),
            ),
            Expression::SelectorQuery(s) => Some(
                if t.enabled(s, row) {
                    1nat
                } else {
                    0nat
                },
            ),
            Expression::Add(a, b) => value_add(t.order, a.eval(t, row), b.eval(t, row)),
            Expression::Sub(a, b) => value_sub(t.order, a.eval(t, row), b.eval(t, row)),
            Expression::Mul(a, b) => gate_mul(t.order, a.eval(t, row), b.eval(t, row)),
        }
    }

    /// A constant.
    pub fn constant(c: F) -> (r: Expression<F>)
        ensures
            r == Expression::Constant(c),
    {
        Expression::Constant(c)
    }

    /// The cell of `column` that lies `offset` rows after the current one.
    pub fn query(column: Column, offset: usize) -> (r: Expression<F>)
        ensures
            r == Expression::<F>::ColumnQuery(column, offset),
    {
        Expression::ColumnQuery(column, offset)
    }

    /// The flag of a selector at the current row.
    pub fn selector(selector: Selector) -> (r: Expression<F>)
        ensures
            r == Expression::<F>::SelectorQuery(selector),
    {
        Expression::SelectorQuery(selector)
    }

    /// `self + rhs`.
    pub fn add(self, rhs: Expression<F>) -> (r: Expression<F>)
        ensures
            r == Expression::Add(Box::new(self), Box::new(rhs)),
    {
        Expression::Add(Box::new(self), Box::new(rhs))
    }

    /// `self - rhs`.
    pub fn sub(self, rhs: Expression<F>) -> (r: Expression<F>)
        ensures
            r == Expression::Sub(Box::new(self), Box::new(rhs)),
    {
        Expression::Sub(Box::new(self), Box::new(rhs))
    }

    /// `self * rhs`.
    pub fn mul(self, rhs: Expression<F>) -> (r: Expression<F>)
        ensures
            r == Expression::Mul(Box::new(self), Box::new(rhs)),
    {
        Expression::Mul(Box::new(self), Box::new(rhs))
    }

    /// Evaluates the polynomial at a row of the table.
    pub fn evaluate(&self, table: &Table<F>, row: usize) -> (r: Value<F>)
        requires
            table.wf(),
            row < table@.rows,
        ensures
            r@ == self.eval(table@, row as int),
        decreases self,
    {
        match self {
            Expression::Constant(c) => Value::known(*c),
            Expression::ColumnQuery(column, offset) => {
                let target = wrapped_row(table.rows(), row, *offset);
                table.get(*column, target)
            },
            Expression::SelectorQuery(s) => {
                if table.enabled(*s, row) {
                    Value::known(F::one())
                } else {
                    Value::known(F::zero())
                }
            },
            Expression::Add(a, b) => {
                let x = a.evaluate(table, row);
                let y = b.evaluate(table, row);
                x.add(&y)
            },
            Expression::Sub(a, b) => {
                let x = a.evaluate(table, row);
                let y = b.evaluate(table, row);
                x.sub(&y)
            },
            Expression::Mul(a, b) => {
                let x = a.evaluate(table, row);
                let y = b.evaluate(table, row);
                absorbing_product(&x, &y)
            },
        }
    }
}

/// The row `offset` rows after `row`, wrapping around after the last row.
pub fn wrapped_row(rows: usize, row: usize, offset: usize) -> (r: usize)
    requires
        row < rows,
    ensures
        r == queried_row(rows as nat, row as int, offset as int),
        r < rows,
{
    let o = offset % rows;
    let room = rows - row;
    proof {
        lemma_add_mod_noop_right(row as int, offset as int, rows as int);
    }
    if o < room {
        proof {
            lemma_small_mod((row + o) as nat, rows as nat);
        }
        row + o
    } else {
        proof {
            lemma_fundamental_div_mod_converse(row + o, rows as int, 1, o - room);
        }
        o - room
    }
}

/// The product inside a gate, where a known zero absorbs an unknown factor.
pub fn absorbing_product<F: Field>(a: &Value<F>, b: &Value<F>) -> (r: Value<F>)
    ensures
        r@ == gate_mul(F::order(), a@, b@),
{
    match (a.assign(), b.assign()) {
        (Ok(x), Ok(y)) => Value::known(x.mul(&y)),
        (Ok(x), Err(_)) => {
            if x.is_zero() {
                Value::known(F::zero())
            } else {
                Value::unknown()
            }
        },
        (Err(_), Ok(y)) => {
            if y.is_zero() {
                Value::known(F::zero())
            } else {
                Value::unknown()
            }
        },
        (Err(_), Err(_)) => Value::unknown(),
    }
}

} // verus!

//! The cells of a circuit while they are filled.

use crate::constraint_system::ConstraintSystem;
use crate::expression::{AdviceColumn, FixedColumn, Selector, Table};
use crate::field::Field;
use vstd::arithmetic::div_mod::{lemma_mod_bound, lemma_small_mod};
use vstd::prelude::*;

verus! {

/// Why a cell cannot be filled.
#[derive(Clone, Copy, Debug, PartialEq, Eq, Structural)]
pub enum Error {
    /// The row lies beyond the usable ones.
    NotEnoughRowsAvailable,
}

/// The cells of the usable rows: of each selector its bits, and of each other column
/// the numbers that its cells were assigned.
pub struct Region<F> {
    pub usable_rows: usize,
    pub selectors: Vec<Vec<bool>>,
    pub fixed: Vec<Vec<Option<F>>>,
    pub advice: Vec<Vec<Option<F>>>,
}

/// What a region holds.
#[verifier::ext_equal]
pub struct Cells {
    pub usable: int,
    pub selectors: Seq<Seq<bool>>,
    pub fixed: Seq<Seq<Option<int>>>,
    pub advice: Seq<Seq<Option<int>>>,
}

/// The number in a cell: 0 where none was assigned.
pub open spec fn cell_value(cell: Option<int>) -> int {
    match cell {
        Some(v) => v,
        None => 0,
    }
}

/// Whether all columns have `rows` cells.
pub open spec fn columns_have<T>(columns: Seq<Seq<T>>, rows: int) -> bool {
    forall|c: int| 0 <= c < columns.len() ==> #[trigger] columns[c].len() == rows
}

impl Cells {
    /// The cells of so many selectors and columns before any is filled.
    pub open spec fn blank(usable: int, selectors: nat, fixed: nat, advice: nat) -> Cells {
        Cells {
            usable,
            selectors: Seq::new(selectors, |c: int| Seq::new(usable as nat, |i: int| false)),
            fixed: Seq::new(fixed, |c: int| Seq::new(usable as nat, |i: int| None::<int>)),
            advice: Seq::new(advice, |c: int| Seq::new(usable as nat, |i: int| None::<int>)),
        }
    }

    /// Whether all columns have the same length, that of the usable rows.
    pub open spec fn wf(self) -> bool {
        &&& self.usable >= 0
        &&& columns_have(self.selectors, self.usable)
        &&& columns_have(self.fixed, self.usable)
        &&& columns_have(self.advice, self.usable)
    }

    /// The cells with the bit of a selector set.
    pub open spec fn enable(self, s: Selector, row: int) -> Cells {
        let k = s.index as int;
        Cells { selectors: self.selectors.update(k, self.selectors[k].update(row, true)), ..self }
    }

    /// The cells with a number assigned to one of a fixed column.
    pub open spec fn set_fixed(self, c: FixedColumn, row: int, v: int) -> Cells {
        let k = c.index as int;
        Cells { fixed: self.fixed.update(k, self.fixed[k].update(row, Some(v))), ..self }
    }

    /// The cells with a number assigned to one of an advice column.
    pub open spec fn set_advice(self, c: AdviceColumn, row: int, v: int) -> Cells {
        let k = c.index as int;
        Cells { advice: self.advice.update(k, self.advice[k].update(row, Some(v))), ..self }
    }

    /// The table of `rows` rows that holds these cells, and `blind` in the advice columns of the
    /// rows that are not usable.
    pub open spec fn table(self, rows: int, blind: int) -> Table {
        Table {
            rows,
            usable: self.usable,
            selectors: Seq::new(
                self.selectors.len(),
                |c: int| Seq::new(rows as nat, |i: int| i < self.usable && self.selectors[c][i]),
            ),
            fixed: Seq::new(
                self.fixed.len(),
                |c: int|
                    Seq::new(
                        rows as nat,
                        |i: int|
                            if i < self.usable {
                                cell_value(self.fixed[c][i])
                            } else {
                                0
                            },
                    ),
            ),
            advice: Seq::new(
                self.advice.len(),
                |c: int|
                    Seq::new(
                        rows as nat,
                        |i: int|
                            if i < self.usable {
                                cell_value(self.advice[c][i])
                            } else {
                                blind
                            },
                    ),
            ),
        }
    }

    /// The table of cells holds them.
    pub proof fn lemma_table_holds(self, rows: int, blind: int)
        requires
            self.wf(),
            0 < rows,
            self.usable <= rows,
        ensures
            self.in_table(self.table(rows, blind), rows),
    {
        let t = self.table(rows, blind);
        assert forall|i: int| 0 <= i < rows implies #[trigger] (i % rows) == i by {
            lemma_small_mod(i as nat, rows as nat);
        }
    }

    /// Whether a table of `rows` rows holds these cells: in the usable rows their
    /// numbers, in the others no bit of a selector, 0 in the fixed columns, and
    /// anything in the advice columns.
    pub open spec fn in_table(self, t: Table, rows: int) -> bool {
        &&& t.rows == rows
        &&& t.usable == self.usable
        &&& self.usable <= rows
        &&& forall|s: Selector, i: int|
            s.index < self.selectors.len() && 0 <= i < rows ==> #[trigger] t.selector(s, i) == (
            if i < self.usable && self.selectors[s.index as int][i] {
                1int
            } else {
                0int
            })
        &&& forall|c: FixedColumn, i: int|
            c.index < self.fixed.len() && 0 <= i < rows ==> #[trigger] t.fixed(c, i) == (if i
                < self.usable {
                cell_value(self.fixed[c.index as int][i])
            } else {
                0int
            })
        &&& forall|c: AdviceColumn, i: int|
            c.index < self.advice.len() && 0 <= i < self.usable ==> #[trigger] t.advice(c, i)
                == cell_value(self.advice[c.index as int][i])
    }
}

/// The numbers of elements that may be missing.
pub open spec fn numbers<F: Field>(column: Seq<Option<F>>) -> Seq<Option<int>> {
    column.map_values(
        |cell: Option<F>|
            match cell {
                Some(v) => Some(v.value()),
                None => None,
            },
    )
}

impl<F: Field> View for Region<F> {
    type V = Cells;

    open spec fn view(&self) -> Cells {
        Cells {
            usable: self.usable_rows as int,
            selectors: Seq::new(self.selectors@.len(), |c: int| self.selectors@[c]@),
            fixed: Seq::new(self.fixed@.len(), |c: int| numbers(self.fixed@[c]@)),
            advice: Seq::new(self.advice@.len(), |c: int| numbers(self.advice@[c]@)),
        }
    }
}

/// Columns of cells that all hold the same.
fn blank_columns<T: Copy>(columns: usize, rows: usize, cell: T) -> (r: Vec<Vec<T>>)
    ensures
        r@.len() == columns,
        forall|c: int| 0 <= c < columns ==> (#[trigger] r@[c])@ == Seq::new(
            rows as nat,
            |i: int| cell,
        ),
{
    let mut r: Vec<Vec<T>> = Vec::new();
    let mut c: usize = 0;
    while c < columns
        invariant
            c <= columns,
            r@.len() == c,
            forall|j: int| 0 <= j < c ==> (#[trigger] r@[j])@ == Seq::new(
                rows as nat,
                |i: int| cell,
            ),
        decreases columns - c,
    {
        let mut column: Vec<T> = Vec::new();
        let mut i: usize = 0;
        while i < rows
            invariant
                i <= rows,
                column@.len() == i,
                forall|j: int| 0 <= j < i ==> #[trigger] column@[j] == cell,
            decreases rows - i,
        {
            column.push(cell);
            i = i + 1;
        }
        assert(column@ =~= Seq::new(rows as nat, |i: int| cell));
        r.push(column);
        c = c + 1;
    }
    r
}

impl<F: Field> Region<F> {
    /// The cells of a table that holds those of a region are elements of the field.
    pub proof fn lemma_table_in_field(self, rows: int, blind: F)
        requires
            self@.wf(),
            0 < rows,
            self@.usable <= rows,
        ensures
            self@.table(rows, blind.value()).in_field(F::modulus()),
    {
        let t = self@.table(rows, blind.value());
        F::lemma_modulus_exceeds_u64();
        F::lemma_value_reduced(blind);
        assert forall|c: FixedColumn, i: int| 0 <= #[trigger] t.fixed(c, i) < F::modulus() by {
            let j = i % rows;
            lemma_mod_bound(i, rows);
            if c.index < self.fixed@.len() && j < self@.usable {
                assert(self@.fixed[c.index as int].len() == self@.usable);
                if let Some(v) = self.fixed@[c.index as int]@[j] {
                    F::lemma_value_reduced(v);
                }
            }
        }
        assert forall|c: AdviceColumn, i: int| 0 <= #[trigger] t.advice(c, i) < F::modulus() by {
            let j = i % rows;
            lemma_mod_bound(i, rows);
            if c.index < self.advice@.len() && j < self@.usable {
                assert(self@.advice[c.index as int].len() == self@.usable);
                if let Some(v) = self.advice@[c.index as int]@[j] {
                    F::lemma_value_reduced(v);
                }
            }
        }
    }

    /// The cells of a circuit before any is filled.
    pub fn new(meta: &ConstraintSystem<F>, usable_rows: usize) -> (r: Self)
        ensures
            r@.wf(),
            r@ == Cells::blank(
                usable_rows as int,
                meta.num_selectors as nat,
                meta.num_fixed_columns as nat,
                meta.num_advice_columns as nat,
            ),
            r.usable_rows == usable_rows,
            r.selectors@.len() == meta.num_selectors,
            r.fixed@.len() == meta.num_fixed_columns,
            r.advice@.len() == meta.num_advice_columns,
            forall|c: int, i: int|
                0 <= c < r.selectors@.len() && 0 <= i < usable_rows
                    ==> !(#[trigger] r.selectors@[c]@[i]),
            forall|c: int, i: int|
                0 <= c < r.fixed@.len() && 0 <= i < usable_rows ==> #[trigger] r.fixed@[c]@[i]
                    is None,
            forall|c: int, i: int|
                0 <= c < r.advice@.len() && 0 <= i < usable_rows ==> #[trigger] r.advice@[c]@[i]
                    is None,
    {
        let r = Region {
            usable_rows,
            selectors: blank_columns(meta.num_selectors, usable_rows, false),
            fixed: blank_columns(meta.num_fixed_columns, usable_rows, None),
            advice: blank_columns(meta.num_advice_columns, usable_rows, None),
        };
        proof {
            let blank = Seq::new(usable_rows as nat, |i: int| None::<int>);
            assert(r@.selectors =~= Seq::new(
                meta.num_selectors as nat,
                |c: int| Seq::new(usable_rows as nat, |i: int| false),
            ));
            assert forall|c: int| 0 <= c < meta.num_fixed_columns implies r@.fixed[c] == blank by {
                assert(r@.fixed[c] =~= blank);
            }
            assert(r@.fixed =~= Seq::new(
                meta.num_fixed_columns as nat,
                |c: int| Seq::new(usable_rows as nat, |i: int| None::<int>),
            ));
            assert forall|c: int| 0 <= c < meta.num_advice_columns implies r@.advice[c]
                == blank by {
                assert(r@.advice[c] =~= blank);
            }
            assert(r@.advice =~= Seq::new(
                meta.num_advice_columns as nat,
                |c: int| Seq::new(usable_rows as nat, |i: int| None::<int>),
            ));
        }
        r
    }

    /// Sets the bit of a selector.
    pub fn enable_selector(&mut self, s: Selector, row: usize) -> (r: Result<(), Error>)
        requires
            old(self)@.wf(),
            s.index < old(self)@.selectors.len(),
        ensures
            final(self)@.wf(),
            row < old(self)@.usable ==> r is Ok && final(self)@ == old(self)@.enable(
                s,
                row as int,
            ),
            row >= old(self)@.usable ==> r == Err::<(), Error>(Error::NotEnoughRowsAvailable)
                && final(self)@ == old(self)@,
    {
        if row >= self.usable_rows {
            return Err(Error::NotEnoughRowsAvailable);
        }
        assert(self@.selectors[s.index as int].len() == self@.usable);
        self.selectors[s.index][row] = true;
        assert(self@.selectors =~= old(self)@.enable(s, row as int).selectors);
        assert(self@ =~= old(self)@.enable(s, row as int));
        Ok(())
    }

    /// Assigns a cell of a fixed column.
    pub fn assign_fixed(&mut self, c: FixedColumn, row: usize, v: F) -> (r: Result<(), Error>)
        requires
            old(self)@.wf(),
            c.index < old(self)@.fixed.len(),
        ensures
            final(self)@.wf(),
            row < old(self)@.usable ==> r is Ok && final(self)@ == old(self)@.set_fixed(
                c,
                row as int,
                v.value(),
            ),
            row >= old(self)@.usable ==> r == Err::<(), Error>(Error::NotEnoughRowsAvailable)
                && final(self)@ == old(self)@,
    {
        if row >= self.usable_rows {
            return Err(Error::NotEnoughRowsAvailable);
        }
        assert(self@.fixed[c.index as int].len() == self@.usable);
        self.fixed[c.index][row] = Some(v);
        proof {
            let expected = old(self)@.set_fixed(c, row as int, v.value());
            assert forall|k: int| 0 <= k < self@.fixed.len() implies self@.fixed[k]
                == expected.fixed[k] by {
                assert(self@.fixed[k] =~= expected.fixed[k]);
            }
            assert(self@.fixed =~= expected.fixed);
            assert(self@ =~= expected);
        }
        Ok(())
    }

    /// Assigns a cell of an advice column.
    pub fn assign_advice(&mut self, c: AdviceColumn, row: usize, v: F) -> (r: Result<(), Error>)
        requires
            old(self)@.wf(),
            c.index < old(self)@.advice.len(),
        ensures
            final(self)@.wf(),
            row < old(self)@.usable ==> r is Ok && final(self)@ == old(self)@.set_advice(
                c,
                row as int,
                v.value(),
            ),
            row >= old(self)@.usable ==> r == Err::<(), Error>(Error::NotEnoughRowsAvailable)
                && final(self)@ == old(self)@,
    {
        if row >= self.usable_rows {
            return Err(Error::NotEnoughRowsAvailable);
        }
        assert(self@.advice[c.index as int].len() == self@.usable);
        self.advice[c.index][row] = Some(v);
        proof {
            let expected = old(self)@.set_advice(c, row as int, v.value());
            assert forall|k: int| 0 <= k < self@.advice.len() implies self@.advice[k]
                == expected.advice[k] by {
                assert(self@.advice[k] =~= expected.advice[k]);
            }
            assert(self@.advice =~= expected.advice);
            assert(self@ =~= expected);
        }
        Ok(())
    }
}

} // verus!

//! Which cells are filled, and with what, when tables are loaded and rows assigned.

use crate::config::Config;
use crate::constraint_system::ConstraintSystem;
use crate::expression::{AdviceColumn, FixedColumn, Selector};
use crate::field::{
    inverse_or_zero, is_inverse, is_prime, lemma_inverse_exists, lemma_zero_has_no_inverse, Field,
};
use crate::hash::{
    as_numbers, combine, hash_number, keccak256_digest, lemma_byte_combination_is_sum,
    lemma_hash_is_sum,
};
use crate::layout::{
    bytecode_row, byte_cells, lemma_witness_row, low_bytes, messages, padded, padding_row,
    placed_row, views, witness_rows,
};
use crate::opcode::{lemma_data_left_bounded, push_size};
use crate::region::{Cells, Region};
use crate::rows::CircuitRow;
use crate::unroller::{Unrolled, UnrolledBytecode};
use vstd::arithmetic::div_mod::{lemma_add_mod_noop_right, lemma_mod_bound, lemma_small_mod};
use vstd::arithmetic::power::pow;
use vstd::prelude::*;

verus! {

impl Cells {
    /// Setting the bit of a selector sets that bit and changes no other cell.
    pub proof fn lemma_enable(self, s: Selector, row: int, k: int, i: int)
        requires
            self.wf(),
            s.index < self.selectors.len(),
            0 <= row < self.usable,
            0 <= k < self.selectors.len(),
            0 <= i < self.usable,
        ensures
            self.enable(s, row).usable == self.usable,
            self.enable(s, row).selectors.len() == self.selectors.len(),
            self.enable(s, row).selectors[k].len() == self.usable,
            self.enable(s, row).selectors[k][i] == (self.selectors[k][i] || (k == s.index && i
                == row)),
            self.enable(s, row).fixed == self.fixed,
            self.enable(s, row).advice == self.advice,
    {
    }

    /// Assigning a cell of a fixed column sets that cell and changes no other.
    pub proof fn lemma_set_fixed(self, c: FixedColumn, row: int, v: int, k: int, i: int)
        requires
            self.wf(),
            c.index < self.fixed.len(),
            0 <= row < self.usable,
            0 <= k < self.fixed.len(),
            0 <= i < self.usable,
        ensures
            self.set_fixed(c, row, v).usable == self.usable,
            self.set_fixed(c, row, v).fixed.len() == self.fixed.len(),
            self.set_fixed(c, row, v).fixed[k].len() == self.usable,
            self.set_fixed(c, row, v).fixed[k][i] == if k == c.index && i == row {
                Some(v)
            } else {
                self.fixed[k][i]
            },
            self.set_fixed(c, row, v).selectors == self.selectors,
            self.set_fixed(c, row, v).advice == self.advice,
    {
    }

    /// Assigning a cell of an advice column sets that cell and changes no other.
    pub proof fn lemma_set_advice(self, c: AdviceColumn, row: int, v: int, k: int, i: int)
        requires
            self.wf(),
            c.index < self.advice.len(),
            0 <= row < self.usable,
            0 <= k < self.advice.len(),
            0 <= i < self.usable,
        ensures
            self.set_advice(c, row, v).usable == self.usable,
            self.set_advice(c, row, v).advice.len() == self.advice.len(),
            self.set_advice(c, row, v).advice[k].len() == self.usable,
            self.set_advice(c, row, v).advice[k][i] == if k == c.index && i == row {
                Some(v)
            } else {
                self.advice[k][i]
            },
            self.set_advice(c, row, v).selectors == self.selectors,
            self.set_advice(c, row, v).fixed == self.fixed,
    {
    }

    /// The table of cells shows a set bit and a filled cell as they are, 0 for a cell that nothing
    /// filled, and in the rows that are not usable no set bit, 0 in fixed columns and `blind` in
    /// advice columns.
    pub proof fn lemma_table_cells(
        self,
        rows: int,
        blind: int,
        q: Selector,
        f: FixedColumn,
        a: AdviceColumn,
        i: int,
    )
        requires
            self.wf(),
            0 <= i < rows,
            q.index < self.selectors.len(),
            f.index < self.fixed.len(),
            a.index < self.advice.len(),
        ensures
            self.table(rows, blind).rows == rows,
            self.table(rows, blind).usable == self.usable,
            self.table(rows, blind).selector(q, i) == if i < self.usable
                && self.selectors[q.index as int][i] {
                1int
            } else {
                0
            },
            self.table(rows, blind).fixed(f, i) == if i < self.usable
                && self.fixed[f.index as int][i] is Some {
                self.fixed[f.index as int][i]->0
            } else {
                0
            },
            self.table(rows, blind).advice(a, i) == if i >= self.usable {
                blind
            } else if self.advice[a.index as int][i] is Some {
                self.advice[a.index as int][i]->0
            } else {
                0
            },
    {
        lemma_small_mod(i as nat, rows as nat);
    }
}

impl<F: Field> Config<F> {
    /// What a row has for an advice column.
    spec fn advice_of(self, row: CircuitRow, k: int) -> Option<int> {
        if k == self.hash.index {
            Some(row.hash)
        } else if k == self.index.index {
            Some(row.index)
        } else if k == self.is_code.index {
            Some(row.is_code)
        } else if k == self.byte.index {
            Some(row.byte)
        } else if k == self.push_rindex.index {
            Some(row.push_rindex)
        } else if k == self.hash_rlc.index {
            Some(row.hash_rlc)
        } else if k == self.hash_length.index {
            Some(row.hash_length)
        } else if k == self.byte_push_size.index {
            Some(row.byte_push_size)
        } else if k == self.is_final.index {
            Some(row.is_final)
        } else if k == self.padding.index {
            Some(row.padding)
        } else if k == self.push_rindex_inv.index {
            Some(row.push_rindex_inv)
        } else {
            None
        }
    }

    /// The cells of the columns of a row.
    proof fn lemma_row_cells(
        self,
        before: ConstraintSystem<F>,
        cells: Cells,
        i: int,
        row: CircuitRow,
    )
        requires
            self.follows(before),
            self.shows_zero(),
            self.fits(cells),
            0 <= i < cells.usable,
        ensures
            ({
                let out = self.with_row(cells, i, row);
                &&& self.fits(out)
                &&& out.usable == cells.usable
                &&& out.selectors.len() == cells.selectors.len()
                &&& out.fixed.len() == cells.fixed.len()
                &&& out.advice.len() == cells.advice.len()
                &&& forall|k: int, j: int|
                    0 <= k < out.advice.len() && 0 <= j < out.usable
                        ==> #[trigger] out.advice[k][j] == if j == i && self.advice_of(row, k)
                        is Some {
                        self.advice_of(row, k)
                    } else {
                        cells.advice[k][j]
                    }
                &&& forall|k: int, j: int|
                    0 <= k < out.fixed.len() && 0 <= j < out.usable ==> #[trigger] out.fixed[k][j]
                        == if j == i && k == self.q_first.index {
                        Some(row.q_first)
                    } else {
                        cells.fixed[k][j]
                    }
                &&& forall|k: int, j: int|
                    0 <= k < out.selectors.len() && 0 <= j < out.usable
                        ==> #[trigger] out.selectors[k][j] == (cells.selectors[k][j] || (j == i
                        && k == self.q_enable.index && row.q_enable == 1) || (j == i && k
                        == self.q_last.index && row.q_last == 1))
            }),
    {
    }

    /// Filling a row fills its cells of the columns of the circuit.
    pub proof fn lemma_row_filled(
        self,
        before: ConstraintSystem<F>,
        cells: Cells,
        i: int,
        row: CircuitRow,
    )
        requires
            self.follows(before),
            self.shows_zero(),
            self.fits(cells),
            0 <= i < cells.usable,
        ensures
            self.with_row(cells, i, row).advice[self.hash.index as int][i] == Some(row.hash),
            self.with_row(cells, i, row).advice[self.index.index as int][i] == Some(row.index),
            self.with_row(cells, i, row).advice[self.is_code.index as int][i] == Some(row.is_code),
            self.with_row(cells, i, row).advice[self.byte.index as int][i] == Some(row.byte),
            self.with_row(cells, i, row).advice[self.push_rindex.index as int][i] == Some(
                row.push_rindex,
            ),
            self.with_row(cells, i, row).advice[self.hash_rlc.index as int][i] == Some(
                row.hash_rlc,
            ),
            self.with_row(cells, i, row).advice[self.hash_length.index as int][i] == Some(row.hash_length),
            self.with_row(cells, i, row).advice[self.byte_push_size.index as int][i] == Some(row.byte_push_size),
            self.with_row(cells, i, row).advice[self.is_final.index as int][i] == Some(row.is_final),
            self.with_row(cells, i, row).advice[self.padding.index as int][i] == Some(row.padding),
            self.with_row(cells, i, row).advice[self.push_rindex_inv.index as int][i] == Some(row.push_rindex_inv),
            self.with_row(cells, i, row).fixed[self.q_first.index as int][i] == Some(row.q_first),
            self.with_row(cells, i, row).selectors[self.q_enable.index as int][i] == (
            cells.selectors[self.q_enable.index as int][i] || row.q_enable == 1),
            self.with_row(cells, i, row).selectors[self.q_last.index as int][i] == (
            cells.selectors[self.q_last.index as int][i] || row.q_last == 1),
    {
        self.lemma_row_cells(before, cells, i, row);
    }

    /// Rows fill the cells of their columns.
    proof fn lemma_rows_cells(
        self,
        before: ConstraintSystem<F>,
        cells: Cells,
        rows: Seq<CircuitRow>,
    )
        requires
            self.follows(before),
            self.shows_zero(),
            self.fits(cells),
            rows.len() <= cells.usable,
        ensures
            ({
                let out = self.with_rows(cells, rows);
                &&& self.fits(out)
                &&& out.usable == cells.usable
                &&& out.selectors.len() == cells.selectors.len()
                &&& out.fixed.len() == cells.fixed.len()
                &&& out.advice.len() == cells.advice.len()
                &&& forall|k: int, j: int|
                    0 <= k < out.advice.len() && 0 <= j < out.usable
                        ==> #[trigger] out.advice[k][j] == if j < rows.len() && self.advice_of(
                        rows[j],
                        k,
                    ) is Some {
                        self.advice_of(rows[j], k)
                    } else {
                        cells.advice[k][j]
                    }
                &&& forall|k: int, j: int|
                    0 <= k < out.fixed.len() && 0 <= j < out.usable ==> #[trigger] out.fixed[k][j]
                        == if j < rows.len() && k == self.q_first.index {
                        Some(rows[j].q_first)
                    } else {
                        cells.fixed[k][j]
                    }
                &&& forall|k: int, j: int|
                    0 <= k < out.selectors.len() && 0 <= j < out.usable
                        ==> #[trigger] out.selectors[k][j] == (cells.selectors[k][j] || (j
                        < rows.len() && k == self.q_enable.index && rows[j].q_enable == 1) || (j
                        < rows.len() && k == self.q_last.index && rows[j].q_last == 1))
            }),
        decreases rows.len(),
    {
        if rows.len() > 0 {
            let fewer = rows.drop_last();
            self.lemma_rows_cells(before, cells, fewer);
            let c = self.with_rows(cells, fewer);
            self.lemma_row_cells(before, c, rows.len() - 1, rows.last());
        }
    }

    /// What the rows of bytecodes and of padding fill.
    proof fn lemma_assigned_cells(
        self,
        before: ConstraintSystem<F>,
        cells: Cells,
        size: int,
        witness: Seq<Unrolled>,
    )
        requires
            self.follows(before),
            self.shows_zero(),
            self.fits(cells),
        ensures
            ({
                let out = self.assigned(cells, size, witness);
                let rows = self.rows_for(size, witness);
                &&& out.usable == cells.usable
                &&& out.selectors.len() == cells.selectors.len()
                &&& out.fixed.len() == cells.fixed.len()
                &&& out.advice.len() == cells.advice.len()
                &&& forall|k: int, j: int|
                    0 <= k < out.advice.len() && 0 <= j < out.usable
                        ==> #[trigger] out.advice[k][j] == if j < rows.len() && self.advice_of(
                        rows[j],
                        k,
                    ) is Some {
                        self.advice_of(rows[j], k)
                    } else {
                        cells.advice[k][j]
                    }
                &&& forall|k: int, j: int|
                    0 <= k < out.fixed.len() && 0 <= j < out.usable ==> #[trigger] out.fixed[k][j]
                        == if j < rows.len() && k == self.q_first.index {
                        Some(rows[j].q_first)
                    } else {
                        cells.fixed[k][j]
                    }
                &&& forall|k: int, j: int|
                    0 <= k < out.selectors.len() && 0 <= j < out.usable
                        ==> #[trigger] out.selectors[k][j] == (cells.selectors[k][j] || (j
                        < rows.len() && k == self.q_enable.index && rows[j].q_enable == 1) || (j
                        < rows.len() && k == self.q_last.index && rows[j].q_last == 1))
            }),
    {
        let rows = self.rows_for(size, witness);
        if rows.len() <= cells.usable {
            self.lemma_rows_cells(before, cells, rows);
        } else {
            self.lemma_rows_cells(before, cells, rows.take(cells.usable));
        }
    }

    /// The row of the byte at position `k` of bytecode `c` shows the public cells of that byte, the
    /// length of the bytecode, and the number of bytes that the lowest byte of its cell pushes.
    /// It counts how many of the pushed bytes are left, from the row before it or, at the start of
    /// the bytecode, from none; and it adds its byte to `r` times the combination of the row
    /// before it or, at the start, of nothing. It is a last byte where its index is 1 less than
    /// the length. It has the inverse of the number of bytes left in the row before it, in
    /// whichever bytecode that row is, where there is one.
    pub proof fn lemma_assigned_byte(
        self,
        before: ConstraintSystem<F>,
        cells: Cells,
        size: int,
        witness: Seq<Unrolled>,
        c: int,
        k: int,
        i: int,
    )
        requires
            self.follows(before),
            self.shows_zero(),
            self.fits(cells),
            0 <= c < witness.len(),
            0 <= k < witness[c].rows.len(),
            i == witness.take(c).fold_left(0int, |n: int, u: Unrolled| n + u.rows.len()) + k,
            i < cells.usable,
        ensures
            ({
                let p = F::modulus();
                let out = self.assigned(cells, size, witness);
                let row = witness[c].rows[k];
                let left = if i == 0 {
                    0
                } else {
                    out.advice[self.push_rindex.index as int][i - 1]->0
                };
                let size_here = if 0x60 <= row.byte % 256 <= 0x7f {
                    row.byte % 256 - 0x5f
                } else {
                    0
                };
                let inverse = out.advice[self.push_rindex_inv.index as int][i]->0;
                &&& out.selectors[self.q_enable.index as int][i]
                &&& out.selectors[self.q_last.index as int][i] == (
                cells.selectors[self.q_last.index as int][i] || i == size - self.minimum_rows + 1)
                &&& out.fixed[self.q_first.index as int][i] == Some(
                    if i == 0 {
                        1int
                    } else {
                        0int
                    },
                )
                &&& out.advice[self.hash.index as int][i] == Some(row.hash)
                &&& out.advice[self.index.index as int][i] == Some(row.index)
                &&& out.advice[self.is_code.index as int][i] == Some(row.is_code)
                &&& out.advice[self.byte.index as int][i] == Some(row.byte)
                &&& out.advice[self.hash_length.index as int][i] == Some(
                    witness[c].bytes.len() as int,
                )
                &&& out.advice[self.byte_push_size.index as int][i] == Some(size_here)
                &&& out.advice[self.is_final.index as int][i] == Some(
                    if (row.index + 1) % p == witness[c].bytes.len() {
                        1int
                    } else {
                        0int
                    },
                )
                &&& out.advice[self.padding.index as int][i] == Some(0int)
                &&& out.advice[self.push_rindex.index as int][i] == Some(
                    if k == 0 || left == 0 {
                        size_here
                    } else {
                        left - 1
                    },
                )
                &&& out.advice[self.hash_rlc.index as int][i] == Some(
                    if k == 0 {
                        row.byte % p
                    } else {
                        (out.advice[self.hash_rlc.index as int][i - 1]->0 * self.r.value()
                            + row.byte) % p
                    },
                )
                &&& out.advice[self.push_rindex_inv.index as int][i] is Some
                &&& left == 0 ==> inverse == 0
                &&& left != 0 ==> 0 <= inverse < p && (left * inverse) % p == 1
            }),
    {
        let (p, r) = (F::modulus(), self.r.value());
        F::lemma_modulus_prime();
        F::lemma_modulus_exceeds_u64();
        let out = self.assigned(cells, size, witness);
        let rows = self.rows_for(size, witness);
        let some = witness_rows(p, r, witness);
        let all = padded(some, size);
        let last = size - self.minimum_rows + 1;
        let u = witness[c];
        self.lemma_assigned_cells(before, cells, size, witness);
        lemma_witness_row(p, r, witness, c, k);
        lemma_witness_length(p, r, witness.take(c));
        assert(some[i] == bytecode_row(p, r, u, k));
        assert(all[i] == some[i]);
        assert(rows[i] == placed_row(p, all, last, i));
        let row = u.rows[k];
        lemma_mod_bound(row.byte, 256);
        lemma_data_left_bounded(low_bytes(u.rows), k);
        let numbers = byte_cells(u.rows).take(k + 1);
        assert(numbers.drop_last() =~= byte_cells(u.rows).take(k));
        assert(numbers.last() == row.byte);
        let sum = combine(p, r, byte_cells(u.rows).take(k));
        lemma_add_mod_noop_right(row.byte, sum * r, p);
        if k == 0 {
            assert(combine(p, r, byte_cells(u.rows).take(0)) == 0);
            assert(0 * r == 0);
            lemma_small_mod(0, p as nat);
        } else {
            lemma_witness_row(p, r, witness, c, k - 1);
            assert(some[i - 1] == bytecode_row(p, r, u, k - 1));
            assert(all[i - 1] == some[i - 1]);
        }
        let left = if i == 0 {
            0
        } else {
            out.advice[self.push_rindex.index as int][i - 1]->0
        };
        if i > 0 {
            lemma_push_rindex_bounded(p, r, witness, i - 1);
            assert(all[i - 1] == some[i - 1]);
            assert(rows[i - 1] == placed_row(p, all, last, i - 1));
            assert(out.advice[self.push_rindex.index as int][i - 1] == Some(
                rows[i - 1].push_rindex,
            ));
        }
        lemma_inverse(p, left);
    }

    /// The rows of padding, after those of all bytecodes and up to `size` rows.
    pub proof fn lemma_assigned_padding(
        self,
        before: ConstraintSystem<F>,
        cells: Cells,
        size: int,
        witness: Seq<Unrolled>,
        i: int,
    )
        requires
            self.follows(before),
            self.shows_zero(),
            self.fits(cells),
            witness.fold_left(0int, |n: int, u: Unrolled| n + u.rows.len()) <= i < size,
            i < cells.usable,
        ensures
            ({
                let p = F::modulus();
                let out = self.assigned(cells, size, witness);
                let left = if i == 0 {
                    0
                } else {
                    out.advice[self.push_rindex.index as int][i - 1]->0
                };
                let inverse = out.advice[self.push_rindex_inv.index as int][i]->0;
                &&& out.selectors[self.q_enable.index as int][i]
                &&& out.selectors[self.q_last.index as int][i] == (
                cells.selectors[self.q_last.index as int][i] || i == size - self.minimum_rows + 1)
                &&& out.fixed[self.q_first.index as int][i] == Some(
                    if i == 0 {
                        1int
                    } else {
                        0int
                    },
                )
                &&& out.advice[self.hash.index as int][i] == Some(0int)
                &&& out.advice[self.index.index as int][i] == Some(0int)
                &&& out.advice[self.is_code.index as int][i] == Some(1int)
                &&& out.advice[self.byte.index as int][i] == Some(0int)
                &&& out.advice[self.push_rindex.index as int][i] == Some(0int)
                &&& out.advice[self.hash_rlc.index as int][i] == Some(0int)
                &&& out.advice[self.hash_length.index as int][i] == Some(1int)
                &&& out.advice[self.byte_push_size.index as int][i] == Some(0int)
                &&& out.advice[self.is_final.index as int][i] == Some(1int)
                &&& out.advice[self.padding.index as int][i] == Some(1int)
                &&& out.advice[self.push_rindex_inv.index as int][i] is Some
                &&& left == 0 ==> inverse == 0
                &&& left != 0 ==> 0 <= inverse < p && (left * inverse) % p == 1
            }),
    {
        let (p, r) = (F::modulus(), self.r.value());
        F::lemma_modulus_prime();
        F::lemma_modulus_exceeds_u64();
        let out = self.assigned(cells, size, witness);
        let rows = self.rows_for(size, witness);
        let some = witness_rows(p, r, witness);
        let all = padded(some, size);
        let last = size - self.minimum_rows + 1;
        self.lemma_assigned_cells(before, cells, size, witness);
        lemma_witness_length(p, r, witness);
        assert(all[i] == padding_row());
        assert(rows[i] == placed_row(p, all, last, i));
        let left = if i == 0 {
            0
        } else {
            out.advice[self.push_rindex.index as int][i - 1]->0
        };
        if i > 0 {
            if i - 1 < some.len() {
                lemma_push_rindex_bounded(p, r, witness, i - 1);
                assert(all[i - 1] == some[i - 1]);
            } else {
                assert(all[i - 1] == padding_row());
            }
            assert(rows[i - 1] == placed_row(p, all, last, i - 1));
            assert(out.advice[self.push_rindex.index as int][i - 1] == Some(
                rows[i - 1].push_rindex,
            ));
        }
        lemma_inverse(p, left);
    }

    /// Assigning bytecodes changes no row after those of the bytecodes and of padding, and no
    /// column but those of the rows.
    pub proof fn lemma_assigned_elsewhere(
        self,
        before: ConstraintSystem<F>,
        cells: Cells,
        size: int,
        witness: Seq<Unrolled>,
        k: int,
        i: int,
    )
        requires
            self.follows(before),
            self.shows_zero(),
            self.fits(cells),
            0 <= i < cells.usable,
        ensures
            ({
                let out = self.assigned(cells, size, witness);
                let beyond = size <= i && witness.fold_left(
                    0int,
                    |n: int, u: Unrolled| n + u.rows.len(),
                ) <= i;
                &&& out.usable == cells.usable
                &&& out.selectors.len() == cells.selectors.len()
                &&& out.fixed.len() == cells.fixed.len()
                &&& out.advice.len() == cells.advice.len()
                &&& 0 <= k < out.selectors.len() && (beyond || (k != self.q_enable.index && k
                    != self.q_last.index)) ==> out.selectors[k][i] == cells.selectors[k][i]
                &&& 0 <= k < out.fixed.len() && (beyond || k != self.q_first.index)
                    ==> out.fixed[k][i] == cells.fixed[k][i]
                &&& 0 <= k < out.advice.len() && (beyond || (k != self.hash.index && k
                    != self.index.index && k != self.is_code.index && k != self.byte.index && k
                    != self.push_rindex.index && k != self.hash_rlc.index && k
                    != self.hash_length.index && k != self.byte_push_size.index && k
                    != self.is_final.index && k != self.padding.index && k
                    != self.push_rindex_inv.index)) ==> out.advice[k][i] == cells.advice[k][i]
            }),
    {
        self.lemma_assigned_cells(before, cells, size, witness);
        lemma_witness_length(F::modulus(), self.r.value(), witness);
    }
}

impl<F: Field> Config<F> {
    /// What the table of push sizes fills.
    proof fn lemma_push_cells(self, before: ConstraintSystem<F>, cells: Cells, n: int)
        requires
            self.follows(before),
            self.fits(cells),
            0 <= n <= cells.usable,
            n <= 256,
        ensures
            ({
                let out = self.with_push_table(cells, n);
                &&& self.fits(out)
                &&& out.usable == cells.usable
                &&& out.selectors == cells.selectors
                &&& out.advice == cells.advice
                &&& out.fixed.len() == cells.fixed.len()
                &&& forall|k: int, j: int|
                    0 <= k < out.fixed.len() && 0 <= j < out.usable ==> #[trigger] out.fixed[k][j]
                        == if j < n && k == self.push_table[0].index {
                        Some(j)
                    } else if j < n && k == self.push_table[1].index {
                        Some(push_size(j as u8))
                    } else {
                        cells.fixed[k][j]
                    }
            }),
        decreases n,
    {
        if n > 0 {
            self.lemma_push_cells(before, cells, n - 1);
        }
    }

    /// What the table of hashes fills.
    proof fn lemma_keccak_cells(
        self,
        before: ConstraintSystem<F>,
        cells: Cells,
        messages: Seq<Seq<u8>>,
    )
        requires
            self.follows(before),
            self.fits(cells),
            messages.len() <= cells.usable,
        ensures
            ({
                let (p, r) = (F::modulus(), self.r.value());
                let out = self.with_keccak_table(cells, messages);
                &&& self.fits(out)
                &&& out.usable == cells.usable
                &&& out.selectors == cells.selectors
                &&& out.fixed == cells.fixed
                &&& out.advice.len() == cells.advice.len()
                &&& forall|k: int, j: int|
                    0 <= k < out.advice.len() && 0 <= j < out.usable
                        ==> #[trigger] out.advice[k][j] == if j < messages.len() && k
                        == self.keccak_table[0].index {
                        Some(combine(p, r, as_numbers(messages[j])))
                    } else if j < messages.len() && k == self.keccak_table[1].index {
                        Some(messages[j].len() as int)
                    } else if j < messages.len() && k == self.keccak_table[2].index {
                        Some(hash_number(p, r, messages[j]))
                    } else {
                        cells.advice[k][j]
                    }
            }),
        decreases messages.len(),
    {
        if messages.len() > 0 {
            self.lemma_keccak_cells(before, cells, messages.drop_last());
        }
    }

    /// Row `j` of the table of push sizes, which has a row for each byte, holds that byte and the
    /// number of bytes that it pushes: from 1 for 0x60 to 32 for 0x7f, and else 0.
    pub proof fn lemma_loaded_push_size(
        self,
        before: ConstraintSystem<F>,
        cells: Cells,
        messages: Seq<Seq<u8>>,
        j: int,
    )
        requires
            self.follows(before),
            self.fits(cells),
            0 <= j < 256,
            j < cells.usable,
        ensures
            self.loaded(cells, messages).fixed[self.push_table[0].index as int][j] == Some(j),
            self.loaded(cells, messages).fixed[self.push_table[1].index as int][j] == Some(
                if 0x60 <= j <= 0x7f {
                    j - 0x5f
                } else {
                    0
                },
            ),
    {
        if cells.usable < 256 {
            self.lemma_push_cells(before, cells, cells.usable);
        } else {
            self.lemma_push_cells(before, cells, 256);
            let pushes = self.with_push_table(cells, 256);
            if messages.len() <= cells.usable {
                self.lemma_keccak_cells(before, pushes, messages);
            } else {
                self.lemma_keccak_cells(before, pushes, messages.take(cells.usable));
            }
        }
    }

    /// Row `j` of the table of hashes holds, of message `j`, whatever its length: the sum of its
    /// bytes times the powers of `r`, from the power 0 for the last byte on; its length; and the
    /// sum of the bytes of its Keccak-256 digest times the powers of `r`, from the power 0 for the
    /// first byte on.
    pub proof fn lemma_loaded_hash(
        self,
        before: ConstraintSystem<F>,
        cells: Cells,
        messages: Seq<Seq<u8>>,
        j: int,
    )
        requires
            self.follows(before),
            self.fits(cells),
            256 <= cells.usable,
            0 <= j < messages.len(),
            j < cells.usable,
        ensures
            self.loaded(cells, messages).advice[self.keccak_table[0].index as int][j] == Some(
                Seq::new(
                    messages[j].len(),
                    |k: int|
                        messages[j][k] * pow(self.r.value(), (messages[j].len() - 1 - k) as nat),
                ).fold_left(0int, |sum: int, x: int| sum + x) % F::modulus(),
            ),
            self.loaded(cells, messages).advice[self.keccak_table[1].index as int][j] == Some(
                messages[j].len() as int,
            ),
            self.loaded(cells, messages).advice[self.keccak_table[2].index as int][j] == Some(
                Seq::new(
                    keccak256_digest(messages[j]).len(),
                    |k: int| keccak256_digest(messages[j])[k] * pow(self.r.value(), k as nat),
                ).fold_left(0int, |sum: int, x: int| sum + x) % F::modulus(),
            ),
    {
        let (p, r) = (F::modulus(), self.r.value());
        F::lemma_modulus_exceeds_u64();
        self.lemma_push_cells(before, cells, 256);
        let pushes = self.with_push_table(cells, 256);
        if messages.len() <= cells.usable {
            self.lemma_keccak_cells(before, pushes, messages);
        } else {
            self.lemma_keccak_cells(before, pushes, messages.take(cells.usable));
        }
        lemma_byte_combination_is_sum(p, r, messages[j]);
        lemma_hash_is_sum(p, r, messages[j]);
    }

    /// Loading changes no cell but those of the two tables: of the push sizes those of the first 256
    /// rows, and of the hashes those of the rows of messages, where all 256 rows are usable.
    pub proof fn lemma_loaded_elsewhere(
        self,
        before: ConstraintSystem<F>,
        cells: Cells,
        messages: Seq<Seq<u8>>,
        k: int,
        i: int,
    )
        requires
            self.follows(before),
            self.fits(cells),
            0 <= i < cells.usable,
        ensures
            ({
                let out = self.loaded(cells, messages);
                &&& out.usable == cells.usable
                &&& out.selectors == cells.selectors
                &&& out.fixed.len() == cells.fixed.len()
                &&& out.advice.len() == cells.advice.len()
                &&& 0 <= k < out.fixed.len() && (i >= 256 || (k != self.push_table[0].index && k
                    != self.push_table[1].index)) ==> out.fixed[k][i] == cells.fixed[k][i]
                &&& 0 <= k < out.advice.len() && (cells.usable < 256 || i >= messages.len() || (k
                    != self.keccak_table[0].index && k != self.keccak_table[1].index && k
                    != self.keccak_table[2].index)) ==> out.advice[k][i] == cells.advice[k][i]
            }),
    {
        if cells.usable < 256 {
            self.lemma_push_cells(before, cells, cells.usable);
        } else {
            self.lemma_push_cells(before, cells, 256);
            let pushes = self.with_push_table(cells, 256);
            if messages.len() <= cells.usable {
                self.lemma_keccak_cells(before, pushes, messages);
            } else {
                self.lemma_keccak_cells(before, pushes, messages.take(cells.usable));
            }
        }
    }
}

/// What is loaded and assigned of bytecodes: their bytes, and the numbers in their rows.
pub proof fn lemma_views<F: Field>(witness: Seq<UnrolledBytecode<F>>, c: int, k: int)
    requires
        0 <= c < witness.len(),
    ensures
        views(witness).len() == witness.len(),
        messages(views(witness)).len() == witness.len(),
        messages(views(witness))[c] == witness[c].bytes@,
        views(witness)[c].bytes == witness[c].bytes@,
        views(witness)[c].rows.len() == witness[c].rows@.len(),
        0 <= k < witness[c].rows@.len() ==> {
            &&& views(witness)[c].rows[k].hash == witness[c].rows@[k].hash.value()
            &&& views(witness)[c].rows[k].index == witness[c].rows@[k].index.value()
            &&& views(witness)[c].rows[k].is_code == witness[c].rows@[k].is_code.value()
            &&& views(witness)[c].rows[k].byte == witness[c].rows@[k].byte.value()
        },
{
}

/// The cells of a region are the bits of its selectors and the numbers of its elements.
pub proof fn lemma_region_cells<F: Field>(region: Region<F>, k: int, i: int)
    ensures
        region@.usable == region.usable_rows,
        region@.selectors.len() == region.selectors@.len(),
        region@.fixed.len() == region.fixed@.len(),
        region@.advice.len() == region.advice@.len(),
        0 <= k < region.selectors@.len() ==> region@.selectors[k] == region.selectors@[k]@,
        0 <= k < region.fixed@.len() ==> region@.fixed[k].len() == region.fixed@[k]@.len(),
        0 <= k < region.advice@.len() ==> region@.advice[k].len() == region.advice@[k]@.len(),
        0 <= k < region.fixed@.len() && 0 <= i < region.fixed@[k]@.len() ==> region@.fixed[k][i]
            == match region.fixed@[k]@[i] {
            Some(v) => Some(v.value()),
            None => None,
        },
        0 <= k < region.advice@.len() && 0 <= i < region.advice@[k]@.len()
            ==> region@.advice[k][i] == match region.advice@[k]@[i] {
            Some(v) => Some(v.value()),
            None => None,
        },
{
}

/// The inverse of a reduced number times the number is 1 modulo a prime; for 0 it is 0.
pub proof fn lemma_inverse(p: int, x: int)
    requires
        is_prime(p),
        0 <= x < p,
    ensures
        x == 0 ==> inverse_or_zero(p, x) == 0,
        x != 0 ==> 0 <= inverse_or_zero(p, x) < p && (x * inverse_or_zero(p, x)) % p == 1,
{
    if x == 0 {
        lemma_zero_has_no_inverse(p);
    } else {
        let y = lemma_inverse_exists(p, x);
        assert(exists|y: int| 0 <= y < p && is_inverse(p, x, y));
    }
}

/// The number of rows of bytecodes.
proof fn lemma_witness_length(p: int, r: int, witness: Seq<Unrolled>)
    ensures
        witness_rows(p, r, witness).len() == witness.fold_left(
            0int,
            |n: int, u: Unrolled| n + u.rows.len(),
        ),
    decreases witness.len(),
{
    if witness.len() > 0 {
        lemma_witness_length(p, r, witness.drop_last());
    }
}

/// No more than 32 bytes are left.
proof fn lemma_push_rindex_bounded(p: int, r: int, witness: Seq<Unrolled>, i: int)
    requires
        0 <= i < witness_rows(p, r, witness).len(),
    ensures
        0 <= witness_rows(p, r, witness)[i].push_rindex <= 32,
    decreases witness.len(),
{
    let some = witness_rows(p, r, witness.drop_last());
    if i < some.len() {
        lemma_push_rindex_bounded(p, r, witness.drop_last(), i);
    } else {
        let k = i - some.len();
        assert(witness_rows(p, r, witness)[i] == bytecode_row(p, r, witness.last(), k));
        lemma_data_left_bounded(low_bytes(witness.last().rows), k + 1);
    }
}

} // verus!

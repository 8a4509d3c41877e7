//! What a table holds whose cells were filled by loading and assigning bytecodes.

use crate::config::Config;
use crate::constraint_system::ConstraintSystem;
use crate::expression::Table;
use crate::field::Field;
use crate::hash::{as_numbers, combine, hash_number};
use crate::layout::{bytecode_row, circuit_rows, messages, witness_rows};
use crate::opcode::push_size;
use crate::region::{cell_value, Cells};
use crate::rows::{is_bit, CircuitRow};
use crate::unroller::Unrolled;
use vstd::prelude::*;

verus! {

/// The bit of a selector as a number.
pub open spec fn bit_value(bit: bool) -> int {
    if bit {
        1
    } else {
        0
    }
}

/// The marks of the rows of the circuit are bits.
proof fn lemma_witness_bits(p: int, r: int, witness: Seq<Unrolled>)
    ensures
        forall|i: int|
            0 <= i < witness_rows(p, r, witness).len() ==> (#[trigger] witness_rows(
                p,
                r,
                witness,
            )[i]).q_enable == 1,
    decreases witness.len(),
{
    if witness.len() > 0 {
        lemma_witness_bits(p, r, witness.drop_last());
        let (all, some) = (witness_rows(p, r, witness), witness_rows(p, r, witness.drop_last()));
        assert forall|i: int| 0 <= i < all.len() implies (#[trigger] all[i]).q_enable == 1 by {
            if i < some.len() {
                assert(all[i] == some[i]);
            } else {
                assert(all[i] == bytecode_row(p, r, witness.last(), i - some.len()));
            }
        }
    }
}

/// The marks of the rows of the circuit are bits.
proof fn lemma_circuit_bits(p: int, r: int, witness: Seq<Unrolled>, size: int, last: int)
    ensures
        forall|i: int|
            0 <= i < circuit_rows(p, r, witness, size, last).len() ==> is_bit(
                (#[trigger] circuit_rows(p, r, witness, size, last)[i]).q_enable,
            ) && is_bit(circuit_rows(p, r, witness, size, last)[i].q_last),
{
    lemma_witness_bits(p, r, witness);
}

impl<F: Field> Config<F> {
    /// The cells of the circuit in row `i`.
    pub open spec fn read(self, cells: Cells, i: int) -> CircuitRow {
        CircuitRow {
            q_enable: bit_value(cells.selectors[self.q_enable.index as int][i]),
            q_first: cell_value(cells.fixed[self.q_first.index as int][i]),
            q_last: bit_value(cells.selectors[self.q_last.index as int][i]),
            hash: cell_value(cells.advice[self.hash.index as int][i]),
            index: cell_value(cells.advice[self.index.index as int][i]),
            is_code: cell_value(cells.advice[self.is_code.index as int][i]),
            byte: cell_value(cells.advice[self.byte.index as int][i]),
            push_rindex: cell_value(cells.advice[self.push_rindex.index as int][i]),
            hash_rlc: cell_value(cells.advice[self.hash_rlc.index as int][i]),
            hash_length: cell_value(cells.advice[self.hash_length.index as int][i]),
            byte_push_size: cell_value(cells.advice[self.byte_push_size.index as int][i]),
            is_final: cell_value(cells.advice[self.is_final.index as int][i]),
            padding: cell_value(cells.advice[self.padding.index as int][i]),
            push_rindex_inv: cell_value(cells.advice[self.push_rindex_inv.index as int][i]),
        }
    }

    /// The row `j` of the table of push sizes.
    pub open spec fn read_push(self, cells: Cells, j: int) -> Seq<int> {
        seq![
            cell_value(cells.fixed[self.push_table[0].index as int][j]),
            cell_value(cells.fixed[self.push_table[1].index as int][j]),
        ]
    }

    /// The row `j` of the table of hashes.
    pub open spec fn read_keccak(self, cells: Cells, j: int) -> Seq<int> {
        seq![
            cell_value(cells.advice[self.keccak_table[0].index as int][j]),
            cell_value(cells.advice[self.keccak_table[1].index as int][j]),
            cell_value(cells.advice[self.keccak_table[2].index as int][j]),
        ]
    }

    /// Filling a row of the circuit changes that row alone.
    proof fn lemma_with_row(self, before: ConstraintSystem<F>, cells: Cells, i: int, row: CircuitRow)
        requires
            self.follows(before),
            self.shows_zero(),
            self.fits(cells),
            0 <= i < cells.usable,
            is_bit(row.q_enable),
            is_bit(row.q_last),
            self.read(cells, i).q_enable == 0,
            self.read(cells, i).q_last == 0,
        ensures
            self.fits(self.with_row(cells, i, row)),
            self.with_row(cells, i, row).usable == cells.usable,
            self.read(self.with_row(cells, i, row), i) == row,
            forall|j: int|
                0 <= j < cells.usable && j != i ==> #[trigger] self.read(
                    self.with_row(cells, i, row),
                    j,
                ) == self.read(cells, j),
            forall|j: int|
                0 <= j < cells.usable ==> #[trigger] self.read_push(
                    self.with_row(cells, i, row),
                    j,
                ) == self.read_push(cells, j),
            forall|j: int|
                0 <= j < cells.usable ==> #[trigger] self.read_keccak(
                    self.with_row(cells, i, row),
                    j,
                ) == self.read_keccak(cells, j),
    {
        let got = self.read(self.with_row(cells, i, row), i);
        assert(got.q_enable == row.q_enable);
        assert(got.q_first == row.q_first);
        assert(got.q_last == row.q_last);
        assert(got.hash == row.hash);
        assert(got.index == row.index);
        assert(got.is_code == row.is_code);
        assert(got.byte == row.byte);
        assert(got.push_rindex == row.push_rindex);
        assert(got.hash_rlc == row.hash_rlc);
        assert(got.hash_length == row.hash_length);
        assert(got.byte_push_size == row.byte_push_size);
        assert(got.is_final == row.is_final);
        assert(got.padding == row.padding);
        assert(got.push_rindex_inv == row.push_rindex_inv);
    }

    /// Filling rows of the circuit changes those rows alone.
    proof fn lemma_with_rows(self, before: ConstraintSystem<F>, cells: Cells, rows: Seq<CircuitRow>)
        requires
            self.follows(before),
            self.shows_zero(),
            self.fits(cells),
            rows.len() <= cells.usable,
            forall|i: int|
                0 <= i < rows.len() ==> is_bit((#[trigger] rows[i]).q_enable) && is_bit(
                    rows[i].q_last,
                ),
            forall|i: int|
                0 <= i < cells.usable ==> (#[trigger] self.read(cells, i)).q_enable == 0
                    && self.read(cells, i).q_last == 0,
        ensures
            self.fits(self.with_rows(cells, rows)),
            self.with_rows(cells, rows).usable == cells.usable,
            forall|i: int|
                0 <= i < cells.usable ==> #[trigger] self.read(self.with_rows(cells, rows), i)
                    == if i < rows.len() {
                    rows[i]
                } else {
                    self.read(cells, i)
                },
            forall|j: int|
                0 <= j < cells.usable ==> #[trigger] self.read_push(
                    self.with_rows(cells, rows),
                    j,
                ) == self.read_push(cells, j),
            forall|j: int|
                0 <= j < cells.usable ==> #[trigger] self.read_keccak(
                    self.with_rows(cells, rows),
                    j,
                ) == self.read_keccak(cells, j),
        decreases rows.len(),
    {
        if rows.len() > 0 {
            let fewer = rows.drop_last();
            assert forall|i: int| 0 <= i < fewer.len() implies is_bit((#[trigger] fewer[i]).q_enable)
                && is_bit(fewer[i].q_last) by {
                assert(fewer[i] == rows[i]);
            }
            self.lemma_with_rows(before, cells, fewer);
            let c = self.with_rows(cells, fewer);
            let n = rows.len() - 1;
            assert(self.read(c, n) == self.read(cells, n));
            self.lemma_with_row(before, c, n, rows.last());
            let all = self.with_rows(cells, rows);
            assert(all == self.with_row(c, n, rows.last()));
            assert forall|i: int| 0 <= i < cells.usable implies #[trigger] self.read(all, i) == if i
                < rows.len() {
                rows[i]
            } else {
                self.read(cells, i)
            } by {
                assert(self.read(c, i) == self.read(c, i));
            }
            assert forall|j: int| 0 <= j < cells.usable implies #[trigger] self.read_push(all, j)
                == self.read_push(cells, j) by {
                assert(self.read_push(c, j) == self.read_push(cells, j));
            }
            assert forall|j: int| 0 <= j < cells.usable implies #[trigger] self.read_keccak(all, j)
                == self.read_keccak(cells, j) by {
                assert(self.read_keccak(c, j) == self.read_keccak(cells, j));
            }
        }
    }

    /// Filling the table of push sizes changes its columns alone.
    proof fn lemma_with_push_table(self, before: ConstraintSystem<F>, cells: Cells, n: int)
        requires
            self.follows(before),
            self.shows_zero(),
            self.fits(cells),
            0 <= n <= cells.usable,
            n <= 256,
        ensures
            self.fits(self.with_push_table(cells, n)),
            self.with_push_table(cells, n).usable == cells.usable,
            forall|j: int|
                0 <= j < cells.usable ==> #[trigger] self.read_push(
                    self.with_push_table(cells, n),
                    j,
                ) == if j < n {
                    seq![j, push_size(j as u8)]
                } else {
                    self.read_push(cells, j)
                },
            forall|i: int|
                0 <= i < cells.usable ==> #[trigger] self.read(
                    self.with_push_table(cells, n),
                    i,
                ) == self.read(cells, i),
            forall|j: int|
                0 <= j < cells.usable ==> #[trigger] self.read_keccak(
                    self.with_push_table(cells, n),
                    j,
                ) == self.read_keccak(cells, j),
        decreases n,
    {
        if n > 0 {
            self.lemma_with_push_table(before, cells, n - 1);
            let c = self.with_push_table(cells, n - 1);
            let all = self.with_push_table(cells, n);
            assert forall|j: int| 0 <= j < cells.usable implies #[trigger] self.read_push(all, j)
                == if j < n {
                seq![j, push_size(j as u8)]
            } else {
                self.read_push(cells, j)
            } by {
                assert(self.read_push(c, j) == self.read_push(c, j));
                assert(self.read_push(all, j) =~= if j == n - 1 {
                    seq![j, push_size(j as u8)]
                } else {
                    self.read_push(c, j)
                });
            }
            assert forall|i: int| 0 <= i < cells.usable implies #[trigger] self.read(all, i)
                == self.read(cells, i) by {
                assert(self.read(all, i) == self.read(c, i));
            }
            assert forall|j: int| 0 <= j < cells.usable implies #[trigger] self.read_keccak(all, j)
                == self.read_keccak(cells, j) by {
                assert(self.read_keccak(all, j) == self.read_keccak(c, j));
            }
        }
    }

    /// The row of a message in the table of hashes.
    pub open spec fn keccak_row(self, message: Seq<u8>) -> Seq<int> {
        let (p, r) = (F::modulus(), self.r.value());
        seq![
            combine(p, r, as_numbers(message)),
            message.len() as int,
            hash_number(p, r, message),
        ]
    }

    /// Filling the table of hashes changes its columns alone.
    proof fn lemma_with_keccak_table(
        self,
        before: ConstraintSystem<F>,
        cells: Cells,
        messages: Seq<Seq<u8>>,
    )
        requires
            self.follows(before),
            self.shows_zero(),
            self.fits(cells),
            messages.len() <= cells.usable,
        ensures
            self.fits(self.with_keccak_table(cells, messages)),
            self.with_keccak_table(cells, messages).usable == cells.usable,
            forall|j: int|
                0 <= j < cells.usable ==> #[trigger] self.read_keccak(
                    self.with_keccak_table(cells, messages),
                    j,
                ) == if j < messages.len() {
                    self.keccak_row(messages[j])
                } else {
                    self.read_keccak(cells, j)
                },
            forall|i: int|
                0 <= i < cells.usable ==> #[trigger] self.read(
                    self.with_keccak_table(cells, messages),
                    i,
                ) == self.read(cells, i),
            forall|j: int|
                0 <= j < cells.usable ==> #[trigger] self.read_push(
                    self.with_keccak_table(cells, messages),
                    j,
                ) == self.read_push(cells, j),
        decreases messages.len(),
    {
        if messages.len() > 0 {
            let fewer = messages.drop_last();
            self.lemma_with_keccak_table(before, cells, fewer);
            let c = self.with_keccak_table(cells, fewer);
            let all = self.with_keccak_table(cells, messages);
            let n = messages.len() - 1;
            assert forall|j: int| 0 <= j < cells.usable implies #[trigger] self.read_keccak(all, j)
                == if j < messages.len() {
                self.keccak_row(messages[j])
            } else {
                self.read_keccak(cells, j)
            } by {
                assert(self.read_keccak(c, j) == self.read_keccak(c, j));
                assert(self.read_keccak(all, j) =~= if j == n {
                    self.keccak_row(messages[j])
                } else {
                    self.read_keccak(c, j)
                });
            }
            assert forall|i: int| 0 <= i < cells.usable implies #[trigger] self.read(all, i)
                == self.read(cells, i) by {
                assert(self.read(all, i) == self.read(c, i));
            }
            assert forall|j: int| 0 <= j < cells.usable implies #[trigger] self.read_push(all, j)
                == self.read_push(cells, j) by {
                assert(self.read_push(all, j) == self.read_push(c, j));
            }
        }
    }

    /// The cells of a circuit for which the tables were loaded and the rows assigned.
    pub open spec fn filled(
        self,
        meta: ConstraintSystem<F>,
        usable: int,
        size: int,
        witness: Seq<Unrolled>,
    ) -> Cells {
        let blank = Cells::blank(
            usable,
            meta.num_selectors as nat,
            meta.num_fixed_columns as nat,
            meta.num_advice_columns as nat,
        );
        self.assigned(self.loaded(blank, messages(witness)), size, witness)
    }

    /// Whether a table holds what loading and assigning bytecodes leaves in a circuit with `size`
    /// rows.
    pub open spec fn laid_out(
        self,
        meta: ConstraintSystem<F>,
        t: Table,
        size: int,
        witness: Seq<Unrolled>,
    ) -> bool {
        &&& t.usable == size - self.minimum_rows + 2
        &&& 256 <= t.usable <= size
        &&& witness.len() <= t.usable
        &&& self.filled(meta, t.usable, size, witness).in_table(t, t.rows)
    }

    /// What a table holds for which the tables were loaded and the rows assigned.
    pub proof fn lemma_laid_out(
        self,
        before: ConstraintSystem<F>,
        meta: ConstraintSystem<F>,
        t: Table,
        size: int,
        witness: Seq<Unrolled>,
    )
        requires
            self.extends(before, meta),
            self.shows_zero(),
            self.laid_out(meta, t, size, witness),
        ensures
            self.rows_for(size, witness).len() >= t.usable,
            forall|i: int|
                0 <= i < t.usable ==> #[trigger] self.row(t, i) == self.rows_for(size, witness)[i],
            forall|i: int|
                t.usable <= i < t.rows ==> (#[trigger] self.row(t, i)).q_enable == 0 && self.row(
                    t,
                    i,
                ).q_last == 0 && self.row(t, i).q_first == 0,
            forall|j: int|
                0 <= j < t.usable ==> #[trigger] self.push_entry(t, j) == if j < 256 {
                    seq![j, push_size(j as u8)]
                } else {
                    seq![0int, 0int]
                },
            forall|j: int|
                0 <= j < t.usable ==> #[trigger] self.keccak_entry(t, j) == if j < witness.len() {
                    self.keccak_row(witness[j].bytes)
                } else {
                    seq![0int, 0int, 0int]
                },
    {
        let usable = t.usable;
        let blank = Cells::blank(
            usable,
            meta.num_selectors as nat,
            meta.num_fixed_columns as nat,
            meta.num_advice_columns as nat,
        );
        assert(self.fits(blank));
        assert forall|i: int| 0 <= i < usable implies (#[trigger] self.read(blank, i)).q_enable == 0
            && self.read(blank, i).q_last == 0 && self.read_push(blank, i) == seq![0int, 0int]
            && self.read_keccak(blank, i) == seq![0int, 0int, 0int] by {
            assert(self.read_push(blank, i) =~= seq![0int, 0int]);
            assert(self.read_keccak(blank, i) =~= seq![0int, 0int, 0int]);
        }
        let pushes = self.with_push_table(blank, 256);
        self.lemma_with_push_table(before, blank, 256);
        let loaded = self.loaded(blank, messages(witness));
        self.lemma_with_keccak_table(before, pushes, messages(witness));
        assert forall|i: int| 0 <= i < usable implies (#[trigger] self.read(loaded, i)).q_enable == 0
            && self.read(loaded, i).q_last == 0 by {
            assert(self.read(pushes, i) == self.read(blank, i));
        }
        let all = self.rows_for(size, witness);
        let rows = all.take(usable);
        assert(all.len() == usable ==> rows =~= all);
        lemma_circuit_bits(F::modulus(), self.r.value(), witness, size, size - self.minimum_rows + 1);
        assert forall|i: int| 0 <= i < rows.len() implies is_bit((#[trigger] rows[i]).q_enable)
            && is_bit(rows[i].q_last) by {
            assert(rows[i] == all[i]);
        }
        self.lemma_with_rows(before, loaded, rows);
        let cells = self.with_rows(loaded, rows);
        assert(cells == self.filled(meta, usable, size, witness));
        assert forall|i: int| 0 <= i < usable implies #[trigger] self.row(t, i) == all[i] by {
            assert(self.read(cells, i) == rows[i]);
            assert(self.row(t, i) == self.read(cells, i));
        }
        assert forall|j: int| 0 <= j < usable implies #[trigger] self.push_entry(t, j) == if j
            < 256 {
            seq![j, push_size(j as u8)]
        } else {
            seq![0int, 0int]
        } by {
            assert(self.push_entry(t, j) =~= self.read_push(cells, j));
            assert(self.read_push(loaded, j) == self.read_push(pushes, j));
            assert(self.read(blank, j).q_enable == 0);
        }
        assert forall|j: int| 0 <= j < usable implies #[trigger] self.keccak_entry(t, j) == if j
            < witness.len() {
            self.keccak_row(witness[j].bytes)
        } else {
            seq![0int, 0int, 0int]
        } by {
            assert(self.keccak_entry(t, j) =~= self.read_keccak(cells, j));
            assert(self.read_keccak(pushes, j) == self.read_keccak(blank, j));
            assert(self.read(blank, j).q_enable == 0);
        }
    }
}

} // verus!

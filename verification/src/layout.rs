//! How bytecodes are laid out in the rows of the circuit.

use crate::config::Config;
use crate::field::{add_mod, inverse_or_zero, Field};
use crate::hash::{as_numbers, combine, hash_number, keccak, linear_combine};
use crate::is_zero::IsZeroChip;
use crate::opcode::{data_left, get_push_size, lemma_data_left_bounded, push_size};
use crate::region::{Cells, Error, Region};
use crate::rows::CircuitRow;
use crate::unroller::{RowNumbers, Unrolled, UnrolledBytecode};
use vstd::arithmetic::div_mod::lemma_mod_mod;
use vstd::prelude::*;

verus! {

/// The lowest byte of a number.
pub open spec fn low_byte(n: int) -> u8 {
    (n % 256) as u8
}

/// The lowest bytes of the byte cells of rows.
pub open spec fn low_bytes(rows: Seq<RowNumbers>) -> Seq<u8> {
    rows.map_values(|row: RowNumbers| low_byte(row.byte))
}

/// The byte cells of rows.
pub open spec fn byte_cells(rows: Seq<RowNumbers>) -> Seq<int> {
    rows.map_values(|row: RowNumbers| row.byte)
}

/// What the circuit holds in the row of the byte at position `k` of a bytecode, wherever
/// the row stands.
pub open spec fn bytecode_row(p: int, r: int, bytecode: Unrolled, k: int) -> CircuitRow {
    let row = bytecode.rows[k];
    let length = bytecode.bytes.len() as int;
    CircuitRow {
        q_enable: 1,
        q_first: 0,
        q_last: 0,
        hash: row.hash,
        index: row.index,
        is_code: row.is_code,
        byte: row.byte,
        push_rindex: data_left(low_bytes(bytecode.rows), k + 1),
        hash_rlc: combine(p, r, byte_cells(bytecode.rows).take(k + 1)),
        hash_length: length,
        byte_push_size: push_size(low_byte(row.byte)),
        is_final: if add_mod(p, row.index, 1) == length {
            1
        } else {
            0
        },
        padding: 0,
        push_rindex_inv: 0,
    }
}

/// What the circuit holds in the rows of a bytecode.
pub open spec fn bytecode_rows(p: int, r: int, bytecode: Unrolled) -> Seq<CircuitRow> {
    Seq::new(bytecode.rows.len(), |k: int| bytecode_row(p, r, bytecode, k))
}

/// What the circuit holds in the rows of bytecodes, one after the other.
pub open spec fn witness_rows(p: int, r: int, witness: Seq<Unrolled>) -> Seq<CircuitRow>
    decreases witness.len(),
{
    if witness.len() == 0 {
        Seq::empty()
    } else {
        witness_rows(p, r, witness.drop_last()) + bytecode_rows(p, r, witness.last())
    }
}

/// What the circuit holds in a row after those of the bytecodes.
pub open spec fn padding_row() -> CircuitRow {
    CircuitRow {
        q_enable: 1,
        q_first: 0,
        q_last: 0,
        hash: 0,
        index: 0,
        is_code: 1,
        byte: 0,
        push_rindex: 0,
        hash_rlc: 0,
        hash_length: 1,
        byte_push_size: 0,
        is_final: 1,
        padding: 1,
        push_rindex_inv: 0,
    }
}

/// Rows, followed by rows of padding up to `size` rows.
pub open spec fn padded(rows: Seq<CircuitRow>, size: int) -> Seq<CircuitRow> {
    if rows.len() >= size {
        rows
    } else {
        rows + Seq::new((size - rows.len()) as nat, |k: int| padding_row())
    }
}

/// The row `i` of rows, with what depends on where it stands: whether it is the first and
/// the last one, and the inverse of the push index of the row before it.
pub open spec fn placed_row(p: int, rows: Seq<CircuitRow>, last: int, i: int) -> CircuitRow {
    CircuitRow {
        q_first: if i == 0 {
            1
        } else {
            0
        },
        q_last: if i == last {
            1
        } else {
            0
        },
        push_rindex_inv: inverse_or_zero(
            p,
            if i == 0 {
                0
            } else {
                rows[i - 1].push_rindex
            },
        ),
        ..rows[i]
    }
}

/// The rows of the circuit for bytecodes.
pub open spec fn circuit_rows(
    p: int,
    r: int,
    witness: Seq<Unrolled>,
    size: int,
    last: int,
) -> Seq<CircuitRow> {
    let rows = padded(witness_rows(p, r, witness), size);
    Seq::new(rows.len(), |i: int| placed_row(p, rows, last, i))
}

/// The row of the byte at position `k` of bytecode `b` among those of all bytecodes.
pub proof fn lemma_witness_row(p: int, r: int, witness: Seq<Unrolled>, b: int, k: int)
    requires
        0 <= b < witness.len(),
        0 <= k < witness[b].rows.len(),
    ensures
        ({
            let at = witness_rows(p, r, witness.take(b)).len() + k;
            &&& at < witness_rows(p, r, witness).len()
            &&& witness_rows(p, r, witness)[at] == bytecode_row(p, r, witness[b], k)
        }),
    decreases witness.len(),
{
    if b == witness.len() - 1 {
        assert(witness.take(b) =~= witness.drop_last());
    } else {
        lemma_witness_row(p, r, witness.drop_last(), b, k);
        assert(witness.drop_last().take(b) =~= witness.take(b));
    }
}

/// The low 128 bits of a number have its lowest byte.
proof fn lemma_low_byte(n: int)
    ensures
        (n % 0x1_0000_0000_0000_0000_0000_0000_0000_0000int) % 256 == n % 256,
{
    lemma_mod_mod(n, 256, 0x100_0000_0000_0000_0000_0000_0000_0000int);
}

/// The views of bytecodes.
pub open spec fn views<F: Field>(witness: Seq<UnrolledBytecode<F>>) -> Seq<Unrolled> {
    witness.map_values(|bytecode: UnrolledBytecode<F>| bytecode@)
}

/// The bytes of bytecodes.
pub open spec fn messages(witness: Seq<Unrolled>) -> Seq<Seq<u8>> {
    witness.map_values(|bytecode: Unrolled| bytecode.bytes)
}

/// The lowest byte of a number, from its low 128 bits.
fn truncate(n: u128) -> (b: u8)
    ensures
        b == n % 256,
{
    let b: u8 = #[verifier::truncate] (n as u8);
    assert(b == n % 256) by (bit_vector)
        requires
            b == n as u8,
    ;
    b
}

impl<F: Field> Config<F> {
    /// Whether cells have the columns of the circuit.
    pub open spec fn fits(self, cells: Cells) -> bool {
        &&& cells.wf()
        &&& self.q_enable.index < cells.selectors.len()
        &&& self.q_last.index < cells.selectors.len()
        &&& self.q_first.index < cells.fixed.len()
        &&& forall|k: int|
            0 <= k < 2 ==> (#[trigger] self.push_table[k]).index < cells.fixed.len()
        &&& self.hash.index < cells.advice.len()
        &&& self.index.index < cells.advice.len()
        &&& self.is_code.index < cells.advice.len()
        &&& self.byte.index < cells.advice.len()
        &&& self.push_rindex.index < cells.advice.len()
        &&& self.hash_rlc.index < cells.advice.len()
        &&& self.hash_length.index < cells.advice.len()
        &&& self.byte_push_size.index < cells.advice.len()
        &&& self.is_final.index < cells.advice.len()
        &&& self.padding.index < cells.advice.len()
        &&& self.push_rindex_is_zero.value_inv.index < cells.advice.len()
        &&& forall|k: int|
            0 <= k < 3 ==> (#[trigger] self.keccak_table[k]).index < cells.advice.len()
    }

    /// The cells with a row of the circuit.
    pub open spec fn with_row(self, cells: Cells, i: int, row: CircuitRow) -> Cells {
        let c = if row.q_enable == 1 {
            cells.enable(self.q_enable, i)
        } else {
            cells
        };
        let c = c.set_fixed(self.q_first, i, row.q_first);
        let c = if row.q_last == 1 {
            c.enable(self.q_last, i)
        } else {
            c
        };
        c
            .set_advice(self.hash, i, row.hash)
            .set_advice(self.index, i, row.index)
            .set_advice(self.is_code, i, row.is_code)
            .set_advice(self.byte, i, row.byte)
            .set_advice(self.push_rindex, i, row.push_rindex)
            .set_advice(self.hash_rlc, i, row.hash_rlc)
            .set_advice(self.hash_length, i, row.hash_length)
            .set_advice(self.byte_push_size, i, row.byte_push_size)
            .set_advice(self.is_final, i, row.is_final)
            .set_advice(self.padding, i, row.padding)
            .set_advice(self.push_rindex_is_zero.value_inv, i, row.push_rindex_inv)
    }

    /// The cells with rows of the circuit from the first on.
    pub open spec fn with_rows(self, cells: Cells, rows: Seq<CircuitRow>) -> Cells
        decreases rows.len(),
    {
        if rows.len() == 0 {
            cells
        } else {
            self.with_row(
                self.with_rows(cells, rows.drop_last()),
                rows.len() - 1,
                rows.last(),
            )
        }
    }

    /// The rows of the circuit for bytecodes, when it has `size` rows.
    pub open spec fn rows_for(self, size: int, witness: Seq<Unrolled>) -> Seq<CircuitRow> {
        circuit_rows(F::modulus(), self.r.value(), witness, size, size - self.minimum_rows + 1)
    }

    /// The cells with the rows of bytecodes, as far as they are usable.
    pub open spec fn assigned(self, cells: Cells, size: int, witness: Seq<Unrolled>) -> Cells {
        let rows = self.rows_for(size, witness);
        if rows.len() <= cells.usable {
            self.with_rows(cells, rows)
        } else {
            self.with_rows(cells, rows.take(cells.usable))
        }
    }

    /// The cells with the first `n` rows of the table of push sizes.
    pub open spec fn with_push_table(self, cells: Cells, n: int) -> Cells
        decreases n,
    {
        if n <= 0 {
            cells
        } else {
            self
                .with_push_table(cells, n - 1)
                .set_fixed(self.push_table[0], n - 1, n - 1)
                .set_fixed(self.push_table[1], n - 1, push_size((n - 1) as u8))
        }
    }

    /// The cells with the rows of messages in the table of hashes.
    pub open spec fn with_keccak_table(self, cells: Cells, messages: Seq<Seq<u8>>) -> Cells
        decreases messages.len(),
    {
        if messages.len() == 0 {
            cells
        } else {
            let (p, r) = (F::modulus(), self.r.value());
            let (i, message) = (messages.len() - 1, messages.last());
            self
                .with_keccak_table(cells, messages.drop_last())
                .set_advice(self.keccak_table[0], i, combine(p, r, as_numbers(message)))
                .set_advice(self.keccak_table[1], i, message.len() as int)
                .set_advice(self.keccak_table[2], i, hash_number(p, r, message))
        }
    }

    /// The cells with the two tables, as far as their rows are usable. The table of hashes is
    /// filled only where that of push sizes is complete.
    pub open spec fn loaded(self, cells: Cells, messages: Seq<Seq<u8>>) -> Cells {
        if cells.usable < 256 {
            self.with_push_table(cells, cells.usable)
        } else if messages.len() <= cells.usable {
            self.with_keccak_table(self.with_push_table(cells, 256), messages)
        } else {
            self.with_keccak_table(
                self.with_push_table(cells, 256),
                messages.take(cells.usable),
            )
        }
    }

    /// Fills a row. Nothing is filled where the row lies beyond the usable ones.
    #[allow(clippy::too_many_arguments)]
    fn set_row(
        &self,
        region: &mut Region<F>,
        push_rindex_is_zero_chip: &IsZeroChip<F>,
        offset: usize,
        enable: bool,
        last: bool,
        hash: F,
        index: F,
        is_code: F,
        byte: F,
        push_rindex: u64,
        hash_rlc: F,
        hash_length: F,
        byte_push_size: F,
        is_final: bool,
        padding: bool,
        push_rindex_prev: F,
    ) -> (r: Result<(), Error>)
        requires
            self.fits(old(region)@),
            push_rindex_is_zero_chip.config == self.push_rindex_is_zero,
        ensures
            self.fits(final(region)@),
            final(region)@.usable == old(region)@.usable,
            offset < old(region)@.usable ==> r is Ok && final(region)@ == self.with_row(
                old(region)@,
                offset as int,
                CircuitRow {
                    q_enable: if enable {
                        1
                    } else {
                        0
                    },
                    q_first: if offset == 0 {
                        1
                    } else {
                        0
                    },
                    q_last: if last {
                        1
                    } else {
                        0
                    },
                    hash: hash.value(),
                    index: index.value(),
                    is_code: is_code.value(),
                    byte: byte.value(),
                    push_rindex: push_rindex as int,
                    hash_rlc: hash_rlc.value(),
                    hash_length: hash_length.value(),
                    byte_push_size: byte_push_size.value(),
                    is_final: if is_final {
                        1
                    } else {
                        0
                    },
                    padding: if padding {
                        1
                    } else {
                        0
                    },
                    push_rindex_inv: inverse_or_zero(F::modulus(), push_rindex_prev.value()),
                },
            ),
            offset >= old(region)@.usable ==> r == Err::<(), Error>(Error::NotEnoughRowsAvailable)
                && final(region)@ == old(region)@,
    {
        // q_enable
        if enable {
            region.enable_selector(self.q_enable, offset)?;
        }

        // q_first
        region.assign_fixed(self.q_first, offset, F::from_u64((offset == 0) as u64))?;

        // q_last
        if last {
            region.enable_selector(self.q_last, offset)?;
        }

        // Advices
        region.assign_advice(self.hash, offset, hash)?;
        region.assign_advice(self.index, offset, index)?;
        region.assign_advice(self.is_code, offset, is_code)?;
        region.assign_advice(self.byte, offset, byte)?;
        region.assign_advice(self.push_rindex, offset, F::from_u64(push_rindex))?;
        region.assign_advice(self.hash_rlc, offset, hash_rlc)?;
        region.assign_advice(self.hash_length, offset, hash_length)?;
        region.assign_advice(self.byte_push_size, offset, byte_push_size)?;
        region.assign_advice(self.is_final, offset, F::from_u64(is_final as u64))?;
        region.assign_advice(self.padding, offset, F::from_u64(padding as u64))?;

        // push_rindex_is_zero_chip
        push_rindex_is_zero_chip.assign(region, offset, push_rindex_prev)?;

        Ok(())
    }

    /// One more row.
    proof fn lemma_next_row(self, cells: Cells, rows: Seq<CircuitRow>, i: int)
        requires
            0 <= i < rows.len(),
        ensures
            self.with_rows(cells, rows.take(i + 1)) == self.with_row(
                self.with_rows(cells, rows.take(i)),
                i,
                rows[i],
            ),
    {
        assert(rows.take(i + 1).drop_last() =~= rows.take(i));
    }

    /// Fills the rows of bytecodes, and rows of padding after them up to `size` rows. It stops
    /// at the first row beyond the usable ones.
    fn assign_rows(
        &self,
        region: &mut Region<F>,
        size: usize,
        witness: &[UnrolledBytecode<F>],
    ) -> (result: Result<(), Error>)
        requires
            self.fits(old(region)@),
            self.minimum_rows <= size,
            size - self.minimum_rows < usize::MAX,
        ensures
            self.fits(final(region)@),
            final(region)@.usable == old(region)@.usable,
            final(region)@ == self.assigned(old(region)@, size as int, views(witness@)),
            match result {
                Ok(_) => self.rows_for(size as int, views(witness@)).len() <= old(region)@.usable,
                Err(e) => e == Error::NotEnoughRowsAvailable && self.rows_for(
                    size as int,
                    views(witness@),
                ).len() > old(region)@.usable,
            },
    {
        let push_rindex_is_zero_chip = IsZeroChip::construct(self.push_rindex_is_zero.clone());

        // Subtract the unusable rows from the size
        let last_row_offset: usize = size - self.minimum_rows + 1;

        let ghost (p, r) = (F::modulus(), self.r.value());
        let ghost w = views(witness@);
        let ghost all = padded(witness_rows(p, r, w), size as int);
        let ghost rows = circuit_rows(p, r, w, size as int, last_row_offset as int);
        let ghost usable = old(region)@.usable;

        let mut offset: usize = 0;
        let mut push_rindex_prev: u64 = 0;

        let mut b: usize = 0;
        assert(w.take(0) =~= Seq::<Unrolled>::empty());
        assert(rows.take(0) =~= Seq::<CircuitRow>::empty());
        while b < witness.len()
            invariant
                b <= witness@.len(),
                self.fits(region@),
                region@.usable == usable,
                usable == old(region)@.usable,
                w == views(witness@),
                p == F::modulus(),
                r == self.r.value(),
                all == padded(witness_rows(p, r, w), size as int),
                rows == circuit_rows(p, r, w, size as int, last_row_offset as int),
                last_row_offset == size - self.minimum_rows + 1,
                push_rindex_is_zero_chip.config == self.push_rindex_is_zero,
                offset == witness_rows(p, r, w.take(b as int)).len(),
                offset <= usable,
                offset <= all.len(),
                region@ == self.with_rows(old(region)@, rows.take(offset as int)),
                push_rindex_prev == (if offset == 0 {
                    0
                } else {
                    all[offset - 1].push_rindex
                }),
            decreases witness@.len() - b,
        {
            let bytecode = &witness[b];
            let ghost u = bytecode@;
            assert(w[b as int] == u);
            let ghost start = offset as int;
            // Run over all the bytes
            let mut push_rindex: u64 = 0;
            let mut hash_rlc = F::zero();
            let hash_length = F::from_u64(bytecode.bytes.len() as u64);
            let mut k: usize = 0;
            while k < bytecode.rows.len()
                invariant
                    b < witness@.len(),
                    self.fits(region@),
                    region@.usable == usable,
                    usable == old(region)@.usable,
                    w == views(witness@),
                    w[b as int] == u,
                    u == bytecode@,
                    p == F::modulus(),
                    r == self.r.value(),
                    all == padded(witness_rows(p, r, w), size as int),
                    rows == circuit_rows(p, r, w, size as int, last_row_offset as int),
                    last_row_offset == size - self.minimum_rows + 1,
                    push_rindex_is_zero_chip.config == self.push_rindex_is_zero,
                    hash_length.value() == u.bytes.len(),
                    k <= bytecode.rows@.len(),
                    start == witness_rows(p, r, w.take(b as int)).len(),
                    offset == start + k,
                    offset <= usable,
                    offset <= all.len(),
                    region@ == self.with_rows(old(region)@, rows.take(offset as int)),
                    push_rindex == data_left(low_bytes(u.rows), k as int),
                    hash_rlc.value() == combine(p, r, byte_cells(u.rows).take(k as int)),
                    push_rindex_prev == (if offset == 0 {
                        0
                    } else {
                        all[offset - 1].push_rindex
                    }),
                decreases bytecode.rows@.len() - k,
            {
                let row = &bytecode.rows[k];
                proof {
                    lemma_witness_row(p, r, w, b as int, k as int);
                    lemma_data_left_bounded(low_bytes(u.rows), k as int);
                    lemma_low_byte(row.byte.value());
                    let cells = byte_cells(u.rows).take(k + 1);
                    assert(cells.drop_last() =~= byte_cells(u.rows).take(k as int));
                    assert(cells.last() == row.byte.value());
                    assert(u.rows[k as int] == row@);
                    assert(all[offset as int] == bytecode_row(p, r, u, k as int));
                }
                // Track which byte is an opcode and which is push
                // data
                let is_code = push_rindex == 0;
                let byte_push_size = get_push_size(truncate(row.byte.get_lower_128()));
                push_rindex =
                if is_code {
                    byte_push_size
                } else {
                    push_rindex - 1
                };

                // Add the byte to the accumulator
                hash_rlc = hash_rlc.mul(&self.r).add(&row.byte);

                // Set the data for this row
                let ghost before = region@;
                let is_final = row.index.add(&F::one()).equals(&hash_length);
                self.set_row(
                    region,
                    &push_rindex_is_zero_chip,
                    offset,
                    true,
                    offset == last_row_offset,
                    row.hash,
                    row.index,
                    row.is_code,
                    row.byte,
                    push_rindex,
                    hash_rlc,
                    hash_length,
                    F::from_u64(byte_push_size),
                    is_final,
                    false,
                    F::from_u64(push_rindex_prev),
                )?;
                proof {
                    assert(rows[offset as int] == placed_row(
                        p,
                        all,
                        last_row_offset as int,
                        offset as int,
                    ));
                    self.lemma_next_row(old(region)@, rows, offset as int);
                }
                push_rindex_prev = push_rindex;
                offset = offset + 1;
                k = k + 1;
            }
            b = b + 1;
            proof {
                assert(w.take(b as int).drop_last() =~= w.take(b - 1));
            }
        }
        assert(w.take(b as int) =~= w);

        // Padding
        let mut idx: usize = offset;
        while idx < size
            invariant
                w == views(witness@),
                self.fits(region@),
                region@.usable == usable,
                usable == old(region)@.usable,
                p == F::modulus(),
                r == self.r.value(),
                all == padded(witness_rows(p, r, w), size as int),
                rows == circuit_rows(p, r, w, size as int, last_row_offset as int),
                last_row_offset == size - self.minimum_rows + 1,
                push_rindex_is_zero_chip.config == self.push_rindex_is_zero,
                witness_rows(p, r, w).len() <= idx,
                idx <= usable,
                idx <= all.len(),
                region@ == self.with_rows(old(region)@, rows.take(idx as int)),
                push_rindex_prev == (if idx == 0 {
                    0
                } else {
                    all[idx - 1].push_rindex
                }),
            decreases size - idx,
        {
            self.set_row(
                region,
                &push_rindex_is_zero_chip,
                idx,
                idx < size,
                idx == last_row_offset,
                F::zero(),
                F::zero(),
                F::one(),
                F::zero(),
                0,
                F::zero(),
                F::one(),
                F::zero(),
                true,
                true,
                F::from_u64(push_rindex_prev),
            )?;
            proof {
                assert(all[idx as int] == padding_row());
                assert(rows[idx as int] == placed_row(
                    p,
                    all,
                    last_row_offset as int,
                    idx as int,
                ));
                self.lemma_next_row(old(region)@, rows, idx as int);
            }
            push_rindex_prev = 0;
            idx = idx + 1;
        }
        assert(rows.take(idx as int) =~= rows);
        Ok(())
    }

    /// Fills the rows of bytecodes, and rows of padding after them up to `size` rows. What lies
    /// beyond the usable rows is left out.
    pub fn assign(&self, region: &mut Region<F>, size: usize, witness: &[UnrolledBytecode<F>])
        requires
            self.fits(old(region)@),
            self.minimum_rows <= size,
            size - self.minimum_rows < usize::MAX,
        ensures
            self.fits(final(region)@),
            final(region)@.usable == old(region)@.usable,
            final(region)@ == self.assigned(old(region)@, size as int, views(witness@)),
    {
        let _ = self.assign_rows(region, size, witness);
    }

    /// Fills the table of push sizes.
    fn load_push_table(&self, region: &mut Region<F>) -> (result: Result<(), Error>)
        requires
            self.fits(old(region)@),
        ensures
            self.fits(final(region)@),
            final(region)@.usable == old(region)@.usable,
            old(region)@.usable >= 256 ==> result is Ok && final(region)@ == self.with_push_table(
                old(region)@,
                256,
            ),
            old(region)@.usable < 256 ==> result == Err::<(), Error>(
                Error::NotEnoughRowsAvailable,
            ) && final(region)@ == self.with_push_table(old(region)@, old(region)@.usable),
    {
        let mut byte: usize = 0;
        while byte < 256
            invariant
                byte <= 256,
                self.fits(region@),
                region@.usable == old(region)@.usable,
                byte <= region@.usable,
                region@ == self.with_push_table(old(region)@, byte as int),
            decreases 256 - byte,
        {
            let push_size = get_push_size(byte as u8);
            region.assign_fixed(
                self.push_table[0],
                byte,
                F::from_u64(byte as u64),
            )?;
            region.assign_fixed(self.push_table[1], byte, F::from_u64(push_size))?;
            byte = byte + 1;
        }
        Ok(())
    }

    /// Fills the table of hashes.
    fn load_keccak_table(
        &self,
        region: &mut Region<F>,
        bytecodes: &[UnrolledBytecode<F>],
    ) -> (result: Result<(), Error>)
        requires
            self.fits(old(region)@),
        ensures
            self.fits(final(region)@),
            final(region)@.usable == old(region)@.usable,
            bytecodes@.len() <= old(region)@.usable ==> result is Ok && final(region)@
                == self.with_keccak_table(old(region)@, messages(views(bytecodes@))),
            bytecodes@.len() > old(region)@.usable ==> result == Err::<(), Error>(
                Error::NotEnoughRowsAvailable,
            ) && final(region)@ == self.with_keccak_table(
                old(region)@,
                messages(views(bytecodes@)).take(old(region)@.usable),
            ),
    {
        let ghost all = messages(views(bytecodes@));
        let mut offset: usize = 0;
        assert(all.take(0) =~= Seq::<Seq<u8>>::empty());
        while offset < bytecodes.len()
            invariant
                all == messages(views(bytecodes@)),
                offset <= bytecodes@.len(),
                self.fits(region@),
                region@.usable == old(region)@.usable,
                offset <= region@.usable,
                region@ == self.with_keccak_table(old(region)@, all.take(offset as int)),
            decreases bytecodes@.len() - offset,
        {
            let bytes = bytecodes[offset].bytes.clone();
            let hash: F = keccak(bytes.as_slice(), self.r);
            let size = F::from_u64(bytes.len() as u64);
            let ghost message = bytes@;
            let rlc: F = linear_combine(bytes, self.r);
            proof {
                assert(message =~= bytecodes@[offset as int].bytes@);
                assert(all.take(offset + 1).drop_last() =~= all.take(offset as int));
                assert(all.take(offset + 1).last() == message);
            }
            region.assign_advice(self.keccak_table[0], offset, rlc)?;
            region.assign_advice(self.keccak_table[1], offset, size)?;
            region.assign_advice(self.keccak_table[2], offset, hash)?;
            offset = offset + 1;
        }
        assert(all.take(offset as int) =~= all);
        Ok(())
    }

    /// Fills the two tables that the rows are looked up in: of push sizes, and of the hashes of
    /// bytecodes.
    pub fn load(
        &self,
        region: &mut Region<F>,
        bytecodes: &[UnrolledBytecode<F>],
    ) -> (result: Result<(), Error>)
        requires
            self.fits(old(region)@),
        ensures
            self.fits(final(region)@),
            final(region)@.usable == old(region)@.usable,
            final(region)@ == self.loaded(old(region)@, messages(views(bytecodes@))),
            match result {
                Ok(_) => 256 <= old(region)@.usable && bytecodes@.len() <= old(region)@.usable,
                Err(e) => e == Error::NotEnoughRowsAvailable && (old(region)@.usable < 256
                    || bytecodes@.len() > old(region)@.usable),
            },
    {
        // push table: BYTE -> NUM_PUSHED:
        // [0, PUSH1[ -> 0
        // [PUSH1, PUSH32] -> [1..32]
        // ]PUSH32, 256[ -> 0
        self.load_push_table(region)?;

        // keccak table
        self.load_keccak_table(region, bytecodes)
    }
}

} // verus!

//! Which bytecodes, unrolled in whatever way, a circuit accepts.

use crate::completeness::{total_length, unrolled_all};
use crate::config::Config;
use crate::constraint_system::ConstraintSystem;
use crate::expression::Table;
use crate::field::Field;
use crate::hash::{as_numbers, combine, hash_number};
use crate::layout::{bytecode_row, lemma_witness_row, padded, padding_row, placed_row, witness_rows};
use crate::soundness::{public_cells, rows_of, HashedCode};
use crate::unroller::{unrolled, RowNumbers, Unrolled};
use vstd::arithmetic::div_mod::lemma_small_mod;
use vstd::prelude::*;

verus! {

/// The rows of unrolled bytecodes, one after the other.
pub open spec fn all_rows(witness: Seq<Unrolled>) -> Seq<RowNumbers>
    decreases witness.len(),
{
    if witness.len() == 0 {
        Seq::empty()
    } else {
        all_rows(witness.drop_last()) + witness.last().rows
    }
}

/// What the rows of the circuit show of unrolled bytecodes.
proof fn lemma_all_rows(p: int, r: int, witness: Seq<Unrolled>)
    ensures
        witness_rows(p, r, witness).len() == all_rows(witness).len(),
        forall|i: int|
            0 <= i < all_rows(witness).len() ==> {
                let row = #[trigger] witness_rows(p, r, witness)[i];
                &&& public_cells(row) == all_rows(witness)[i]
                &&& row.q_enable == 1
                &&& row.padding == 0
            },
    decreases witness.len(),
{
    if witness.len() > 0 {
        lemma_all_rows(p, r, witness.drop_last());
        let some = witness_rows(p, r, witness.drop_last());
        let all = witness_rows(p, r, witness);
        assert forall|i: int| 0 <= i < all.len() implies {
            let row = #[trigger] all[i];
            &&& public_cells(row) == all_rows(witness)[i]
            &&& row.q_enable == 1
            &&& row.padding == 0
        } by {
            if i < some.len() {
                assert(all[i] == some[i]);
            } else {
                assert(all[i] == bytecode_row(p, r, witness.last(), i - some.len()));
            }
        }
    }
}

/// Whether a bytecode cannot be told from one of `witness`: it has the length and the
/// combination of the bytes of that one, and is said to have its hash.
pub open spec fn stands_for<F: Field>(r: F, witness: Seq<Unrolled>, code: HashedCode) -> bool {
    let (p, r) = (F::modulus(), r.value());
    exists|w: int|
        0 <= w < witness.len() && {
            let bytes = (#[trigger] witness[w]).bytes;
            &&& code.bytes.len() == bytes.len()
            &&& combine(p, r, as_numbers(code.bytes)) == combine(p, r, as_numbers(bytes))
            &&& code.hash == hash_number(p, r, bytes)
        }
}

/// Whether rows are those of bytecodes that cannot be told from those of `witness`.
pub open spec fn genuine<F: Field>(
    r: F,
    witness: Seq<Unrolled>,
    rows: Seq<RowNumbers>,
    codes: Seq<HashedCode>,
) -> bool {
    &&& rows == rows_of(codes)
    &&& forall|c: int|
        0 <= c < codes.len() ==> (#[trigger] codes[c]).bytes.len() > 0 && stands_for(
            r,
            witness,
            codes[c],
        )
}

/// The bytes of bytecodes count up from 0, each from its start.
proof fn lemma_rows_of(codes: Seq<HashedCode>)
    requires
        forall|c: int| 0 <= c < codes.len() ==> (#[trigger] codes[c]).bytes.len() > 0,
    ensures
        codes.len() > 0 ==> rows_of(codes).len() > 0,
        codes.len() > 1 ==> exists|i: int|
            0 < i < rows_of(codes).len() && #[trigger] rows_of(codes)[i].index == 0,
    decreases codes.len(),
{
    if codes.len() > 0 {
        let fewer = codes.drop_last();
        assert forall|c: int| 0 <= c < fewer.len() implies (#[trigger] fewer[c]).bytes.len()
            > 0 by {
            assert(fewer[c] == codes[c]);
        }
        lemma_rows_of(fewer);
        assert(codes[codes.len() - 1].bytes.len() > 0);
        if codes.len() > 1 {
            let i = rows_of(fewer).len() as int;
            assert(rows_of(codes)[i] == unrolled(codes.last().bytes, codes.last().hash).rows[0]);
            assert(rows_of(codes)[i].index == 0);
        }
    }
}

impl<F: Field> Config<F> {
    /// The parts of a laid-out table that do not depend on bytecodes.
    proof fn lemma_laid_out_framed(
        self,
        before: ConstraintSystem<F>,
        meta: ConstraintSystem<F>,
        t: Table,
        size: int,
        witness: Seq<Unrolled>,
    )
        requires
            self.extends(before, meta),
            self.shows_zero(),
            self.laid_out(meta, t, size, witness),
        ensures
            self.framed(t),
            forall|i: int|
                0 <= i < t.usable ==> (#[trigger] self.row(t, i)).padding == if i < all_rows(
                    witness,
                ).len() {
                    0int
                } else {
                    1int
                },
            forall|i: int|
                0 <= i < t.usable && i < all_rows(witness).len() ==> public_cells(
                    #[trigger] self.row(t, i),
                ) == all_rows(witness)[i],
    {
        let (p, r) = (F::modulus(), self.r.value());
        let last = size - self.minimum_rows + 1;
        let some = witness_rows(p, r, witness);
        let all = padded(some, size);
        self.lemma_laid_out(before, meta, t, size, witness);
        lemma_all_rows(p, r, witness);
        assert forall|i: int| 0 <= i < t.usable implies #[trigger] self.row(t, i) == placed_row(
            p,
            all,
            last,
            i,
        ) && (if i < some.len() {
            all[i] == some[i]
        } else {
            all[i] == padding_row()
        }) by {}
    }

    /// A circuit accepts only rows of bytecodes that are unrolled correctly and that cannot be
    /// told from those that its table of hashes was loaded with.
    pub proof fn lemma_accepted(
        self,
        before: ConstraintSystem<F>,
        meta: ConstraintSystem<F>,
        t: Table,
        size: int,
        witness: Seq<Unrolled>,
    )
        requires
            t.usable < F::modulus(),
            self.extends(before, meta),
            self.shows_zero(),
            t.in_field(F::modulus()),
            self.laid_out(meta, t, size, witness),
            meta.satisfied(t),
        ensures
            all_rows(witness).len() <= t.usable ==> exists|codes: Seq<HashedCode>|
                genuine(self.r, witness, all_rows(witness), codes),
            all_rows(witness).len() > t.usable ==> exists|codes: Seq<HashedCode>|
                genuine(self.r, witness, all_rows(witness).take(t.usable), codes),
    {
        let (p, r) = (F::modulus(), self.r.value());
        self.lemma_satisfied(before, meta, t);
        self.lemma_laid_out(before, meta, t, size, witness);
        self.lemma_laid_out_framed(before, meta, t, size, witness);
        self.lemma_sound(t);
        let (codes, n) = choose|codes: Seq<HashedCode>, n: int| self.shows(t, codes, n);
        let total = all_rows(witness).len() as int;
        let m = if total <= t.usable {
            total
        } else {
            t.usable
        };
        assert(n == m) by {
            if n < m {
                assert(self.row(t, n).padding == 0);
            }
            if m < n {
                assert(self.row(t, m).padding == 1);
            }
        }
        let rows = all_rows(witness).take(m);
        assert(total <= t.usable ==> rows =~= all_rows(witness));
        assert(self.public_rows(t, 0, n) =~= rows) by {
            assert forall|i: int| 0 <= i < n implies #[trigger] self.public_rows(t, 0, n)[i]
                == rows[i] by {
                assert(self.public_rows(t, 0, n)[i] == public_cells(self.row(t, 0 + i)));
            }
        }
        assert forall|c: int| 0 <= c < codes.len() implies (#[trigger] codes[c]).bytes.len() > 0
            && stands_for(self.r, witness, codes[c]) by {
            let code = codes[c];
            let entry = seq![
                combine(p, r, as_numbers(code.bytes)),
                code.bytes.len() as int,
                code.hash,
            ];
            let j = choose|j: int| 0 <= j < t.usable && #[trigger] self.keccak_entry(t, j) == entry;
            assert(self.keccak_entry(t, j)[1] == code.bytes.len());
            assert(j < witness.len());
            let row = self.keccak_row(witness[j].bytes);
            assert(row == entry);
            assert(row[0] == entry[0] && row[1] == entry[1] && row[2] == entry[2]);
        }
        assert(genuine(self.r, witness, rows, codes));
    }

    /// A circuit accepts one bytecode whose rows are numbered from 0 on only if in every row the
    /// hash is that of the bytecode, the byte is a byte, and the mark of opcodes is right; and
    /// only if the bytes in the rows have the combination of those of the bytecode.
    pub proof fn lemma_accepted_single(
        self,
        before: ConstraintSystem<F>,
        meta: ConstraintSystem<F>,
        t: Table,
        size: int,
        bytecode: Unrolled,
    )
        requires
            t.usable < F::modulus(),
            self.extends(before, meta),
            self.shows_zero(),
            t.in_field(F::modulus()),
            self.laid_out(meta, t, size, seq![bytecode]),
            meta.satisfied(t),
            0 < bytecode.rows.len() <= t.usable,
            forall|k: int|
                0 <= k < bytecode.rows.len() ==> (#[trigger] bytecode.rows[k]).index == k,
        ensures
            bytecode.bytes.len() == bytecode.rows.len(),
            exists|bytes: Seq<u8>|
                #![trigger as_numbers(bytes)]
                {
                    let (p, r) = (F::modulus(), self.r.value());
                    &&& bytecode.rows == unrolled(
                        bytes,
                        hash_number(p, r, bytecode.bytes),
                    ).rows
                    &&& combine(p, r, as_numbers(bytes)) == combine(
                        p,
                        r,
                        as_numbers(bytecode.bytes),
                    )
                },
    {
        let witness = seq![bytecode];
        self.lemma_accepted(before, meta, t, size, witness);
        assert(witness.drop_last() =~= Seq::<Unrolled>::empty());
        assert(all_rows(witness) =~= bytecode.rows) by {
            assert(all_rows(witness.drop_last()) =~= Seq::<RowNumbers>::empty());
        }
        let codes = choose|codes: Seq<HashedCode>|
            genuine(self.r, witness, all_rows(witness), codes);
        lemma_rows_of(codes);
        if codes.len() > 1 {
            let i = choose|i: int|
                0 < i < rows_of(codes).len() && #[trigger] rows_of(codes)[i].index == 0;
            assert(bytecode.rows[i].index == i);
        }
        assert(codes.len() == 1);
        let code = codes[0];
        assert(codes.drop_last() =~= Seq::<HashedCode>::empty());
        assert(rows_of(codes) =~= unrolled(code.bytes, code.hash).rows) by {
            assert(rows_of(codes.drop_last()) =~= Seq::<RowNumbers>::empty());
        }
        assert(stands_for(self.r, witness, code));
        assert(as_numbers(code.bytes) == as_numbers(code.bytes));
    }

    /// A circuit refuses unrolled bytecodes where its usable rows end within one of them: at the
    /// byte at position `k` of bytecode `c`, which is not its last.
    pub proof fn lemma_incomplete_refused(
        self,
        before: ConstraintSystem<F>,
        meta: ConstraintSystem<F>,
        t: Table,
        size: int,
        codes: Seq<Seq<u8>>,
        c: int,
        k: int,
    )
        requires
            t.usable < F::modulus(),
            self.extends(before, meta),
            self.shows_zero(),
            t.in_field(F::modulus()),
            self.laid_out(
                meta,
                t,
                size,
                unrolled_all(F::modulus(), self.r.value(), codes),
            ),
            0 <= c < codes.len(),
            0 <= k < codes[c].len() - 1,
            total_length(codes.take(c)) + k == t.usable - 1,
        ensures
            !meta.satisfied(t),
    {
        let (p, r) = (F::modulus(), self.r.value());
        let witness = unrolled_all(p, r, codes);
        let i = t.usable - 1;
        let last = size - self.minimum_rows + 1;
        F::lemma_modulus_exceeds_u64();
        self.lemma_laid_out(before, meta, t, size, witness);
        self.lemma_laid_out_framed(before, meta, t, size, witness);
        lemma_witness_row(p, r, witness, c, k);
        assert(witness.take(c) =~= unrolled_all(p, r, codes.take(c)));
        lemma_witness_length(p, r, codes.take(c));
        let some = witness_rows(p, r, witness);
        assert(some[i] == bytecode_row(p, r, witness[c], k));
        assert(padded(some, size)[i] == some[i]);
        assert(self.row(t, i) == placed_row(p, padded(some, size), last, i));
        lemma_small_mod((k + 1) as nat, p as nat);
        assert(self.row(t, i).is_final == 0);
        assert(self.row(t, i).padding == 0);
        if meta.satisfied(t) {
            self.lemma_satisfied(before, meta, t);
            self.lemma_usable_row(t, i);
        }
    }
}

/// The number of rows of unrolled bytecodes.
proof fn lemma_witness_length(p: int, r: int, codes: Seq<Seq<u8>>)
    ensures
        witness_rows(p, r, unrolled_all(p, r, codes)).len() == total_length(codes),
    decreases codes.len(),
{
    if codes.len() > 0 {
        lemma_witness_length(p, r, codes.drop_last());
        assert(unrolled_all(p, r, codes).drop_last() =~= unrolled_all(p, r, codes.drop_last()));
    }
}

} // verus!

//! All gates and lookups hold in a circuit that unrolled bytecodes were laid out in.

use crate::config::Config;
use crate::constraint_system::ConstraintSystem;
use crate::expression::Table;
use crate::field::{
    add_mod, inverse_or_zero, is_inverse, lemma_inverse_exists, mul_mod, sub_mod, Field,
};
use crate::hash::{as_numbers, combine, hash_number};
use crate::layout::{
    bytecode_rows, byte_cells, low_bytes, padded, padding_row, placed_row, witness_rows,
};
use crate::opcode::{data_left, is_code, lemma_data_left_bounded, push_size};
use crate::rows::{
    continues, ending, is_bit, keccak_inputs, lemma_row_holds, lemma_switched, prev_in_use,
    push_inputs, row_follows, starts, CircuitRow,
};
use crate::unroller::{unrolled, Unrolled};
use vstd::arithmetic::div_mod::lemma_small_mod;
use vstd::prelude::*;

verus! {

/// Bytecodes, unrolled with their hashes.
pub open spec fn unrolled_all(p: int, r: int, codes: Seq<Seq<u8>>) -> Seq<Unrolled> {
    codes.map_values(|bytes: Seq<u8>| unrolled(bytes, hash_number(p, r, bytes)))
}

/// The number of bytes of bytecodes.
pub open spec fn total_length(codes: Seq<Seq<u8>>) -> int
    decreases codes.len(),
{
    if codes.len() == 0 {
        0
    } else {
        total_length(codes.drop_last()) + codes.last().len()
    }
}

/// Whether row `i` of rows may stand after the row before it.
spec fn linked(p: int, r: int, rows: Seq<CircuitRow>, i: int) -> bool {
    let cur = rows[i];
    let prev = rows[i - 1];
    &&& cur.q_enable == 1
    &&& is_bit(cur.is_final)
    &&& is_bit(cur.padding)
    &&& if i == 0 || prev.is_final == 1 {
        starts(cur)
    } else {
        continues(p, r, cur, prev)
    }
    &&& cur.push_rindex == if cur.is_code == 1 {
        cur.byte_push_size
    } else {
        sub_mod(p, prev.push_rindex, 1)
    }
    &&& cur.is_final == 1 && cur.padding == 0 ==> add_mod(p, cur.index, 1) == cur.hash_length
    &&& i > 0 && prev.padding == 1 ==> cur.padding == 1
    &&& 0 <= cur.push_rindex <= 32
    &&& 0 <= cur.byte < 256
    &&& cur.byte_push_size == push_size(cur.byte as u8)
}

/// Whether rows may stand one after the other, from the first row on.
spec fn all_linked(p: int, r: int, rows: Seq<CircuitRow>) -> bool {
    forall|i: int| 0 <= i < rows.len() ==> #[trigger] linked(p, r, rows, i)
}

/// Rows may follow rows that end with a last byte.
proof fn lemma_linked_add(p: int, r: int, a: Seq<CircuitRow>, b: Seq<CircuitRow>)
    requires
        all_linked(p, r, a),
        all_linked(p, r, b),
        a.len() > 0 && b.len() > 0 ==> a.last().is_final == 1 && (a.last().padding == 0
            || b[0].padding == 1),
    ensures
        all_linked(p, r, a + b),
{
    let rows = a + b;
    assert forall|i: int| 0 <= i < rows.len() implies #[trigger] linked(p, r, rows, i) by {
        if i < a.len() {
            assert(linked(p, r, a, i));
        } else {
            assert(linked(p, r, b, i - a.len()));
        }
    }
}

/// The rows of an unrolled bytecode may stand one after the other.
proof fn lemma_bytecode_linked(p: int, r: int, bytes: Seq<u8>, hash: int)
    requires
        u64::MAX < p,
        bytes.len() < p,
    ensures
        ({
            let rows = bytecode_rows(p, r, unrolled(bytes, hash));
            &&& all_linked(p, r, rows)
            &&& forall|k: int|
                0 <= k < rows.len() ==> {
                    &&& (#[trigger] rows[k]).padding == 0
                    &&& rows[k].is_final == if k == bytes.len() - 1 {
                        1int
                    } else {
                        0int
                    }
                }
            &&& rows.len() > 0 ==> {
                &&& rows.last().hash_rlc == combine(p, r, as_numbers(bytes))
                &&& rows.last().hash_length == bytes.len()
                &&& rows.last().hash == hash
            }
        }),
{
    let u = unrolled(bytes, hash);
    let rows = bytecode_rows(p, r, u);
    let n = bytes.len() as int;
    assert forall|k: int| 0 <= k < n implies #[trigger] low_bytes(u.rows)[k] == bytes[k] by {
        lemma_small_mod(bytes[k] as nat, 256);
    }
    assert(low_bytes(u.rows) =~= bytes);
    assert(byte_cells(u.rows) =~= as_numbers(bytes));
    assert(as_numbers(bytes).take(n) =~= as_numbers(bytes));
    assert forall|k: int| 0 <= k < n implies (#[trigger] rows[k]).is_final == if k == n - 1 {
        1int
    } else {
        0int
    } by {
        lemma_small_mod((k + 1) as nat, p as nat);
    }
    assert forall|k: int| 0 <= k < n implies #[trigger] linked(p, r, rows, k) by {
        let cur = rows[k];
        let prev = rows[k - 1];
        lemma_data_left_bounded(bytes, k);
        lemma_data_left_bounded(bytes, k + 1);
        lemma_small_mod((k + 1) as nat, p as nat);
        lemma_small_mod(bytes[k] as nat, 256);
        let cells = as_numbers(bytes).take(k + 1);
        assert(cells.drop_last() =~= as_numbers(bytes).take(k));
        assert(cells.last() == bytes[k] as int);
        if k == 0 {
            assert(combine(p, r, as_numbers(bytes).take(0)) == 0);
            lemma_switched(p, 0, 0);
            assert(mul_mod(p, 0, r) == 0) by {
                assert(0 * r == 0);
                lemma_small_mod(0, p as nat);
            }
            lemma_small_mod(bytes[0] as nat, p as nat);
        } else {
            lemma_small_mod(k as nat, p as nat);
            assert(prev.push_rindex == data_left(bytes, k));
            if data_left(bytes, k) > 0 {
                lemma_small_mod((prev.push_rindex - 1) as nat, p as nat);
            }
        }
    }
}

/// Whether the row of a last byte shows the hash of one of the bytecodes.
spec fn row_listed(p: int, r: int, codes: Seq<Seq<u8>>, row: CircuitRow) -> bool {
    row.is_final == 1 && row.padding == 0 ==> exists|c: int|
        0 <= c < codes.len() && {
            let bytes = #[trigger] codes[c];
            &&& row.hash_rlc == combine(p, r, as_numbers(bytes))
            &&& row.hash_length == bytes.len()
            &&& row.hash == hash_number(p, r, bytes)
        }
}

/// The rows of unrolled bytecodes may stand one after the other.
proof fn lemma_witness_linked(p: int, r: int, codes: Seq<Seq<u8>>)
    requires
        u64::MAX < p,
        total_length(codes) < p,
    ensures
        ({
            let rows = witness_rows(p, r, unrolled_all(p, r, codes));
            &&& rows.len() == total_length(codes)
            &&& all_linked(p, r, rows)
            &&& rows.len() > 0 ==> rows.last().is_final == 1
            &&& forall|i: int|
                0 <= i < rows.len() ==> (#[trigger] rows[i]).padding == 0 && row_listed(
                    p,
                    r,
                    codes,
                    rows[i],
                )
            &&& (forall|c: int| 0 <= c < codes.len() ==> (#[trigger] codes[c]).len() == 1) ==> {
                &&& rows.len() == codes.len()
                &&& forall|i: int| 0 <= i < rows.len() ==> (#[trigger] rows[i]).is_final == 1
            }
        }),
    decreases codes.len(),
{
    if codes.len() > 0 {
        let fewer = codes.drop_last();
        let bytes = codes.last();
        let hash = hash_number(p, r, bytes);
        lemma_total_length(fewer);
        lemma_witness_linked(p, r, fewer);
        lemma_bytecode_linked(p, r, bytes, hash);
        assert(unrolled_all(p, r, codes).drop_last() =~= unrolled_all(p, r, fewer));
        let a = witness_rows(p, r, unrolled_all(p, r, fewer));
        let b = bytecode_rows(p, r, unrolled(bytes, hash));
        let rows = witness_rows(p, r, unrolled_all(p, r, codes));
        assert(rows == a + b);
        lemma_linked_add(p, r, a, b);
        assert forall|i: int| 0 <= i < rows.len() implies (#[trigger] rows[i]).padding == 0
            && row_listed(p, r, codes, rows[i]) by {
            if i < a.len() {
                assert(rows[i] == a[i]);
                assert(row_listed(p, r, fewer, a[i]));
                if a[i].is_final == 1 && a[i].padding == 0 {
                    let c = choose|c: int|
                        0 <= c < fewer.len() && {
                            let bytes = #[trigger] fewer[c];
                            &&& a[i].hash_rlc == combine(p, r, as_numbers(bytes))
                            &&& a[i].hash_length == bytes.len()
                            &&& a[i].hash == hash_number(p, r, bytes)
                        };
                    assert(codes[c] == fewer[c]);
                }
            } else {
                assert(rows[i] == b[i - a.len()]);
                assert(codes[codes.len() - 1] == bytes);
            }
        }
        if forall|c: int| 0 <= c < codes.len() ==> (#[trigger] codes[c]).len() == 1 {
            assert forall|c: int| 0 <= c < fewer.len() implies (#[trigger] fewer[c]).len() == 1 by {
                assert(fewer[c] == codes[c]);
            }
            assert(codes[codes.len() - 1].len() == 1);
            assert forall|i: int| 0 <= i < rows.len() implies (#[trigger] rows[i]).is_final
                == 1 by {
                if i < a.len() {
                    assert(rows[i] == a[i]);
                } else {
                    assert(rows[i] == b[i - a.len()]);
                }
            }
        }
    }
}

/// The rows of the first bytecodes are the first rows.
proof fn lemma_witness_prefix(p: int, r: int, witness: Seq<Unrolled>, n: int)
    requires
        0 <= n <= witness.len(),
    ensures
        ({
            let (some, all) = (
                witness_rows(p, r, witness.take(n)),
                witness_rows(p, r, witness),
            );
            &&& some.len() <= all.len()
            &&& forall|i: int| 0 <= i < some.len() ==> #[trigger] all[i] == some[i]
        }),
    decreases witness.len(),
{
    if n == witness.len() {
        assert(witness.take(n) =~= witness);
    } else {
        let fewer = witness.drop_last();
        lemma_witness_prefix(p, r, fewer, n);
        assert(fewer.take(n) =~= witness.take(n));
        let (some, most) = (witness_rows(p, r, witness.take(n)), witness_rows(p, r, fewer));
        let all = witness_rows(p, r, witness);
        assert forall|i: int| 0 <= i < some.len() implies #[trigger] all[i] == some[i] by {
            assert(all[i] == most[i]);
        }
    }
}

/// Bytecodes of one byte have as many bytes as they are.
proof fn lemma_one_byte_each(codes: Seq<Seq<u8>>)
    requires
        forall|c: int| 0 <= c < codes.len() ==> (#[trigger] codes[c]).len() == 1,
    ensures
        total_length(codes) == codes.len(),
    decreases codes.len(),
{
    if codes.len() > 0 {
        let fewer = codes.drop_last();
        assert forall|c: int| 0 <= c < fewer.len() implies (#[trigger] fewer[c]).len() == 1 by {
            assert(fewer[c] == codes[c]);
        }
        lemma_one_byte_each(fewer);
        assert(codes[codes.len() - 1].len() == 1);
    }
}

/// A number of bytes is not negative.
proof fn lemma_total_length(codes: Seq<Seq<u8>>)
    ensures
        total_length(codes) >= 0,
    decreases codes.len(),
{
    if codes.len() > 0 {
        lemma_total_length(codes.drop_last());
    }
}

/// Rows of padding may follow.
proof fn lemma_padded_linked(p: int, r: int, rows: Seq<CircuitRow>, size: int)
    requires
        u64::MAX < p,
        all_linked(p, r, rows),
        rows.len() > 0 ==> rows.last().is_final == 1,
    ensures
        all_linked(p, r, padded(rows, size)),
{
    if rows.len() < size {
        let b = Seq::new((size - rows.len()) as nat, |k: int| padding_row());
        assert forall|k: int| 0 <= k < b.len() implies #[trigger] linked(p, r, b, k) by {
            lemma_small_mod(1, p as nat);
        }
        lemma_linked_add(p, r, rows, b);
    }
}

impl<F: Field> Config<F> {
    /// A row of the layout follows the one before it.
    proof fn lemma_placed(
        self,
        rows: Seq<CircuitRow>,
        last: int,
        i: int,
        cur: CircuitRow,
        prev: CircuitRow,
    )
        requires
            all_linked(F::modulus(), self.r.value(), rows),
            0 <= i < rows.len(),
            cur == placed_row(F::modulus(), rows, last, i),
            i > 0 ==> prev == placed_row(F::modulus(), rows, last, i - 1),
            i == last ==> rows[i].padding == 1 || rows[i].is_final == 1,
        ensures
            row_follows(F::modulus(), self.r.value(), cur, prev),
            prev_in_use(cur, prev),
    {
        let (p, r) = (F::modulus(), self.r.value());
        F::lemma_modulus_prime();
        F::lemma_modulus_exceeds_u64();
        assert(linked(p, r, rows, i));
        if i > 0 {
            assert(linked(p, r, rows, i - 1));
            let x = rows[i - 1].push_rindex;
            if x != 0 {
                let y = lemma_inverse_exists(p, x);
                assert(exists|y: int| 0 <= y < p && is_inverse(p, x, y));
                assert(is_inverse(p, x, inverse_or_zero(p, x)));
            }
        }
    }

    /// A byte is in the table of push sizes.
    proof fn lemma_push_found(self, t: Table, i: int)
        requires
            self.framed(t),
            256 <= t.usable,
            0 <= i < t.usable,
            0 <= self.row(t, i).byte < 256,
            self.row(t, i).byte_push_size == push_size(self.row(t, i).byte as u8),
        ensures
            self.push_found(t, i),
    {
        F::lemma_modulus_exceeds_u64();
        let p = F::modulus();
        let row = self.row(t, i);
        lemma_switched(p, 1, row.byte);
        lemma_switched(p, 1, row.byte_push_size);
        assert(push_inputs(p, row) =~= self.push_entry(t, row.byte));
    }

    /// In a circuit that unrolled bytecodes were laid out in, all gates and lookups hold, whatever
    /// the other cells are, where the usable rows have room for all bytecodes or end with the last
    /// byte of one. It takes a row of the table of hashes that no bytecode fills, unless all
    /// bytecodes have one byte.
    pub proof fn lemma_complete(
        self,
        before: ConstraintSystem<F>,
        meta: ConstraintSystem<F>,
        t: Table,
        size: int,
        codes: Seq<Seq<u8>>,
    )
        requires
            t.usable < F::modulus(),
            self.extends(before, meta),
            self.shows_zero(),
            t.in_field(F::modulus()),
            self.laid_out(
                meta,
                t,
                size,
                unrolled_all(F::modulus(), self.r.value(), codes),
            ),
            total_length(codes) <= t.usable || exists|n: int|
                0 <= n <= codes.len() && #[trigger] total_length(codes.take(n)) == t.usable,
            codes.len() < t.usable || forall|c: int|
                0 <= c < codes.len() ==> (#[trigger] codes[c]).len() == 1,
        ensures
            self.holds(t),
            before.satisfied(t) ==> meta.satisfied(t),
    {
        let (p, r) = (F::modulus(), self.r.value());
        F::lemma_modulus_prime();
        F::lemma_modulus_exceeds_u64();
        let witness = unrolled_all(p, r, codes);
        let last = size - self.minimum_rows + 1;
        self.lemma_laid_out(before, meta, t, size, witness);
        // The bytecodes that the usable rows show.
        let n = if total_length(codes) <= t.usable {
            codes.len() as int
        } else {
            choose|n: int|
                0 <= n <= codes.len() && #[trigger] total_length(codes.take(n)) == t.usable
        };
        let shown = codes.take(n);
        assert(n == codes.len() ==> shown =~= codes);
        let some = witness_rows(p, r, unrolled_all(p, r, shown));
        let all = padded(some, size);
        lemma_total_length(shown);
        lemma_witness_linked(p, r, shown);
        lemma_padded_linked(p, r, some, size);
        lemma_witness_prefix(p, r, witness, n);
        assert(witness.take(n) =~= unrolled_all(p, r, shown));
        assert forall|i: int| 0 <= i < t.usable implies #[trigger] self.row(t, i) == placed_row(
            p,
            all,
            last,
            i,
        ) && linked(p, r, all, i) by {
            let whole = padded(witness_rows(p, r, witness), size);
            assert forall|j: int| 0 <= j < t.usable implies #[trigger] whole[j] == all[j] by {}
            assert(self.row(t, i) == placed_row(p, whole, last, i));
            assert(i > 0 ==> whole[i - 1] == all[i - 1]);
        }
        assert(self.framed(t)) by {
            assert forall|i: int| 0 <= i < t.usable implies {
                let row = #[trigger] self.row(t, i);
                &&& row.q_enable == 1
                &&& row.q_first == if i == 0 {
                    1int
                } else {
                    0int
                }
                &&& row.q_last == if i == t.usable - 1 {
                    1int
                } else {
                    0int
                }
            } by {
                assert(linked(p, r, all, i));
            }
        }
        assert forall|i: int| 0 <= i < t.rows implies #[trigger] self.row_valid(t, i) by {
            let (cur, prev) = (self.row(t, i), self.row(t, i - 1));
            if i < t.usable {
                if i == last {
                    if i < some.len() {
                        assert(all[i] == some.last());
                    } else {
                        assert(all[i] == padding_row());
                    }
                }
                if i > 0 {
                    assert(prev == placed_row(p, all, last, i - 1));
                }
                self.lemma_placed(all, last, i, cur, prev);
            }
            lemma_row_holds(p, r, cur, prev);
        }
        assert forall|i: int| 0 <= i < t.usable implies #[trigger] self.push_found(t, i) by {
            assert(self.row(t, i) == placed_row(p, all, last, i));
            self.lemma_push_found(t, i);
        }
        assert forall|i: int| 0 <= i < t.usable implies #[trigger] self.keccak_found(t, i) by {
            let row = self.row(t, i);
            assert(row == placed_row(p, all, last, i));
            assert(linked(p, r, all, i));
            lemma_switched(p, row.padding, 0);
            lemma_switched(p, row.is_final, 1 - row.padding);
            let s = ending(p, row);
            lemma_switched(p, s, row.hash_rlc);
            lemma_switched(p, s, row.hash_length);
            lemma_switched(p, s, row.hash);
            if row.is_final == 1 && row.padding == 0 {
                assert(i < some.len());
                assert(row_listed(p, r, shown, some[i]));
                let c = choose|c: int|
                    0 <= c < shown.len() && {
                        let bytes = #[trigger] shown[c];
                        &&& some[i].hash_rlc == combine(p, r, as_numbers(bytes))
                        &&& some[i].hash_length == bytes.len()
                        &&& some[i].hash == hash_number(p, r, bytes)
                    };
                assert(witness[c].bytes == codes[c]);
                assert(keccak_inputs(p, row) =~= self.keccak_entry(t, c));
            } else {
                if codes.len() >= t.usable {
                    lemma_one_byte_each(codes);
                    assert(some[i].is_final == 1 && some[i].padding == 0);
                    assert(all[i] == some[i]);
                }
                assert(keccak_inputs(p, row) =~= self.keccak_entry(t, codes.len() as int));
            }
        }
        self.lemma_satisfied(before, meta, t);
    }
}

} // verus!

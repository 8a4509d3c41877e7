//! What a table holds in which all gates and lookups of the circuit hold.

use crate::config::Config;
use crate::expression::Table;
use crate::field::{mul_mod, Field};
use crate::hash::{as_numbers, combine};
use crate::opcode::{data_left, is_code, lemma_data_left_bounded, lemma_data_left_prefix, push_size};
use crate::rows::{
    continues, ending, is_bit, keccak_inputs, lemma_row_holds, lemma_switched, push_inputs,
    row_follows, starts, CircuitRow,
};
use crate::unroller::{unrolled, unrolled_row, RowNumbers};
use vstd::arithmetic::div_mod::lemma_small_mod;
use vstd::prelude::*;

verus! {

/// A bytecode and what is said to be its hash.
pub struct HashedCode {
    pub bytes: Seq<u8>,
    pub hash: int,
}

/// The rows of bytecodes, one after the other.
pub open spec fn rows_of(codes: Seq<HashedCode>) -> Seq<RowNumbers>
    decreases codes.len(),
{
    if codes.len() == 0 {
        Seq::empty()
    } else {
        rows_of(codes.drop_last()) + unrolled(codes.last().bytes, codes.last().hash).rows
    }
}

/// The public cells of a row.
pub open spec fn public_cells(row: CircuitRow) -> RowNumbers {
    RowNumbers { hash: row.hash, index: row.index, is_code: row.is_code, byte: row.byte }
}

impl<F: Field> Config<F> {
    /// The public cells of the rows from `start` to `end`.
    pub open spec fn public_rows(self, t: Table, start: int, end: int) -> Seq<RowNumbers> {
        Seq::new((end - start) as nat, |k: int| public_cells(self.row(t, start + k)))
    }

    /// Whether the parts of a table that do not depend on bytecodes are as the layout has them:
    /// all usable rows are enabled, the first and the last of them are marked, and the table of
    /// push sizes holds the push size of every byte, and nothing else.
    pub open spec fn framed(self, t: Table) -> bool {
        &&& 0 < t.usable <= t.rows
        &&& forall|i: int|
            0 <= i < t.usable ==> {
                let row = #[trigger] self.row(t, i);
                &&& row.q_enable == 1
                &&& row.q_first == if i == 0 {
                    1int
                } else {
                    0int
                }
                &&& row.q_last == if i == t.usable - 1 {
                    1int
                } else {
                    0int
                }
            }
        &&& forall|j: int|
            0 <= j < t.usable ==> #[trigger] self.push_entry(t, j) == if j < 256 {
                seq![j, push_size(j as u8)]
            } else {
                seq![0int, 0int]
            }
    }

    /// Whether a bytecode, with its length and its hash, is in the table of hashes.
    pub open spec fn listed(self, t: Table, code: HashedCode) -> bool {
        exists|j: int|
            0 <= j < t.usable && #[trigger] self.keccak_entry(t, j) == seq![
                combine(F::modulus(), self.r.value(), as_numbers(code.bytes)),
                code.bytes.len() as int,
                code.hash,
            ]
    }

    /// Whether the first `n` rows are those of bytecodes in the table of hashes, one after the
    /// other, and the other usable rows are padding.
    pub open spec fn shows(self, t: Table, codes: Seq<HashedCode>, n: int) -> bool {
        &&& 0 <= n <= t.usable
        &&& self.public_rows(t, 0, n) == rows_of(codes)
        &&& forall|c: int|
            0 <= c < codes.len() ==> (#[trigger] codes[c]).bytes.len() > 0 && self.listed(
                t,
                codes[c],
            )
        &&& forall|i: int|
            0 <= i < t.usable ==> (#[trigger] self.row(t, i)).padding == if i < n {
                0int
            } else {
                1int
            }
    }

    /// Whether the rows from `start` on hold the bytes of one bytecode, the last of which may be
    /// yet to come.
    spec fn holds_part(self, t: Table, start: int, part: Seq<u8>) -> bool {
        forall|k: int|
            0 <= k < part.len() ==> {
                let row = #[trigger] self.row(t, start + k);
                &&& public_cells(row) == unrolled_row(part, self.row(t, start).hash, k)
                &&& row.push_rindex == data_left(part, k + 1)
                &&& row.hash_rlc == combine(
                    F::modulus(),
                    self.r.value(),
                    as_numbers(part.take(k + 1)),
                )
                &&& row.hash_length == self.row(t, start).hash_length
            }
    }

    /// What the first `i` rows hold, when none of them is padding.
    spec fn shows_prefix(self, t: Table, i: int, codes: Seq<HashedCode>, part: Seq<u8>) -> bool {
        let start = i - part.len();
        &&& 0 <= start
        &&& self.public_rows(t, 0, start) == rows_of(codes)
        &&& forall|c: int|
            0 <= c < codes.len() ==> (#[trigger] codes[c]).bytes.len() > 0 && self.listed(
                t,
                codes[c],
            )
        &&& self.holds_part(t, start, part)
        &&& part.len() == 0 <==> i == 0 || self.row(t, i - 1).is_final == 1
    }

    /// What its gates mean in a usable row.
    pub(crate) proof fn lemma_usable_row(self, t: Table, i: int)
        requires
            self.framed(t),
            t.in_field(F::modulus()),
            self.holds(t),
            0 <= i < t.usable,
        ensures
            row_follows(F::modulus(), self.r.value(), self.row(t, i), self.row(t, i - 1)),
            is_bit(self.row(t, i).is_final),
            is_bit(self.row(t, i).padding),
        decreases i,
    {
        F::lemma_modulus_prime();
        F::lemma_modulus_exceeds_u64();
        let (cur, prev) = (self.row(t, i), self.row(t, i - 1));
        if i > 0 {
            self.lemma_usable_row(t, i - 1);
        }
        assert(self.row_valid(t, i));
        lemma_row_holds(F::modulus(), self.r.value(), cur, prev);
    }

    /// The byte of a usable row, and its push size.
    proof fn lemma_byte(self, t: Table, i: int)
        requires
            self.framed(t),
            t.in_field(F::modulus()),
            self.holds(t),
            0 <= i < t.usable,
        ensures
            0 <= self.row(t, i).byte < 256,
            self.row(t, i).byte_push_size == push_size(self.row(t, i).byte as u8),
    {
        F::lemma_modulus_exceeds_u64();
        let p = F::modulus();
        let row = self.row(t, i);
        assert(self.push_found(t, i));
        let j = choose|j: int|
            0 <= j < t.usable && push_inputs(p, row) == #[trigger] self.push_entry(t, j);
        lemma_small_mod(row.byte as nat, p as nat);
        lemma_small_mod(row.byte_push_size as nat, p as nat);
        assert(push_inputs(p, row)[0] == row.byte);
        assert(push_inputs(p, row)[1] == row.byte_push_size);
    }

    /// The hash of the row of a last byte is in the table of hashes.
    proof fn lemma_hash_found(self, t: Table, i: int)
        requires
            t.in_field(F::modulus()),
            self.holds(t),
            0 <= i < t.usable,
            self.row(t, i).is_final == 1,
            self.row(t, i).padding == 0,
        ensures
            exists|j: int|
                0 <= j < t.usable && #[trigger] self.keccak_entry(t, j) == seq![
                    self.row(t, i).hash_rlc,
                    self.row(t, i).hash_length,
                    self.row(t, i).hash,
                ],
    {
        F::lemma_modulus_exceeds_u64();
        let p = F::modulus();
        let row = self.row(t, i);
        assert(self.keccak_found(t, i));
        let j = choose|j: int|
            0 <= j < t.usable && keccak_inputs(p, row) == #[trigger] self.keccak_entry(t, j);
        lemma_small_mod(1, p as nat);
        assert(ending(p, row) == 1);
        lemma_switched(p, 1, row.hash_rlc);
        lemma_switched(p, 1, row.hash_length);
        lemma_switched(p, 1, row.hash);
        assert(keccak_inputs(p, row) =~= seq![row.hash_rlc, row.hash_length, row.hash]);
    }

    /// One more byte of a bytecode.
    proof fn lemma_one_more_byte(self, t: Table, start: int, part: Seq<u8>, byte: u8)
        requires
            self.framed(t),
            t.in_field(F::modulus()),
            self.holds(t),
            0 <= start,
            start + part.len() < t.usable,
            t.usable < F::modulus(),
            self.holds_part(t, start, part),
            byte == self.row(t, start + part.len()).byte,
            part.len() == 0 <==> start + part.len() == 0 || self.row(
                t,
                start + part.len() - 1,
            ).is_final == 1,
        ensures
            self.holds_part(t, start, part.push(byte)),
    {
        F::lemma_modulus_exceeds_u64();
        let (p, r) = (F::modulus(), self.r.value());
        let n = part.len() as int;
        let more = part.push(byte);
        let (cur, prev) = (self.row(t, start + n), self.row(t, start + n - 1));
        self.lemma_usable_row(t, start + n);
        self.lemma_byte(t, start + n);
        lemma_data_left_prefix(part, more, n);
        lemma_data_left_bounded(more, n);
        assert(as_numbers(more.take(n + 1)).drop_last() =~= as_numbers(part.take(n)));
        assert(as_numbers(more.take(n + 1)).last() == byte as int);
        assert(more.take(n + 1) =~= more);
        if n == 0 {
            assert(starts(cur));
            assert(as_numbers(part.take(0)) =~= Seq::<int>::empty());
            lemma_small_mod(0, p as nat);
            lemma_small_mod(byte as nat, p as nat);
            assert(combine(p, r, as_numbers(more)) == byte) by {
                assert(combine(p, r, Seq::<int>::empty()) == 0);
                assert(mul_mod(p, 0, r) == 0);
            }
        } else {
            assert(self.row(t, start + (n - 1)) == prev);
            if start + n > 0 {
                self.lemma_usable_row(t, start + n - 1);
            }
            assert(continues(p, r, cur, prev));
            lemma_small_mod(n as nat, p as nat);
            assert(cur.index == n);
            assert(prev.hash_rlc == combine(p, r, as_numbers(part.take(n))));
            if data_left(more, n) > 0 {
                lemma_small_mod((prev.push_rindex - 1) as nat, p as nat);
            }
        }
        assert(is_code(more, n) <==> cur.is_code == 1);
        assert forall|k: int| 0 <= k < more.len() implies {
            let row = #[trigger] self.row(t, start + k);
            &&& public_cells(row) == unrolled_row(more, self.row(t, start).hash, k)
            &&& row.push_rindex == data_left(more, k + 1)
            &&& row.hash_rlc == combine(p, r, as_numbers(more.take(k + 1)))
            &&& row.hash_length == self.row(t, start).hash_length
        } by {
            if k < n {
                lemma_data_left_prefix(part, more, k);
                lemma_data_left_prefix(part, more, k + 1);
                assert(more.take(k + 1) =~= part.take(k + 1));
            }
        }
    }

    /// What the first `i` rows hold, when none of them is padding.
    proof fn lemma_prefix(self, t: Table, i: int) -> (shown: (Seq<HashedCode>, Seq<u8>))
        requires
            self.framed(t),
            t.in_field(F::modulus()),
            self.holds(t),
            t.usable < F::modulus(),
            0 <= i <= t.usable,
            forall|k: int| 0 <= k < i ==> (#[trigger] self.row(t, k)).padding == 0,
        ensures
            self.shows_prefix(t, i, shown.0, shown.1),
        decreases i,
    {
        if i == 0 {
            let none = Seq::<HashedCode>::empty();
            assert(self.public_rows(t, 0, 0) =~= rows_of(none));
            (none, Seq::empty())
        } else {
            let (codes, part) = self.lemma_prefix(t, i - 1);
            let start = i - 1 - part.len();
            let row = self.row(t, i - 1);
            self.lemma_byte(t, i - 1);
            self.lemma_usable_row(t, i - 1);
            let byte = row.byte as u8;
            let more = part.push(byte);
            self.lemma_one_more_byte(t, start, part, byte);
            assert(self.row(t, start + part.len()) == row);
            if row.is_final == 1 {
                F::lemma_modulus_exceeds_u64();
                self.lemma_hash_found(t, i - 1);
                let code = HashedCode { bytes: more, hash: row.hash };
                let n = part.len() as int;
                assert(more.take(n + 1) =~= more);
                lemma_small_mod((n + 1) as nat, F::modulus() as nat);
                assert(row.hash_length == more.len());
                assert(self.listed(t, code));
                let all = codes.push(code);
                assert(all.drop_last() =~= codes);
                assert(self.public_rows(t, 0, i) =~= self.public_rows(t, 0, start) + unrolled(
                    more,
                    row.hash,
                ).rows) by {
                    assert forall|k: int| 0 <= k < i implies #[trigger] self.public_rows(t, 0, i)[k]
                        == (self.public_rows(t, 0, start) + unrolled(more, row.hash).rows)[k] by {
                        if k >= start {
                            assert(self.row(t, start + (k - start)) == self.row(t, k));
                            assert(self.row(t, start + n) == row);
                        }
                    }
                }
                (all, Seq::empty())
            } else {
                (codes, more)
            }
        }
    }

    /// Once a row is padding, the rows after it are.
    proof fn lemma_padding_stays(self, t: Table, i: int, k: int)
        requires
            self.framed(t),
            t.in_field(F::modulus()),
            self.holds(t),
            0 <= i <= k < t.usable,
            self.row(t, i).padding == 1,
        ensures
            self.row(t, k).padding == 1,
        decreases k,
    {
        if i < k {
            self.lemma_padding_stays(t, i, k - 1);
            self.lemma_usable_row(t, k);
        }
    }

    /// The number of rows before the padding, among the first `i`.
    proof fn lemma_padding_starts(self, t: Table, i: int) -> (n: int)
        requires
            self.framed(t),
            t.in_field(F::modulus()),
            self.holds(t),
            0 <= i <= t.usable,
        ensures
            0 <= n <= i,
            forall|k: int|
                0 <= k < i ==> (#[trigger] self.row(t, k)).padding == if k < n {
                    0int
                } else {
                    1int
                },
        decreases i,
    {
        if i == 0 {
            0
        } else {
            let n = self.lemma_padding_starts(t, i - 1);
            self.lemma_usable_row(t, i - 1);
            if n < i - 1 {
                assert(self.row(t, n).padding == 1);
                self.lemma_padding_stays(t, n, i - 1);
                n
            } else if self.row(t, i - 1).padding == 0 {
                i
            } else {
                n
            }
        }
    }

    /// In a table in which all gates and lookups hold, the rows up to the padding are those of
    /// bytecodes, one after the other, each unrolled with the right indices and marks of opcodes,
    /// and with a hash that the table of hashes has for its length and the combination of its
    /// bytes.
    pub proof fn lemma_sound(self, t: Table)
        requires
            t.usable < F::modulus(),
            self.framed(t),
            t.in_field(F::modulus()),
            self.holds(t),
        ensures
            exists|codes: Seq<HashedCode>, n: int| self.shows(t, codes, n),
    {
        let n = self.lemma_padding_starts(t, t.usable);
        let (codes, part) = self.lemma_prefix(t, n);
        if n > 0 {
            self.lemma_usable_row(t, n - 1);
            let row = self.row(t, n - 1);
            assert(row.padding == 0);
            if n < t.usable {
                self.lemma_usable_row(t, n);
                assert(self.row(t, n).padding == 1);
            }
            assert(row.is_final == 1);
        }
        assert(part.len() == 0);
        assert(self.shows(t, codes, n));
    }
}

} // verus!

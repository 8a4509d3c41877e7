//! What the circuit requires of the cells of a table, in plain terms.

use crate::config::Config;
use crate::constraint_system::ConstraintSystem;
use crate::expression::{AdviceColumn, Table};
use crate::field::Field;
use crate::hash::{combine, lemma_combination_is_sum};
use crate::opcode::{
    data_left, is_code, is_data_of, lemma_code_or_data, lemma_data_left_bounded, push_size,
};
use crate::rows::{
    ending, is_bit, keccak_inputs, lemma_row_holds, lemma_switched, push_inputs, row_follows,
};
use vstd::arithmetic::div_mod::{lemma_add_mod_noop_right, lemma_small_mod};
use vstd::arithmetic::power::pow;
use vstd::prelude::*;

verus! {

impl<F: Field> Config<F> {
    /// In a table whose usable rows are enabled, with the first and the last of them marked, the
    /// constraint system is satisfied exactly where each usable row meets these conditions:
    ///
    /// - The marks of last bytes and of padding are 0 or 1.
    /// - The first row, and a row after a last byte, starts: its index is 0, it is code, and its
    ///   combination is its byte.
    /// - Every other row goes on: its index is 1 more, it is code exactly where no data is left
    ///   from the row before, its byte is added to the combination times `r`, and its hash, its
    ///   length and its mark of padding are those of the row before.
    /// - The number of data bytes left is the push size of an opcode, and else 1 less than before.
    /// - A last byte that is no padding has an index that is 1 less than the length.
    /// - The cell of the inverse holds the inverse of the number of data bytes left before, unless
    ///   that is 0.
    /// - After padding comes padding, and the last row holds a last byte or padding.
    /// - The byte and its push size stand in the table of push sizes.
    /// - The combination, the length and the hash of a last byte that is no padding stand in the
    ///   table of hashes, and three zeros stand there for every other row.
    pub proof fn lemma_meaning(
        self,
        before: ConstraintSystem<F>,
        after: ConstraintSystem<F>,
        t: Table,
    )
        requires
            self.extends(before, after),
            forall|c: AdviceColumn, i: int| 0 <= #[trigger] t.advice(c, i) < F::modulus(),
            0 < t.usable <= t.rows,
            forall|i: int|
                0 <= i < t.rows ==> #[trigger] t.selector(self.q_enable, i) == if i < t.usable {
                    1int
                } else {
                    0int
                },
            forall|i: int|
                0 <= i < t.rows ==> #[trigger] t.fixed(self.q_first, i) == if i == 0 {
                    1int
                } else {
                    0int
                },
            forall|i: int|
                0 <= i < t.rows ==> #[trigger] t.selector(self.q_last, i) == if i == t.usable - 1 {
                    1int
                } else {
                    0int
                },
        ensures
            after.satisfied(t) <==> before.satisfied(t) && forall|i: int|
                #![trigger t.advice(self.byte, i)]
                0 <= i < t.usable ==> {
                    let p = F::modulus();
                    let start = i == 0 || t.advice(self.is_final, i - 1) == 1;
                    &&& t.advice(self.is_final, i) == 0 || t.advice(self.is_final, i) == 1
                    &&& t.advice(self.padding, i) == 0 || t.advice(self.padding, i) == 1
                    &&& start ==> {
                        &&& t.advice(self.index, i) == 0
                        &&& t.advice(self.is_code, i) == 1
                        &&& t.advice(self.hash_rlc, i) == t.advice(self.byte, i)
                    }
                    &&& !start ==> {
                        &&& t.advice(self.index, i) == (t.advice(self.index, i - 1) + 1) % p
                        &&& t.advice(self.is_code, i) == if t.advice(self.push_rindex, i - 1)
                            == 0 {
                            1int
                        } else {
                            0int
                        }
                        &&& t.advice(self.hash_rlc, i) == (t.advice(self.hash_rlc, i - 1)
                            * self.r.value() + t.advice(self.byte, i)) % p
                        &&& t.advice(self.hash, i) == t.advice(self.hash, i - 1)
                        &&& t.advice(self.hash_length, i) == t.advice(self.hash_length, i - 1)
                        &&& t.advice(self.padding, i) == t.advice(self.padding, i - 1)
                    }
                    &&& t.advice(self.push_rindex, i) == if t.advice(self.is_code, i) == 1 {
                        t.advice(self.byte_push_size, i)
                    } else {
                        (t.advice(self.push_rindex, i - 1) - 1) % p
                    }
                    &&& t.advice(self.is_final, i) == 1 && t.advice(self.padding, i) == 0 ==> (
                    t.advice(self.index, i) + 1) % p == t.advice(self.hash_length, i)
                    &&& i > 0 && t.advice(self.push_rindex, i - 1) != 0 ==> (t.advice(
                        self.push_rindex,
                        i - 1,
                    ) * t.advice(self.push_rindex_inv, i)) % p == 1
                    &&& i > 0 && t.advice(self.padding, i - 1) == 1 ==> t.advice(self.padding, i)
                        == 1
                    &&& i == t.usable - 1 ==> t.advice(self.padding, i) == 1 || t.advice(
                        self.is_final,
                        i,
                    ) == 1
                    &&& exists|j: int|
                        0 <= j < t.usable && #[trigger] t.fixed(self.push_table[0], j) == t.advice(
                            self.byte,
                            i,
                        ) && t.fixed(self.push_table[1], j) == t.advice(self.byte_push_size, i)
                    &&& t.advice(self.is_final, i) == 1 && t.advice(self.padding, i) == 0
                        ==> exists|j: int|
                        0 <= j < t.usable && #[trigger] t.advice(self.keccak_table[0], j)
                            == t.advice(self.hash_rlc, i) && t.advice(self.keccak_table[1], j)
                            == t.advice(self.hash_length, i) && t.advice(self.keccak_table[2], j)
                            == t.advice(self.hash, i)
                    &&& !(t.advice(self.is_final, i) == 1 && t.advice(self.padding, i) == 0)
                        ==> exists|j: int|
                        0 <= j < t.usable && #[trigger] t.advice(self.keccak_table[0], j) == 0
                            && t.advice(self.keccak_table[1], j) == 0 && t.advice(
                            self.keccak_table[2],
                            j,
                        ) == 0
                },
    {
        self.lemma_meaning_by_rows(before, after, t);
        if after.satisfied(t) {
            assert forall|i: int|
                #![trigger t.advice(self.is_final, i)]
                #![trigger t.advice(self.padding, i)]
                #![trigger t.advice(self.index, i)]
                #![trigger t.advice(self.is_code, i)]
                #![trigger t.advice(self.hash_rlc, i)]
                #![trigger t.advice(self.hash, i)]
                #![trigger t.advice(self.hash_length, i)]
                #![trigger t.advice(self.push_rindex, i)]
                #![trigger t.advice(self.byte, i)]
                #![trigger t.advice(self.byte_push_size, i)]
                0 <= i < t.usable implies self.row_plain(t, i) by {}
        }
        if !after.satisfied(t) && before.satisfied(t) {
            let i = choose|i: int| 0 <= i < t.usable && !(#[trigger] self.row_plain(t, i));
            assert(0 <= t.advice(self.byte, i));
            assert(!self.row_plain(t, i));
        }
    }

    /// The constraint system is satisfied exactly where the rows meet the conditions.
    proof fn lemma_meaning_by_rows(
        self,
        before: ConstraintSystem<F>,
        after: ConstraintSystem<F>,
        t: Table,
    )
        requires
            self.extends(before, after),
            self.rows_marked(t),
        ensures
            after.satisfied(t) <==> before.satisfied(t) && forall|i: int|
                0 <= i < t.usable ==> #[trigger] self.row_plain(t, i),
    {
        self.lemma_satisfied(before, after, t);
        if self.holds(t) {
            assert forall|i: int| 0 <= i < t.usable implies #[trigger] self.row_plain(t, i) by {
                self.lemma_row_plain(t, i);
            }
        }
        if forall|i: int| 0 <= i < t.usable ==> #[trigger] self.row_plain(t, i) {
            self.lemma_plain_holds(t);
        }
    }

    /// Whether row `i` meets the conditions of the circuit.
    spec fn row_plain(self, t: Table, i: int) -> bool {
        let p = F::modulus();
        let start = i == 0 || t.advice(self.is_final, i - 1) == 1;
        &&& t.advice(self.is_final, i) == 0 || t.advice(self.is_final, i) == 1
        &&& t.advice(self.padding, i) == 0 || t.advice(self.padding, i) == 1
        &&& start ==> {
            &&& t.advice(self.index, i) == 0
            &&& t.advice(self.is_code, i) == 1
            &&& t.advice(self.hash_rlc, i) == t.advice(self.byte, i)
        }
        &&& !start ==> {
            &&& t.advice(self.index, i) == (t.advice(self.index, i - 1) + 1) % p
            &&& t.advice(self.is_code, i) == if t.advice(self.push_rindex, i - 1)
                == 0 {
                1int
            } else {
                0int
            }
            &&& t.advice(self.hash_rlc, i) == (t.advice(self.hash_rlc, i - 1)
                * self.r.value() + t.advice(self.byte, i)) % p
            &&& t.advice(self.hash, i) == t.advice(self.hash, i - 1)
            &&& t.advice(self.hash_length, i) == t.advice(self.hash_length, i - 1)
            &&& t.advice(self.padding, i) == t.advice(self.padding, i - 1)
        }
        &&& t.advice(self.push_rindex, i) == if t.advice(self.is_code, i) == 1 {
            t.advice(self.byte_push_size, i)
        } else {
            (t.advice(self.push_rindex, i - 1) - 1) % p
        }
        &&& t.advice(self.is_final, i) == 1 && t.advice(self.padding, i) == 0 ==> (
        t.advice(self.index, i) + 1) % p == t.advice(self.hash_length, i)
        &&& i > 0 && t.advice(self.push_rindex, i - 1) != 0 ==> (t.advice(
            self.push_rindex,
            i - 1,
        ) * t.advice(self.push_rindex_inv, i)) % p == 1
        &&& i > 0 && t.advice(self.padding, i - 1) == 1 ==> t.advice(self.padding, i)
            == 1
        &&& i == t.usable - 1 ==> t.advice(self.padding, i) == 1 || t.advice(
            self.is_final,
            i,
        ) == 1
        &&& exists|j: int|
            0 <= j < t.usable && #[trigger] t.fixed(self.push_table[0], j) == t.advice(
                self.byte,
                i,
            ) && t.fixed(self.push_table[1], j) == t.advice(self.byte_push_size, i)
        &&& t.advice(self.is_final, i) == 1 && t.advice(self.padding, i) == 0
            ==> exists|j: int|
            0 <= j < t.usable && #[trigger] t.advice(self.keccak_table[0], j)
                == t.advice(self.hash_rlc, i) && t.advice(self.keccak_table[1], j)
                == t.advice(self.hash_length, i) && t.advice(self.keccak_table[2], j)
                == t.advice(self.hash, i)
        &&& !(t.advice(self.is_final, i) == 1 && t.advice(self.padding, i) == 0)
            ==> exists|j: int|
            0 <= j < t.usable && #[trigger] t.advice(self.keccak_table[0], j) == 0
                && t.advice(self.keccak_table[1], j) == 0 && t.advice(
                self.keccak_table[2],
                j,
            ) == 0
    }

    /// The conditions of the circuit, row by row and for what is looked up.
    proof fn lemma_plain(self, t: Table, i: int)
        requires
            self.rows_marked(t),
            0 <= i < t.usable,
        ensures
            self.row_plain(t, i) <==> row_follows(
                F::modulus(),
                self.r.value(),
                self.row(t, i),
                self.row(t, i - 1),
            ) && self.row_found(t, i),
    {
        F::lemma_modulus_exceeds_u64();
        lemma_add_mod_noop_right(
            t.advice(self.byte, i),
            t.advice(self.hash_rlc, i - 1) * self.r.value(),
            F::modulus(),
        );
    }

    /// Whether what row `i` looks up is found.
    spec fn row_found(self, t: Table, i: int) -> bool {
        &&& exists|j: int|
            0 <= j < t.usable && #[trigger] t.fixed(self.push_table[0], j) == t.advice(self.byte, i)
                && t.fixed(self.push_table[1], j) == t.advice(self.byte_push_size, i)
        &&& t.advice(self.is_final, i) == 1 && t.advice(self.padding, i) == 0 ==> exists|j: int|
            0 <= j < t.usable && #[trigger] t.advice(self.keccak_table[0], j) == t.advice(
                self.hash_rlc,
                i,
            ) && t.advice(self.keccak_table[1], j) == t.advice(self.hash_length, i) && t.advice(
                self.keccak_table[2],
                j,
            ) == t.advice(self.hash, i)
        &&& !(t.advice(self.is_final, i) == 1 && t.advice(self.padding, i) == 0) ==> exists|j: int|
            0 <= j < t.usable && #[trigger] t.advice(self.keccak_table[0], j) == 0 && t.advice(
                self.keccak_table[1],
                j,
            ) == 0 && t.advice(self.keccak_table[2], j) == 0
    }

    /// Whether the rows of a table are enabled and marked as those of the circuit, and its cells
    /// are elements of the field.
    spec fn rows_marked(self, t: Table) -> bool {
        &&& forall|c: AdviceColumn, i: int| 0 <= #[trigger] t.advice(c, i) < F::modulus()
        &&& 0 < t.usable <= t.rows
        &&& forall|i: int|
            0 <= i < t.rows ==> #[trigger] t.selector(self.q_enable, i) == if i < t.usable {
                1int
            } else {
                0int
            }
        &&& forall|i: int|
            0 <= i < t.rows ==> #[trigger] t.fixed(self.q_first, i) == if i == 0 {
                1int
            } else {
                0int
            }
        &&& forall|i: int|
            0 <= i < t.rows ==> #[trigger] t.selector(self.q_last, i) == if i == t.usable - 1 {
                1int
            } else {
                0int
            }
    }

    /// The marks of a usable row are 0 or 1, and it follows the row before.
    proof fn lemma_row_follows(self, t: Table, i: int)
        requires
            self.rows_marked(t),
            self.holds(t),
            0 <= i < t.usable,
        ensures
            row_follows(F::modulus(), self.r.value(), self.row(t, i), self.row(t, i - 1)),
            is_bit(self.row(t, i).is_final),
            is_bit(self.row(t, i).padding),
        decreases i,
    {
        F::lemma_modulus_prime();
        F::lemma_modulus_exceeds_u64();
        if i > 0 {
            self.lemma_row_follows(t, i - 1);
        }
        assert(self.row_valid(t, i));
        lemma_row_holds(F::modulus(), self.r.value(), self.row(t, i), self.row(t, i - 1));
    }

    /// What a row looks up in the table of hashes.
    proof fn lemma_looked_up(self, t: Table, i: int)
        requires
            self.rows_marked(t),
            is_bit(self.row(t, i).is_final),
            is_bit(self.row(t, i).padding),
        ensures
            ({
                let row = self.row(t, i);
                keccak_inputs(F::modulus(), row) == if row.is_final == 1 && row.padding == 0 {
                    seq![row.hash_rlc, row.hash_length, row.hash]
                } else {
                    seq![0int, 0int, 0int]
                }
            }),
    {
        F::lemma_modulus_exceeds_u64();
        let p = F::modulus();
        let row = self.row(t, i);
        lemma_switched(p, row.padding, 0);
        lemma_switched(p, row.is_final, 1 - row.padding);
        let s = ending(p, row);
        lemma_switched(p, s, row.hash_rlc);
        lemma_switched(p, s, row.hash_length);
        lemma_switched(p, s, row.hash);
        assert(keccak_inputs(p, row) =~= if row.is_final == 1 && row.padding == 0 {
            seq![row.hash_rlc, row.hash_length, row.hash]
        } else {
            seq![0int, 0int, 0int]
        });
    }

    /// What a row looks up in the table of push sizes.
    proof fn lemma_byte_looked_up(self, t: Table, i: int)
        requires
            self.rows_marked(t),
            self.row(t, i).q_enable == 1,
        ensures
            push_inputs(F::modulus(), self.row(t, i)) == seq![
                self.row(t, i).byte,
                self.row(t, i).byte_push_size,
            ],
    {
        F::lemma_modulus_exceeds_u64();
        let p = F::modulus();
        let row = self.row(t, i);
        lemma_switched(p, 1, row.byte);
        lemma_switched(p, 1, row.byte_push_size);
        assert(push_inputs(p, row) =~= seq![row.byte, row.byte_push_size]);
    }

    /// A row of a table in which all gates and lookups hold.
    proof fn lemma_row_plain(self, t: Table, i: int)
        requires
            self.rows_marked(t),
            self.holds(t),
            0 <= i < t.usable,
        ensures
            self.row_plain(t, i),
    {
        self.lemma_row_follows(t, i);
        self.lemma_looked_up(t, i);
        self.lemma_byte_looked_up(t, i);
        let row = self.row(t, i);
        let p = F::modulus();
        assert(self.push_found(t, i));
        let j = choose|j: int|
            0 <= j < t.usable && push_inputs(p, row) == #[trigger] self.push_entry(t, j);
        assert(self.push_entry(t, j)[0] == row.byte);
        assert(self.push_entry(t, j)[1] == row.byte_push_size);
        assert(self.keccak_found(t, i));
        let k = choose|k: int|
            0 <= k < t.usable && keccak_inputs(p, row) == #[trigger] self.keccak_entry(t, k);
        let entry = self.keccak_entry(t, k);
        let inputs = keccak_inputs(p, row);
        assert(entry[0] == inputs[0] && entry[1] == inputs[1] && entry[2] == inputs[2]);
        assert(self.row_found(t, i));
        self.lemma_plain(t, i);
    }

    /// All gates and lookups hold where the rows meet the conditions.
    proof fn lemma_plain_holds(self, t: Table)
        requires
            self.rows_marked(t),
            forall|i: int| 0 <= i < t.usable ==> #[trigger] self.row_plain(t, i),
        ensures
            self.holds(t),
    {
        let (p, r) = (F::modulus(), self.r.value());
        F::lemma_modulus_prime();
        F::lemma_modulus_exceeds_u64();
        assert forall|i: int| 0 <= i < t.rows implies #[trigger] self.row_valid(t, i) by {
            if i < t.usable {
                assert(self.row_plain(t, i));
                self.lemma_plain(t, i);
                if i > 0 {
                    assert(self.row_plain(t, i - 1));
                }
            }
            lemma_row_holds(p, r, self.row(t, i), self.row(t, i - 1));
        }
        assert forall|i: int| 0 <= i < t.usable implies #[trigger] self.push_found(t, i) by {
            assert(self.row_plain(t, i));
            self.lemma_byte_looked_up(t, i);
            let j = choose|j: int|
                0 <= j < t.usable && #[trigger] t.fixed(self.push_table[0], j) == t.advice(
                    self.byte,
                    i,
                ) && t.fixed(self.push_table[1], j) == t.advice(self.byte_push_size, i);
            assert(push_inputs(p, self.row(t, i)) =~= self.push_entry(t, j));
        }
        assert forall|i: int| 0 <= i < t.usable implies #[trigger] self.keccak_found(t, i) by {
            assert(self.row_plain(t, i));
            self.lemma_looked_up(t, i);
            let row = self.row(t, i);
            let j = if row.is_final == 1 && row.padding == 0 {
                choose|j: int|
                    0 <= j < t.usable && #[trigger] t.advice(self.keccak_table[0], j)
                        == row.hash_rlc && t.advice(self.keccak_table[1], j) == row.hash_length
                        && t.advice(self.keccak_table[2], j) == row.hash
            } else {
                choose|j: int|
                    0 <= j < t.usable && #[trigger] t.advice(self.keccak_table[0], j) == 0
                        && t.advice(self.keccak_table[1], j) == 0 && t.advice(
                        self.keccak_table[2],
                        j,
                    ) == 0
            };
            assert(keccak_inputs(p, row) =~= self.keccak_entry(t, j));
        }
    }

    /// The bytes of the rows from `a` on.
    spec fn bytes_from(self, t: Table, a: int, n: int) -> Seq<u8> {
        Seq::new(n as nat, |k: int| t.advice(self.byte, a + k) as u8)
    }

    /// The byte cells of the rows from `a` on.
    spec fn byte_cells_from(self, t: Table, a: int, n: int) -> Seq<int> {
        Seq::new(n as nat, |k: int| t.advice(self.byte, a + k))
    }

    /// What the rows of a bytecode hold up to row `i`.
    proof fn lemma_up_to_row(
        self,
        before: ConstraintSystem<F>,
        after: ConstraintSystem<F>,
        t: Table,
        a: int,
        b: int,
        i: int,
    )
        requires
            self.extends(before, after),
            forall|c: AdviceColumn, i: int| 0 <= #[trigger] t.advice(c, i) < F::modulus(),
            0 < t.usable <= t.rows,
            t.usable < F::modulus(),
            forall|i: int|
                0 <= i < t.rows ==> #[trigger] t.selector(self.q_enable, i) == if i < t.usable {
                    1int
                } else {
                    0int
                },
            forall|i: int|
                0 <= i < t.rows ==> #[trigger] t.fixed(self.q_first, i) == if i == 0 {
                    1int
                } else {
                    0int
                },
            forall|i: int|
                0 <= i < t.rows ==> #[trigger] t.selector(self.q_last, i) == if i == t.usable - 1 {
                    1int
                } else {
                    0int
                },
            forall|j: int|
                0 <= j < t.usable ==> 0 <= #[trigger] t.fixed(self.push_table[0], j) < 256
                    && t.fixed(self.push_table[1], j) == if 0x60 <= t.fixed(self.push_table[0], j)
                    <= 0x7f {
                    t.fixed(self.push_table[0], j) - 0x5f
                } else {
                    0int
                },
            after.satisfied(t),
            0 <= a <= b < t.usable,
            a == 0 || t.advice(self.is_final, a - 1) == 1,
            forall|i: int| a <= i < b ==> #[trigger] t.advice(self.is_final, i) == 0,
            t.advice(self.is_final, b) == 1,
            t.advice(self.padding, b) == 0,
            a <= i <= b,
        ensures
            ({
                let bytes = self.bytes_from(t, a, b - a + 1);
                &&& t.advice(self.index, i) == i - a
                &&& t.advice(self.hash, i) == t.advice(self.hash, a)
                &&& t.advice(self.hash_length, i) == t.advice(self.hash_length, a)
                &&& t.advice(self.padding, i) == t.advice(self.padding, a)
                &&& 0 <= t.advice(self.byte, i) < 256
                &&& t.advice(self.byte_push_size, i) == push_size(bytes[i - a])
                &&& t.advice(self.is_code, i) == if is_code(bytes, i - a) {
                    1int
                } else {
                    0int
                }
                &&& t.advice(self.push_rindex, i) == data_left(bytes, i - a + 1)
                &&& t.advice(self.hash_rlc, i) == combine(
                    F::modulus(),
                    self.r.value(),
                    self.byte_cells_from(t, a, i - a + 1),
                )
            }),
        decreases i,
    {
        let (p, r) = (F::modulus(), self.r.value());
        F::lemma_modulus_exceeds_u64();
        self.lemma_meaning(before, after, t);
        let bytes = self.bytes_from(t, a, b - a + 1);
        let k = i - a;
        let byte = t.advice(self.byte, i);
        assert(bytes[k] == byte as u8);
        let cells = self.byte_cells_from(t, a, k + 1);
        assert(cells.last() == byte);
        assert(cells.drop_last() =~= self.byte_cells_from(t, a, k));
        lemma_data_left_bounded(bytes, k);
        if i == a {
            assert(self.byte_cells_from(t, a, 0) =~= Seq::<int>::empty());
            assert(combine(p, r, Seq::<int>::empty()) == 0);
            assert(0 * r == 0);
            lemma_small_mod(0, p as nat);
            lemma_small_mod(byte as nat, p as nat);
        } else {
            self.lemma_up_to_row(before, after, t, a, b, i - 1);
            assert(t.advice(self.is_final, i - 1) == 0);
            assert(0 <= t.advice(self.byte, i - 1));
            lemma_small_mod(k as nat, p as nat);
            let x = t.advice(self.push_rindex, i - 1);
            if x > 0 {
                lemma_small_mod((x - 1) as nat, p as nat);
            }
            lemma_add_mod_noop_right(byte, t.advice(self.hash_rlc, i - 1) * r, p);
        }
    }

    /// Where the constraint system is satisfied, the rows `a` to `b` of a bytecode, which are those
    /// after a last byte, or the first, up to the next last byte, are no padding and have one
    /// length, which is their number, and one hash. They are numbered from 0. Each holds a byte
    /// and the number of bytes that it pushes; it is code unless it is among the bytes that a
    /// row of code before it pushes; and it counts how many of these are left. Each holds the sum
    /// of the bytes so far times the powers of `r`. With that of all bytes, the length and the
    /// hash stand in the table of hashes.
    pub proof fn lemma_bytecode_rows(
        self,
        before: ConstraintSystem<F>,
        after: ConstraintSystem<F>,
        t: Table,
        a: int,
        b: int,
        i: int,
    )
        requires
            self.extends(before, after),
            forall|c: AdviceColumn, i: int| 0 <= #[trigger] t.advice(c, i) < F::modulus(),
            0 < t.usable <= t.rows,
            t.usable < F::modulus(),
            forall|i: int|
                0 <= i < t.rows ==> #[trigger] t.selector(self.q_enable, i) == if i < t.usable {
                    1int
                } else {
                    0int
                },
            forall|i: int|
                0 <= i < t.rows ==> #[trigger] t.fixed(self.q_first, i) == if i == 0 {
                    1int
                } else {
                    0int
                },
            forall|i: int|
                0 <= i < t.rows ==> #[trigger] t.selector(self.q_last, i) == if i == t.usable - 1 {
                    1int
                } else {
                    0int
                },
            forall|j: int|
                0 <= j < t.usable ==> 0 <= #[trigger] t.fixed(self.push_table[0], j) < 256
                    && t.fixed(self.push_table[1], j) == if 0x60 <= t.fixed(self.push_table[0], j)
                    <= 0x7f {
                    t.fixed(self.push_table[0], j) - 0x5f
                } else {
                    0int
                },
            after.satisfied(t),
            0 <= a <= b < t.usable,
            a == 0 || t.advice(self.is_final, a - 1) == 1,
            forall|i: int| a <= i < b ==> #[trigger] t.advice(self.is_final, i) == 0,
            t.advice(self.is_final, b) == 1,
            t.advice(self.padding, b) == 0,
            a <= i <= b,
        ensures
            t.advice(self.hash_length, i) == b - a + 1,
            t.advice(self.hash, i) == t.advice(self.hash, b),
            t.advice(self.padding, i) == 0,
            t.advice(self.index, i) == i - a,
            0 <= t.advice(self.byte, i) < 256,
            t.advice(self.byte_push_size, i) == if 0x60 <= t.advice(self.byte, i)
                <= 0x7f {
                t.advice(self.byte, i) - 0x5f
            } else {
                0
            },
            t.advice(self.is_code, i) == 0 || t.advice(self.is_code, i) == 1,
            t.advice(self.is_code, i) == 0 <==> exists|j: int|
                a <= j < i && #[trigger] t.advice(self.is_code, j) == 1 && 0x60 <= t.advice(
                    self.byte,
                    j,
                ) <= 0x7f && i <= j + t.advice(self.byte, j) - 0x5f,
            t.advice(self.push_rindex, i) == if t.advice(self.is_code, i) == 1 {
                t.advice(self.byte_push_size, i)
            } else {
                t.advice(self.push_rindex, i - 1) - 1
            },
            t.advice(self.hash_rlc, i) == Seq::new(
                (i - a + 1) as nat,
                |k: int| t.advice(self.byte, a + k) * pow(self.r.value(), (i - a - k) as nat),
            ).fold_left(0int, |sum: int, x: int| sum + x) % F::modulus(),
            exists|j: int|
                0 <= j < t.usable && #[trigger] t.advice(self.keccak_table[0], j) == t.advice(
                    self.hash_rlc,
                    b,
                ) && t.advice(self.keccak_table[1], j) == b - a + 1 && t.advice(
                    self.keccak_table[2],
                    j,
                ) == t.advice(self.hash, b),
    {
        let (p, r) = (F::modulus(), self.r.value());
        F::lemma_modulus_exceeds_u64();
        self.lemma_meaning(before, after, t);
        self.lemma_up_to_row(before, after, t, a, b, b);
        assert(0 <= t.advice(self.byte, b));
        lemma_small_mod((b - a + 1) as nat, p as nat);
        let bytes = self.bytes_from(t, a, b - a + 1);
        let k = i - a;
        self.lemma_up_to_row(before, after, t, a, b, i);
        if i > a {
            self.lemma_up_to_row(before, after, t, a, b, i - 1);
        }
        lemma_data_left_bounded(bytes, k);
        lemma_code_or_data(bytes, k);
        assert forall|j: int| a <= j < i implies (#[trigger] t.advice(self.is_code, j) == 1
            && 0x60 <= t.advice(self.byte, j) <= 0x7f && i <= j + t.advice(self.byte, j) - 0x5f)
            == (is_code(bytes, j - a) && is_data_of(bytes, j - a, k)) by {
            self.lemma_up_to_row(before, after, t, a, b, j);
        }
        if !is_code(bytes, k) {
            let m = choose|m: int| is_code(bytes, m) && #[trigger] is_data_of(bytes, m, k);
            assert(t.advice(self.is_code, a + m) == 1);
        }
        if t.advice(self.is_code, i) == 1 {
            assert forall|j: int| a <= j < i implies !(#[trigger] t.advice(self.is_code, j) == 1
                && 0x60 <= t.advice(self.byte, j) <= 0x7f && i <= j + t.advice(self.byte, j)
                - 0x5f) by {
                assert(is_code(bytes, j - a) && is_data_of(bytes, j - a, k) ==> false);
            }
        }
        let cells = self.byte_cells_from(t, a, k + 1);
        lemma_combination_is_sum(p, r, cells);
        assert(Seq::new(
            cells.len(),
            |m: int| cells[m] * pow(r, (cells.len() - 1 - m) as nat),
        ) =~= Seq::new(
            (i - a + 1) as nat,
            |k: int| t.advice(self.byte, a + k) * pow(self.r.value(), (i - a - k) as nat),
        ));
    }

    /// Where the constraint system is satisfied, every usable row that is no padding is one of the
    /// rows of a bytecode; and after padding there is only padding.
    pub proof fn lemma_every_row_in_a_bytecode(
        self,
        before: ConstraintSystem<F>,
        after: ConstraintSystem<F>,
        t: Table,
        i: int,
    ) -> (rows: (int, int))
        requires
            self.extends(before, after),
            forall|c: AdviceColumn, i: int| 0 <= #[trigger] t.advice(c, i) < F::modulus(),
            0 < t.usable <= t.rows,
            t.usable < F::modulus(),
            forall|i: int|
                0 <= i < t.rows ==> #[trigger] t.selector(self.q_enable, i) == if i < t.usable {
                    1int
                } else {
                    0int
                },
            forall|i: int|
                0 <= i < t.rows ==> #[trigger] t.fixed(self.q_first, i) == if i == 0 {
                    1int
                } else {
                    0int
                },
            forall|i: int|
                0 <= i < t.rows ==> #[trigger] t.selector(self.q_last, i) == if i == t.usable - 1 {
                    1int
                } else {
                    0int
                },
            forall|j: int|
                0 <= j < t.usable ==> 0 <= #[trigger] t.fixed(self.push_table[0], j) < 256
                    && t.fixed(self.push_table[1], j) == if 0x60 <= t.fixed(self.push_table[0], j)
                    <= 0x7f {
                    t.fixed(self.push_table[0], j) - 0x5f
                } else {
                    0int
                },
            after.satisfied(t),
            0 <= i < t.usable,
        ensures
            t.advice(self.padding, i) == 0 || t.advice(self.padding, i) == 1,
            t.advice(self.padding, i) == 0 ==> {
                &&& 0 <= rows.0 <= i <= rows.1 < t.usable
                &&& rows.0 == 0 || t.advice(self.is_final, rows.0 - 1) == 1
                &&& forall|j: int|
                    rows.0 <= j < rows.1 ==> #[trigger] t.advice(self.is_final, j) == 0
                &&& t.advice(self.is_final, rows.1) == 1
                &&& t.advice(self.padding, rows.1) == 0
            },
            t.advice(self.padding, i) == 1 ==> forall|k: int|
                i <= k < t.usable ==> #[trigger] t.advice(self.padding, k) == 1,
    {
        self.lemma_meaning(before, after, t);
        assert(0 <= t.advice(self.byte, i));
        if t.advice(self.padding, i) == 0 {
            let a = self.lemma_start_of(before, after, t, i);
            let b = self.lemma_end_of(before, after, t, i);
            (a, b)
        } else {
            assert forall|k: int| i <= k < t.usable implies #[trigger] t.advice(self.padding, k)
                == 1 by {
                self.lemma_padding_goes_on(before, after, t, i, k);
            }
            (0, 0)
        }
    }

    /// The first row of the bytecode of row `i`.
    proof fn lemma_start_of(
        self,
        before: ConstraintSystem<F>,
        after: ConstraintSystem<F>,
        t: Table,
        i: int,
    ) -> (a: int)
        requires
            self.extends(before, after),
            forall|c: AdviceColumn, i: int| 0 <= #[trigger] t.advice(c, i) < F::modulus(),
            0 < t.usable <= t.rows,
            t.usable < F::modulus(),
            forall|i: int|
                0 <= i < t.rows ==> #[trigger] t.selector(self.q_enable, i) == if i < t.usable {
                    1int
                } else {
                    0int
                },
            forall|i: int|
                0 <= i < t.rows ==> #[trigger] t.fixed(self.q_first, i) == if i == 0 {
                    1int
                } else {
                    0int
                },
            forall|i: int|
                0 <= i < t.rows ==> #[trigger] t.selector(self.q_last, i) == if i == t.usable - 1 {
                    1int
                } else {
                    0int
                },
            forall|j: int|
                0 <= j < t.usable ==> 0 <= #[trigger] t.fixed(self.push_table[0], j) < 256
                    && t.fixed(self.push_table[1], j) == if 0x60 <= t.fixed(self.push_table[0], j)
                    <= 0x7f {
                    t.fixed(self.push_table[0], j) - 0x5f
                } else {
                    0int
                },
            after.satisfied(t),
            0 <= i < t.usable,
        ensures
            0 <= a <= i,
            a == 0 || t.advice(self.is_final, a - 1) == 1,
            forall|j: int| a <= j < i ==> #[trigger] t.advice(self.is_final, j) == 0,
        decreases i,
    {
        if i == 0 || t.advice(self.is_final, i - 1) == 1 {
            i
        } else {
            self.lemma_meaning(before, after, t);
            assert(0 <= t.advice(self.byte, i - 1));
            self.lemma_start_of(before, after, t, i - 1)
        }
    }

    /// The last row of the bytecode of row `i`.
    proof fn lemma_end_of(
        self,
        before: ConstraintSystem<F>,
        after: ConstraintSystem<F>,
        t: Table,
        i: int,
    ) -> (b: int)
        requires
            self.extends(before, after),
            forall|c: AdviceColumn, i: int| 0 <= #[trigger] t.advice(c, i) < F::modulus(),
            0 < t.usable <= t.rows,
            t.usable < F::modulus(),
            forall|i: int|
                0 <= i < t.rows ==> #[trigger] t.selector(self.q_enable, i) == if i < t.usable {
                    1int
                } else {
                    0int
                },
            forall|i: int|
                0 <= i < t.rows ==> #[trigger] t.fixed(self.q_first, i) == if i == 0 {
                    1int
                } else {
                    0int
                },
            forall|i: int|
                0 <= i < t.rows ==> #[trigger] t.selector(self.q_last, i) == if i == t.usable - 1 {
                    1int
                } else {
                    0int
                },
            forall|j: int|
                0 <= j < t.usable ==> 0 <= #[trigger] t.fixed(self.push_table[0], j) < 256
                    && t.fixed(self.push_table[1], j) == if 0x60 <= t.fixed(self.push_table[0], j)
                    <= 0x7f {
                    t.fixed(self.push_table[0], j) - 0x5f
                } else {
                    0int
                },
            after.satisfied(t),
            0 <= i < t.usable,
            t.advice(self.padding, i) == 0,
        ensures
            i <= b < t.usable,
            forall|j: int| i <= j < b ==> #[trigger] t.advice(self.is_final, j) == 0,
            t.advice(self.is_final, b) == 1,
            t.advice(self.padding, b) == 0,
        decreases t.usable - i,
    {
        self.lemma_meaning(before, after, t);
        assert(0 <= t.advice(self.byte, i));
        if t.advice(self.is_final, i) == 1 {
            i
        } else {
            assert(i < t.usable - 1);
            assert(0 <= t.advice(self.byte, i + 1));
            self.lemma_end_of(before, after, t, i + 1)
        }
    }

    /// After padding there is padding.
    proof fn lemma_padding_goes_on(
        self,
        before: ConstraintSystem<F>,
        after: ConstraintSystem<F>,
        t: Table,
        i: int,
        k: int,
    )
        requires
            self.extends(before, after),
            forall|c: AdviceColumn, i: int| 0 <= #[trigger] t.advice(c, i) < F::modulus(),
            0 < t.usable <= t.rows,
            t.usable < F::modulus(),
            forall|i: int|
                0 <= i < t.rows ==> #[trigger] t.selector(self.q_enable, i) == if i < t.usable {
                    1int
                } else {
                    0int
                },
            forall|i: int|
                0 <= i < t.rows ==> #[trigger] t.fixed(self.q_first, i) == if i == 0 {
                    1int
                } else {
                    0int
                },
            forall|i: int|
                0 <= i < t.rows ==> #[trigger] t.selector(self.q_last, i) == if i == t.usable - 1 {
                    1int
                } else {
                    0int
                },
            forall|j: int|
                0 <= j < t.usable ==> 0 <= #[trigger] t.fixed(self.push_table[0], j) < 256
                    && t.fixed(self.push_table[1], j) == if 0x60 <= t.fixed(self.push_table[0], j)
                    <= 0x7f {
                    t.fixed(self.push_table[0], j) - 0x5f
                } else {
                    0int
                },
            after.satisfied(t),
            0 <= i <= k < t.usable,
            t.advice(self.padding, i) == 1,
        ensures
            t.advice(self.padding, k) == 1,
        decreases k,
    {
        if i < k {
            self.lemma_padding_goes_on(before, after, t, i, k - 1);
            self.lemma_meaning(before, after, t);
            assert(0 <= t.advice(self.byte, k));
        }
    }
}

} // verus!

//! The columns, gates and lookups of the bytecode circuit.

use crate::constraint_system::{
    lemma_with_queries_add, lemma_with_queries_length, lemma_with_queries_push, with_queries,
    with_query, BaseConstraintBuilder, ConstraintSystem, Gate, Lookup,
};
use crate::expression::{
    and, not, or, select, AdviceColumn, Expression, FixedColumn, Rotation, Selector, Table,
};
use crate::field::Field;
use crate::is_zero::{IsZeroChip, IsZeroConfig};
use crate::rows::{
    all_zero, always_values, continue_values, continuing, is_zero_values, keccak_inputs,
    last_row_values, length_values, padding_values, prev_push_ended, push_inputs, row_holds,
    start_values, CircuitRow,
};
use vstd::prelude::*;

verus! {

broadcast use lemma_with_queries_push;

/// The number of columns of the table of push sizes: a byte, and its push size.
pub const PUSH_TABLE_WIDTH: usize = 2;

/// The number of columns of the table of hashes: the combination of a message, its length,
/// and its hash.
pub const KECCAK_WIDTH: usize = 3;

/// The columns of the bytecode circuit.
#[derive(Debug)]
pub struct Config<F> {
    pub r: F,
    pub minimum_rows: usize,
    pub q_enable: Selector,
    pub q_first: FixedColumn,
    pub q_last: Selector,
    pub hash: AdviceColumn,
    pub index: AdviceColumn,
    pub is_code: AdviceColumn,
    pub byte: AdviceColumn,
    pub push_rindex: AdviceColumn,
    pub hash_rlc: AdviceColumn,
    pub hash_length: AdviceColumn,
    pub byte_push_size: AdviceColumn,
    pub is_final: AdviceColumn,
    pub padding: AdviceColumn,
    pub push_rindex_inv: AdviceColumn,
    pub push_rindex_is_zero: IsZeroConfig<F>,
    pub push_table: [FixedColumn; PUSH_TABLE_WIDTH],
    pub keccak_table: [AdviceColumn; KECCAK_WIDTH],
}

impl<F: Field> Clone for Config<F> {
    fn clone(&self) -> (r: Self)
        ensures
            r == *self,
    {
        Config {
            r: self.r,
            minimum_rows: self.minimum_rows,
            q_enable: self.q_enable,
            q_first: self.q_first,
            q_last: self.q_last,
            hash: self.hash,
            index: self.index,
            is_code: self.is_code,
            byte: self.byte,
            push_rindex: self.push_rindex,
            hash_rlc: self.hash_rlc,
            hash_length: self.hash_length,
            byte_push_size: self.byte_push_size,
            is_final: self.is_final,
            padding: self.padding,
            push_rindex_inv: self.push_rindex_inv,
            push_rindex_is_zero: self.push_rindex_is_zero.clone(),
            push_table: self.push_table,
            keccak_table: self.keccak_table,
        }
    }
}

/// The query of the cell of the current row.
pub open spec fn at_cur(c: AdviceColumn) -> (AdviceColumn, Rotation) {
    (c, Rotation { distance: 0 })
}

/// The query of the cell of the previous row.
pub open spec fn at_prev(c: AdviceColumn) -> (AdviceColumn, Rotation) {
    (c, Rotation { distance: (-1int) as i32 })
}

/// The cell of the current row.
fn cur<F: Field>(meta: &mut ConstraintSystem<F>, c: AdviceColumn) -> (r: Expression<F>)
    ensures
        forall|t: Table, i: int| #[trigger] r.eval(t, i) == t.advice(c, i),
        final(meta).advice_queries@ == with_query(old(meta).advice_queries@, at_cur(c)),
        *final(meta) == (ConstraintSystem {
            advice_queries: final(meta).advice_queries,
            ..*old(meta)
        }),
{
    meta.query_advice(c, Rotation::cur())
}

/// The cell of the previous row.
fn prev<F: Field>(meta: &mut ConstraintSystem<F>, c: AdviceColumn) -> (r: Expression<F>)
    ensures
        forall|t: Table, i: int| #[trigger] r.eval(t, i) == t.advice(c, i - 1),
        final(meta).advice_queries@ == with_query(old(meta).advice_queries@, at_prev(c)),
        *final(meta) == (ConstraintSystem {
            advice_queries: final(meta).advice_queries,
            ..*old(meta)
        }),
{
    meta.query_advice(c, Rotation::prev())
}

impl<F: Field> Config<F> {
    /// The cells of row `i` of a table.
    pub open spec fn row(self, t: Table, i: int) -> CircuitRow {
        CircuitRow {
            q_enable: t.selector(self.q_enable, i),
            q_first: t.fixed(self.q_first, i),
            q_last: t.selector(self.q_last, i),
            hash: t.advice(self.hash, i),
            index: t.advice(self.index, i),
            is_code: t.advice(self.is_code, i),
            byte: t.advice(self.byte, i),
            push_rindex: t.advice(self.push_rindex, i),
            hash_rlc: t.advice(self.hash_rlc, i),
            hash_length: t.advice(self.hash_length, i),
            byte_push_size: t.advice(self.byte_push_size, i),
            is_final: t.advice(self.is_final, i),
            padding: t.advice(self.padding, i),
            push_rindex_inv: t.advice(self.push_rindex_inv, i),
        }
    }

    /// The entry of the table of push sizes in row `j`.
    pub open spec fn push_entry(self, t: Table, j: int) -> Seq<int> {
        seq![t.fixed(self.push_table[0], j), t.fixed(self.push_table[1], j)]
    }

    /// The entry of the table of hashes in row `j`.
    pub open spec fn keccak_entry(self, t: Table, j: int) -> Seq<int> {
        seq![
            t.advice(self.keccak_table[0], j),
            t.advice(self.keccak_table[1], j),
            t.advice(self.keccak_table[2], j),
        ]
    }

    /// Whether the expression of the inverses has its meaning.
    pub open spec fn shows_zero(self) -> bool {
        &&& self.push_rindex_is_zero.value_inv == self.push_rindex_inv
        &&& forall|t: Table, i: int| #[trigger]
            self.push_rindex_is_zero.is_zero_expression.eval(t, i) == prev_push_ended(
                F::modulus(),
                self.row(t, i),
                self.row(t, i - 1),
            )
    }

    /// Whether a gate has these names and requires these values of the current and the
    /// previous row to be 0.
    #[verifier::opaque]
    pub open spec fn gate_is(
        self,
        gate: Gate<F>,
        name: Seq<char>,
        names: Seq<Seq<char>>,
        values: spec_fn(CircuitRow, CircuitRow) -> Seq<int>,
    ) -> bool {
        &&& gate.name@ == name
        &&& gate.names() == names
        &&& forall|t: Table, i: int| #[trigger]
            gate.values(t, i) == values(self.row(t, i), self.row(t, i - 1))
    }

    /// The expression that is 1 where the row continues the bytecode of the previous row:
    /// the row is not the first, and the previous row does not hold the last byte.
    fn q_continue(&self, meta: &mut ConstraintSystem<F>) -> (e: Expression<F>)
        ensures
            forall|t: Table, i: int| #[trigger]
                e.eval(t, i) == continuing(F::modulus(), self.row(t, i), self.row(t, i - 1)),
            final(meta).advice_queries@ == with_query(
                old(meta).advice_queries@,
                at_prev(self.is_final),
            ),
            *final(meta) == (ConstraintSystem {
                advice_queries: final(meta).advice_queries,
                ..*old(meta)
            }),
    {
        let first = meta.query_fixed(self.q_first, Rotation::cur());
        let is_final = prev(meta, self.is_final);
        and(vec![not(first), not(is_final)])
    }

    /// Whether `gate` is the one named "continue".
    pub open spec fn is_continue_gate(self, gate: Gate<F>) -> bool {
        self.gate_is(
            gate,
            "continue"@,
            seq![
                "index needs to increase by 1"@,
                "is_code := push_rindex_prev == 0"@,
                "hash_rlc := hash_rlc_prev * r + byte"@,
                "hash needs to remain the same"@,
                "hash_length needs to remain the same"@,
                "padding needs to remain the same"@,
            ],
            |cur: CircuitRow, prev: CircuitRow|
                continue_values(F::modulus(), self.r.value(), cur, prev),
        )
    }

    /// The cells that gate "continue" queries.
    pub open spec fn continue_queries(self) -> Seq<(AdviceColumn, Rotation)> {
        Seq::empty()
            .push(at_cur(self.index))
            .push(at_prev(self.index))
            .push(at_cur(self.is_code))
            .push(at_cur(self.hash_rlc))
            .push(at_prev(self.hash_rlc))
            .push(at_cur(self.byte))
            .push(at_cur(self.hash))
            .push(at_prev(self.hash))
            .push(at_cur(self.hash_length))
            .push(at_prev(self.hash_length))
            .push(at_cur(self.padding))
            .push(at_prev(self.padding))
            .push(at_prev(self.is_final))
    }

    /// Adds gate "continue".
    fn continue_gate(&self, meta: &mut ConstraintSystem<F>)
        requires
            self.shows_zero(),
        ensures
            self.is_continue_gate(final(meta).gates@.last()),
            final(meta).gates@ == old(meta).gates@.push(final(meta).gates@.last()),
            final(meta).advice_queries@ == with_queries(
                old(meta).advice_queries@,
                self.continue_queries(),
            ),
            *final(meta) == (ConstraintSystem {
                advice_queries: final(meta).advice_queries,
                gates: final(meta).gates,
                ..*old(meta)
            }),
    {
        let mut cb = BaseConstraintBuilder::new();
        let index = cur(meta, self.index);
        let index_prev = prev(meta, self.index);
        cb.require_equal("index needs to increase by 1", index, index_prev.plus(Expression::one()));
        let is_code = cur(meta, self.is_code);
        cb.require_equal(
            "is_code := push_rindex_prev == 0",
            is_code,
            self.push_rindex_is_zero.is_zero_expression.clone(),
        );
        let hash_rlc = cur(meta, self.hash_rlc);
        let hash_rlc_prev = prev(meta, self.hash_rlc);
        let byte = cur(meta, self.byte);
        cb.require_equal(
            "hash_rlc := hash_rlc_prev * r + byte",
            hash_rlc,
            hash_rlc_prev.scale(self.r).plus(byte),
        );
        let hash = cur(meta, self.hash);
        let hash_prev = prev(meta, self.hash);
        cb.require_equal("hash needs to remain the same", hash, hash_prev);
        let hash_length = cur(meta, self.hash_length);
        let hash_length_prev = prev(meta, self.hash_length);
        cb.require_equal("hash_length needs to remain the same", hash_length, hash_length_prev);
        let padding = cur(meta, self.padding);
        let padding_prev = prev(meta, self.padding);
        cb.require_equal("padding needs to remain the same", padding, padding_prev);
        // Conditions:
        // - Continuing
        let q_enable = meta.query_selector(self.q_enable);
        let q_continue = self.q_continue(meta);
        let constraints = cb.gate(and(vec![q_enable, q_continue]));
        meta.create_gate("continue", constraints);
        proof {
            reveal(Config::gate_is);
            let gate = meta.gates@.last();
            assert(gate.names() =~= seq![
                "index needs to increase by 1"@,
                "is_code := push_rindex_prev == 0"@,
                "hash_rlc := hash_rlc_prev * r + byte"@,
                "hash needs to remain the same"@,
                "hash_length needs to remain the same"@,
                "padding needs to remain the same"@,
            ]);
            assert forall|t: Table, i: int| #[trigger]
                gate.values(t, i) == continue_values(
                    F::modulus(),
                    self.r.value(),
                    self.row(t, i),
                    self.row(t, i - 1),
                ) by {
                assert(gate.values(t, i) =~= continue_values(
                    F::modulus(),
                    self.r.value(),
                    self.row(t, i),
                    self.row(t, i - 1),
                ));
            }
        }
    }

    /// Whether `gate` is the one named "start".
    pub open spec fn is_start_gate(self, gate: Gate<F>) -> bool {
        self.gate_is(
            gate,
            "start"@,
            seq![
                "index needs to start at 0"@,
                "is_code needs to be 1 (first byte is always an opcode)"@,
                "hash_rlc needs to start at byte"@,
            ],
            |cur: CircuitRow, prev: CircuitRow| start_values(F::modulus(), cur, prev),
        )
    }

    /// The cells that gate "start" queries.
    pub open spec fn start_queries(self) -> Seq<(AdviceColumn, Rotation)> {
        Seq::empty()
            .push(at_cur(self.index))
            .push(at_cur(self.is_code))
            .push(at_cur(self.byte))
            .push(at_cur(self.hash_rlc))
            .push(at_prev(self.is_final))
    }

    /// Adds gate "start".
    fn start_gate(&self, meta: &mut ConstraintSystem<F>)
        ensures
            self.is_start_gate(final(meta).gates@.last()),
            final(meta).gates@ == old(meta).gates@.push(final(meta).gates@.last()),
            final(meta).advice_queries@ == with_queries(
                old(meta).advice_queries@,
                self.start_queries(),
            ),
            *final(meta) == (ConstraintSystem {
                advice_queries: final(meta).advice_queries,
                gates: final(meta).gates,
                ..*old(meta)
            }),
    {
        let mut cb = BaseConstraintBuilder::new();
        let index = cur(meta, self.index);
        cb.require_zero("index needs to start at 0", index);
        let is_code = cur(meta, self.is_code);
        cb.require_equal(
            "is_code needs to be 1 (first byte is always an opcode)",
            Expression::one(),
            is_code,
        );
        let byte = cur(meta, self.byte);
        let hash_rlc = cur(meta, self.hash_rlc);
        cb.require_equal("hash_rlc needs to start at byte", byte, hash_rlc);
        // Conditions:
        // - Not continuing
        let q_enable = meta.query_selector(self.q_enable);
        let q_continue = self.q_continue(meta);
        let constraints = cb.gate(and(vec![q_enable, not(q_continue)]));
        meta.create_gate("start", constraints);
        proof {
            reveal(Config::gate_is);
            let gate = meta.gates@.last();
            assert(gate.names() =~= seq![
                "index needs to start at 0"@,
                "is_code needs to be 1 (first byte is always an opcode)"@,
                "hash_rlc needs to start at byte"@,
            ]);
            assert forall|t: Table, i: int| #[trigger]
                gate.values(t, i) == start_values(F::modulus(), self.row(t, i), self.row(t, i - 1)) by {
                assert(gate.values(t, i) =~= start_values(F::modulus(), self.row(t, i), self.row(t, i - 1)));
            }
        }
    }

    /// Whether `gate` is the one named "length needs to be correct".
    pub open spec fn is_length_gate(self, gate: Gate<F>) -> bool {
        self.gate_is(
            gate,
            "length needs to be correct"@,
            seq![
                "index + 1 needs to equal hash_length"@,
            ],
            |cur: CircuitRow, prev: CircuitRow| length_values(F::modulus(), cur),
        )
    }

    /// The cells that gate "length needs to be correct" queries.
    pub open spec fn length_queries(self) -> Seq<(AdviceColumn, Rotation)> {
        Seq::empty()
            .push(at_cur(self.index))
            .push(at_cur(self.hash_length))
            .push(at_cur(self.is_final))
            .push(at_cur(self.padding))
    }

    /// Adds gate "length needs to be correct".
    fn length_gate(&self, meta: &mut ConstraintSystem<F>)
        ensures
            self.is_length_gate(final(meta).gates@.last()),
            final(meta).gates@ == old(meta).gates@.push(final(meta).gates@.last()),
            final(meta).advice_queries@ == with_queries(
                old(meta).advice_queries@,
                self.length_queries(),
            ),
            *final(meta) == (ConstraintSystem {
                advice_queries: final(meta).advice_queries,
                gates: final(meta).gates,
                ..*old(meta)
            }),
    {
        let mut cb = BaseConstraintBuilder::new();
        let index = cur(meta, self.index);
        let hash_length = cur(meta, self.hash_length);
        cb.require_equal(
            "index + 1 needs to equal hash_length",
            index.plus(Expression::one()),
            hash_length,
        );
        // Conditions:
        // - On the row with the last byte (`is_final == 1`)
        // - Not padding
        let q_enable = meta.query_selector(self.q_enable);
        let is_final = cur(meta, self.is_final);
        let padding = cur(meta, self.padding);
        let constraints = cb.gate(and(vec![q_enable, is_final, not(padding)]));
        meta.create_gate("length needs to be correct", constraints);
        proof {
            reveal(Config::gate_is);
            let gate = meta.gates@.last();
            assert(gate.names() =~= seq![
                "index + 1 needs to equal hash_length"@,
            ]);
            assert forall|t: Table, i: int| #[trigger]
                gate.values(t, i) == length_values(F::modulus(), self.row(t, i)) by {
                assert(gate.values(t, i) =~= length_values(F::modulus(), self.row(t, i)));
            }
        }
    }

    /// Whether `gate` is the one named "always".
    pub open spec fn is_always_gate(self, gate: Gate<F>) -> bool {
        self.gate_is(
            gate,
            "always"@,
            seq![
                "is_final needs to be boolean"@,
                "padding needs to be boolean"@,
                "push_rindex := is_code ? byte_push_size : push_rindex_prev - 1"@,
            ],
            |cur: CircuitRow, prev: CircuitRow| always_values(F::modulus(), cur, prev),
        )
    }

    /// The cells that gate "always" queries.
    pub open spec fn always_queries(self) -> Seq<(AdviceColumn, Rotation)> {
        Seq::empty()
            .push(at_cur(self.is_final))
            .push(at_cur(self.padding))
            .push(at_cur(self.push_rindex))
            .push(at_cur(self.is_code))
            .push(at_cur(self.byte_push_size))
            .push(at_prev(self.push_rindex))
    }

    /// Adds gate "always".
    fn always_gate(&self, meta: &mut ConstraintSystem<F>)
        ensures
            self.is_always_gate(final(meta).gates@.last()),
            final(meta).gates@ == old(meta).gates@.push(final(meta).gates@.last()),
            final(meta).advice_queries@ == with_queries(
                old(meta).advice_queries@,
                self.always_queries(),
            ),
            *final(meta) == (ConstraintSystem {
                advice_queries: final(meta).advice_queries,
                gates: final(meta).gates,
                ..*old(meta)
            }),
    {
        let mut cb = BaseConstraintBuilder::new();
        let is_final = cur(meta, self.is_final);
        cb.require_boolean("is_final needs to be boolean", is_final);
        let padding = cur(meta, self.padding);
        cb.require_boolean("padding needs to be boolean", padding);
        let push_rindex = cur(meta, self.push_rindex);
        let is_code = cur(meta, self.is_code);
        let byte_push_size = cur(meta, self.byte_push_size);
        let push_rindex_prev = prev(meta, self.push_rindex);
        cb.require_equal(
            "push_rindex := is_code ? byte_push_size : push_rindex_prev - 1",
            push_rindex,
            select(is_code, byte_push_size, push_rindex_prev.minus(Expression::one())),
        );
        // Conditions: Always
        let constraints = cb.gate(meta.query_selector(self.q_enable));
        meta.create_gate("always", constraints);
        proof {
            reveal(Config::gate_is);
            let gate = meta.gates@.last();
            assert(gate.names() =~= seq![
                "is_final needs to be boolean"@,
                "padding needs to be boolean"@,
                "push_rindex := is_code ? byte_push_size : push_rindex_prev - 1"@,
            ]);
            assert forall|t: Table, i: int| #[trigger]
                gate.values(t, i) == always_values(F::modulus(), self.row(t, i), self.row(t, i - 1)) by {
                assert(gate.values(t, i) =~= always_values(F::modulus(), self.row(t, i), self.row(t, i - 1)));
            }
        }
    }

    /// Whether `gate` is the one named "padding".
    pub open spec fn is_padding_gate(self, gate: Gate<F>) -> bool {
        self.gate_is(
            gate,
            "padding"@,
            seq![
                "padding can only go 0 -> 1 once"@,
            ],
            |cur: CircuitRow, prev: CircuitRow| padding_values(F::modulus(), cur, prev),
        )
    }

    /// The cells that gate "padding" queries.
    pub open spec fn padding_queries(self) -> Seq<(AdviceColumn, Rotation)> {
        Seq::empty()
            .push(at_cur(self.padding))
            .push(at_prev(self.padding))
    }

    /// Adds gate "padding".
    fn padding_gate(&self, meta: &mut ConstraintSystem<F>)
        ensures
            self.is_padding_gate(final(meta).gates@.last()),
            final(meta).gates@ == old(meta).gates@.push(final(meta).gates@.last()),
            final(meta).advice_queries@ == with_queries(
                old(meta).advice_queries@,
                self.padding_queries(),
            ),
            *final(meta) == (ConstraintSystem {
                advice_queries: final(meta).advice_queries,
                gates: final(meta).gates,
                ..*old(meta)
            }),
    {
        let mut cb = BaseConstraintBuilder::new();
        let padding = cur(meta, self.padding);
        let padding_prev = prev(meta, self.padding);
        cb.require_boolean("padding can only go 0 -> 1 once", padding.minus(padding_prev));
        // Conditions:
        // - Not on the first row
        let q_enable = meta.query_selector(self.q_enable);
        let q_first = meta.query_fixed(self.q_first, Rotation::cur());
        let constraints = cb.gate(and(vec![q_enable, not(q_first)]));
        meta.create_gate("padding", constraints);
        proof {
            reveal(Config::gate_is);
            let gate = meta.gates@.last();
            assert(gate.names() =~= seq![
                "padding can only go 0 -> 1 once"@,
            ]);
            assert forall|t: Table, i: int| #[trigger]
                gate.values(t, i) == padding_values(F::modulus(), self.row(t, i), self.row(t, i - 1)) by {
                assert(gate.values(t, i) =~= padding_values(F::modulus(), self.row(t, i), self.row(t, i - 1)));
            }
        }
    }

    /// Whether `gate` is the one named "last row".
    pub open spec fn is_last_row_gate(self, gate: Gate<F>) -> bool {
        self.gate_is(
            gate,
            "last row"@,
            seq![
                "padding needs to be enabled OR the last row needs to be the last byte"@,
            ],
            |cur: CircuitRow, prev: CircuitRow| last_row_values(F::modulus(), cur),
        )
    }

    /// The cells that gate "last row" queries.
    pub open spec fn last_row_queries(self) -> Seq<(AdviceColumn, Rotation)> {
        Seq::empty()
            .push(at_cur(self.padding))
            .push(at_cur(self.is_final))
    }

    /// Adds gate "last row".
    fn last_row_gate(&self, meta: &mut ConstraintSystem<F>)
        ensures
            self.is_last_row_gate(final(meta).gates@.last()),
            final(meta).gates@ == old(meta).gates@.push(final(meta).gates@.last()),
            final(meta).advice_queries@ == with_queries(
                old(meta).advice_queries@,
                self.last_row_queries(),
            ),
            *final(meta) == (ConstraintSystem {
                advice_queries: final(meta).advice_queries,
                gates: final(meta).gates,
                ..*old(meta)
            }),
    {
        let mut cb = BaseConstraintBuilder::new();
        let padding = cur(meta, self.padding);
        let is_final = cur(meta, self.is_final);
        cb.require_equal(
            "padding needs to be enabled OR the last row needs to be the last byte",
            or(vec![padding, is_final]),
            Expression::one(),
        );
        // Conditions:
        // - On the last row
        let constraints = cb.gate(meta.query_selector(self.q_last));
        meta.create_gate("last row", constraints);
        proof {
            reveal(Config::gate_is);
            let gate = meta.gates@.last();
            assert(gate.names() =~= seq![
                "padding needs to be enabled OR the last row needs to be the last byte"@,
            ]);
            assert forall|t: Table, i: int| #[trigger]
                gate.values(t, i) == last_row_values(F::modulus(), self.row(t, i)) by {
                assert(gate.values(t, i) =~= last_row_values(F::modulus(), self.row(t, i)));
            }
        }
    }

    /// Whether `gate` is the one of the inverses.
    pub open spec fn is_is_zero_gate(self, gate: Gate<F>) -> bool {
        self.gate_is(
            gate,
            "is_zero gate"@,
            seq![""@],
            |cur: CircuitRow, prev: CircuitRow| is_zero_values(F::modulus(), cur, prev),
        )
    }

    /// The cells that the `is_zero` gate queries.
    pub open spec fn is_zero_queries(self) -> Seq<(AdviceColumn, Rotation)> {
        Seq::empty()
            .push(at_prev(self.push_rindex))
            .push(at_cur(self.push_rindex_inv))
    }

    /// Whether a lookup has this name, looks up these values of a row, and finds them in
    /// these entries.
    #[verifier::opaque]
    pub open spec fn lookup_is(
        self,
        lookup: Lookup<F>,
        name: Seq<char>,
        inputs: spec_fn(CircuitRow) -> Seq<int>,
        entry: spec_fn(Table, int) -> Seq<int>,
    ) -> bool {
        &&& lookup.name@ == name
        &&& forall|t: Table, i: int| #[trigger] lookup.inputs(t, i) == inputs(self.row(t, i))
        &&& forall|t: Table, j: int| #[trigger] lookup.entry(t, j) == entry(t, j)
    }

    /// Whether the lookup of the push sizes is `lookup`.
    pub open spec fn is_push_lookup(self, lookup: Lookup<F>) -> bool {
        self.lookup_is(
            lookup,
            "Range bytes"@,
            |cur: CircuitRow| push_inputs(F::modulus(), cur),
            |t: Table, j: int| self.push_entry(t, j),
        )
    }

    /// The cells that the lookup of the push sizes queries.
    pub open spec fn push_queries(self) -> Seq<(AdviceColumn, Rotation)> {
        Seq::empty()
            .push(at_cur(self.byte))
            .push(at_cur(self.byte_push_size))
    }

    /// Adds the lookup of how many bytes the current opcode pushes
    /// (also indirectly range checks `byte` to be in [0, 255]).
    fn push_lookup(&self, meta: &mut ConstraintSystem<F>)
        ensures
            self.is_push_lookup(final(meta).lookups@.last()),
            final(meta).lookups@ == old(meta).lookups@.push(final(meta).lookups@.last()),
            final(meta).advice_queries@ == with_queries(
                old(meta).advice_queries@,
                self.push_queries(),
            ),
            *final(meta) == (ConstraintSystem {
                advice_queries: final(meta).advice_queries,
                lookups: final(meta).lookups,
                ..*old(meta)
            }),
    {
        // Conditions: Always
        let q_enable = meta.query_selector(self.q_enable);
        let mut columns: Vec<(Expression<F>, Expression<F>)> = Vec::new();
        let byte = cur(meta, self.byte);
        let table_byte = meta.query_fixed(self.push_table[0], Rotation::cur());
        columns.push((q_enable.clone().times(byte), table_byte));
        let byte_push_size = cur(meta, self.byte_push_size);
        let table_push_size = meta.query_fixed(self.push_table[1], Rotation::cur());
        columns.push((q_enable.times(byte_push_size), table_push_size));
        meta.lookup_any("Range bytes", columns);
        proof {
            reveal(Config::lookup_is);
            let lookup = meta.lookups@.last();
            assert forall|t: Table, i: int| #[trigger]
                lookup.inputs(t, i) == push_inputs(F::modulus(), self.row(t, i)) by {
                assert(lookup.inputs(t, i) =~= push_inputs(F::modulus(), self.row(t, i)));
            }
            assert forall|t: Table, j: int| #[trigger]
                lookup.entry(t, j) == self.push_entry(t, j) by {
                assert(lookup.entry(t, j) =~= self.push_entry(t, j));
            }
        }
    }

    /// Whether the lookup of the hashes is `lookup`.
    pub open spec fn is_keccak_lookup(self, lookup: Lookup<F>) -> bool {
        self.lookup_is(
            lookup,
            "keccak"@,
            |cur: CircuitRow| keccak_inputs(F::modulus(), cur),
            |t: Table, j: int| self.keccak_entry(t, j),
        )
    }

    /// The cells that the lookup of the hashes queries.
    pub open spec fn keccak_queries(self) -> Seq<(AdviceColumn, Rotation)> {
        Seq::empty()
            .push(at_cur(self.is_final))
            .push(at_cur(self.padding))
            .push(at_cur(self.hash_rlc))
            .push(at_cur(self.keccak_table[0]))
            .push(at_cur(self.hash_length))
            .push(at_cur(self.keccak_table[1]))
            .push(at_cur(self.hash))
            .push(at_cur(self.keccak_table[2]))
    }

    /// Adds the lookup of the hashes.
    fn keccak_lookup(&self, meta: &mut ConstraintSystem<F>)
        ensures
            self.is_keccak_lookup(final(meta).lookups@.last()),
            final(meta).lookups@ == old(meta).lookups@.push(final(meta).lookups@.last()),
            final(meta).advice_queries@ == with_queries(
                old(meta).advice_queries@,
                self.keccak_queries(),
            ),
            *final(meta) == (ConstraintSystem {
                advice_queries: final(meta).advice_queries,
                lookups: final(meta).lookups,
                ..*old(meta)
            }),
    {
        // Conditions:
        // - On the row with the last byte (`is_final == 1`)
        // - Not padding
        let is_final = cur(meta, self.is_final);
        let padding = cur(meta, self.padding);
        let enable = and(vec![is_final, not(padding)]);
        let mut columns: Vec<(Expression<F>, Expression<F>)> = Vec::new();
        let hash_rlc = cur(meta, self.hash_rlc);
        let table_rlc = cur(meta, self.keccak_table[0]);
        columns.push((enable.clone().times(hash_rlc), table_rlc));
        let hash_length = cur(meta, self.hash_length);
        let table_length = cur(meta, self.keccak_table[1]);
        columns.push((enable.clone().times(hash_length), table_length));
        let hash = cur(meta, self.hash);
        let table_hash = cur(meta, self.keccak_table[2]);
        columns.push((enable.times(hash), table_hash));
        meta.lookup_any("keccak", columns);
        proof {
            reveal(Config::lookup_is);
            let lookup = meta.lookups@.last();
            assert forall|t: Table, i: int| #[trigger]
                lookup.inputs(t, i) == keccak_inputs(F::modulus(), self.row(t, i)) by {
                assert(lookup.inputs(t, i) =~= keccak_inputs(F::modulus(), self.row(t, i)));
            }
            assert forall|t: Table, j: int| #[trigger]
                lookup.entry(t, j) == self.keccak_entry(t, j) by {
                assert(lookup.entry(t, j) =~= self.keccak_entry(t, j));
            }
        }
    }

    /// The cells that all gates and lookups query.
    pub open spec fn queries(self) -> Seq<(AdviceColumn, Rotation)> {
        self.is_zero_queries() + self.continue_queries() + self.start_queries()
            + self.length_queries() + self.always_queries() + self.padding_queries()
            + self.last_row_queries() + self.push_queries() + self.keccak_queries()
    }

    /// Whether the columns are the first after those of `before`.
    pub open spec fn follows(self, before: ConstraintSystem<F>) -> bool {
        let s = before.num_selectors;
        let f = before.num_fixed_columns;
        let a = before.num_advice_columns;
        &&& self.q_enable.index == s && !self.q_enable.simple
        &&& self.q_last.index == s + 1 && self.q_last.simple
        &&& self.q_first.index == f
        &&& self.push_table[0].index == f + 1
        &&& self.push_table[1].index == f + 2
        &&& self.hash.index == a
        &&& self.index.index == a + 1
        &&& self.is_code.index == a + 2
        &&& self.byte.index == a + 3
        &&& self.push_rindex.index == a + 4
        &&& self.hash_rlc.index == a + 5
        &&& self.hash_length.index == a + 6
        &&& self.byte_push_size.index == a + 7
        &&& self.is_final.index == a + 8
        &&& self.padding.index == a + 9
        &&& self.push_rindex_inv.index == a + 10
        &&& self.keccak_table[0].index == a + 11
        &&& self.keccak_table[1].index == a + 12
        &&& self.keccak_table[2].index == a + 13
    }

    /// Whether `after` is `before` with all gates and lookups of the circuit, but for the
    /// `is_zero` gate.
    spec fn gates_added(self, before: ConstraintSystem<F>, after: ConstraintSystem<F>) -> bool {
        let g = before.gates@.len() as int;
        let l = before.lookups@.len() as int;
        &&& after.num_selectors == before.num_selectors
        &&& after.num_fixed_columns == before.num_fixed_columns
        &&& after.num_advice_columns == before.num_advice_columns
        &&& after.gates@.len() == g + 6
        &&& after.gates@.take(g) == before.gates@
        &&& self.is_continue_gate(after.gates@[g])
        &&& self.is_start_gate(after.gates@[g + 1])
        &&& self.is_length_gate(after.gates@[g + 2])
        &&& self.is_always_gate(after.gates@[g + 3])
        &&& self.is_padding_gate(after.gates@[g + 4])
        &&& self.is_last_row_gate(after.gates@[g + 5])
        &&& after.lookups@.len() == l + 2
        &&& after.lookups@.take(l) == before.lookups@
        &&& self.is_push_lookup(after.lookups@[l])
        &&& self.is_keccak_lookup(after.lookups@[l + 1])
    }

    /// Whether `after` is `before` with the columns, gates and lookups of the circuit.
    pub open spec fn extends(
        self,
        before: ConstraintSystem<F>,
        after: ConstraintSystem<F>,
    ) -> bool {
        let g = before.gates@.len() as int;
        let l = before.lookups@.len() as int;
        &&& self.follows(before)
        &&& after.num_selectors == before.num_selectors + 2
        &&& after.num_fixed_columns == before.num_fixed_columns + 3
        &&& after.num_advice_columns == before.num_advice_columns + 14
        &&& after.advice_queries@ == with_queries(before.advice_queries@, self.queries())
        &&& after.gates@.len() == g + 7
        &&& after.gates@.take(g) == before.gates@
        &&& self.is_is_zero_gate(after.gates@[g])
        &&& self.is_continue_gate(after.gates@[g + 1])
        &&& self.is_start_gate(after.gates@[g + 2])
        &&& self.is_length_gate(after.gates@[g + 3])
        &&& self.is_always_gate(after.gates@[g + 4])
        &&& self.is_padding_gate(after.gates@[g + 5])
        &&& self.is_last_row_gate(after.gates@[g + 6])
        &&& after.lookups@.len() == l + 2
        &&& after.lookups@.take(l) == before.lookups@
        &&& self.is_push_lookup(after.lookups@[l])
        &&& self.is_keccak_lookup(after.lookups@[l + 1])
    }

    /// The number of rows that the circuit needs does not change what its columns are for.
    proof fn lemma_minimum_rows_apart(
        self,
        rows: usize,
        before: ConstraintSystem<F>,
        after: ConstraintSystem<F>,
    )
        requires
            self.shows_zero(),
            self.extends(before, after),
        ensures
            (Config { minimum_rows: rows, ..self }).shows_zero(),
            (Config { minimum_rows: rows, ..self }).extends(before, after),
    {
        reveal(Config::gate_is);
        reveal(Config::lookup_is);
        let other = Config { minimum_rows: rows, ..self };
        assert forall|t: Table, i: int| other.row(t, i) == #[trigger] self.row(t, i) by {}
    }

    /// Whether all gates of the circuit hold in row `i` of a table.
    pub open spec fn row_valid(self, t: Table, i: int) -> bool {
        row_holds(F::modulus(), self.r.value(), self.row(t, i), self.row(t, i - 1))
    }

    /// Whether the byte of row `i` is found in the table of push sizes.
    pub open spec fn push_found(self, t: Table, i: int) -> bool {
        exists|j: int|
            0 <= j < t.usable && push_inputs(F::modulus(), self.row(t, i))
                == #[trigger] self.push_entry(t, j)
    }

    /// Whether the hash of row `i` is found in the table of hashes.
    pub open spec fn keccak_found(self, t: Table, i: int) -> bool {
        exists|j: int|
            0 <= j < t.usable && keccak_inputs(F::modulus(), self.row(t, i))
                == #[trigger] self.keccak_entry(t, j)
    }

    /// Whether all gates and lookups of the circuit hold.
    pub open spec fn holds(self, t: Table) -> bool {
        &&& forall|i: int| 0 <= i < t.rows ==> #[trigger] self.row_valid(t, i)
        &&& forall|i: int| 0 <= i < t.usable ==> #[trigger] self.push_found(t, i)
        &&& forall|i: int| 0 <= i < t.usable ==> #[trigger] self.keccak_found(t, i)
    }

    /// A constraint system with the circuit in it is satisfied exactly where what was in it
    /// before is, and all gates and lookups of the circuit hold.
    pub proof fn lemma_satisfied(
        self,
        before: ConstraintSystem<F>,
        after: ConstraintSystem<F>,
        t: Table,
    )
        requires
            self.extends(before, after),
        ensures
            after.satisfied(t) <==> before.satisfied(t) && self.holds(t),
    {
        self.lemma_gates_satisfied(before, after, t);
        self.lemma_lookups_satisfied(before, after, t);
    }

    proof fn lemma_gates_satisfied(
        self,
        before: ConstraintSystem<F>,
        after: ConstraintSystem<F>,
        t: Table,
    )
        requires
            self.extends(before, after),
        ensures
            after.gates_hold(t) <==> before.gates_hold(t) && forall|i: int|
                0 <= i < t.rows ==> #[trigger] self.row_valid(t, i),
    {
        let n = before.gates@.len() as int;
        assert forall|g: int| 0 <= g < n implies before.gates@[g] == #[trigger] after.gates@[g] by {
            assert(after.gates@.take(n)[g] == after.gates@[g]);
        }
        assert forall|i: int|
            #[trigger] self.row_valid(t, i) <==> after.gates@[n].holds(t, i) && after.gates@[n
                + 1].holds(t, i) && after.gates@[n + 2].holds(t, i) && after.gates@[n + 3].holds(
                t,
                i,
            ) && after.gates@[n + 4].holds(t, i) && after.gates@[n + 5].holds(t, i)
                && after.gates@[n + 6].holds(t, i) by {
            reveal(Config::gate_is);
            let (cur, prev) = (self.row(t, i), self.row(t, i - 1));
            let p = F::modulus();
            assert(after.gates@[n].values(t, i) == is_zero_values(p, cur, prev));
            assert(after.gates@[n + 1].values(t, i) == continue_values(
                p,
                self.r.value(),
                cur,
                prev,
            ));
            assert(after.gates@[n + 2].values(t, i) == start_values(p, cur, prev));
            assert(after.gates@[n + 3].values(t, i) == length_values(p, cur));
            assert(after.gates@[n + 4].values(t, i) == always_values(p, cur, prev));
            assert(after.gates@[n + 5].values(t, i) == padding_values(p, cur, prev));
            assert(after.gates@[n + 6].values(t, i) == last_row_values(p, cur));
            assert forall|g: int| n <= g < n + 7 implies #[trigger] after.gates@[g].holds(t, i)
                == all_zero(after.gates@[g].values(t, i)) by {}
        }
        if after.gates_hold(t) {
            assert forall|g: int, i: int|
                0 <= g < n && 0 <= i < t.rows implies #[trigger] before.gates@[g].holds(t, i) by {
                assert(after.gates@[g].holds(t, i));
            }
        }
        if before.gates_hold(t) && forall|i: int|
            0 <= i < t.rows ==> #[trigger] self.row_valid(t, i) {
            assert forall|g: int, i: int|
                0 <= g < n + 7 && 0 <= i < t.rows implies #[trigger] after.gates@[g].holds(
                t,
                i,
            ) by {
                assert(self.row_valid(t, i));
                if g < n {
                    assert(before.gates@[g].holds(t, i));
                }
            }
        }
    }

    proof fn lemma_lookups_satisfied(
        self,
        before: ConstraintSystem<F>,
        after: ConstraintSystem<F>,
        t: Table,
    )
        requires
            self.extends(before, after),
        ensures
            after.lookups_hold(t) <==> before.lookups_hold(t) && (forall|i: int|
                0 <= i < t.usable ==> #[trigger] self.push_found(t, i)) && (forall|i: int|
                0 <= i < t.usable ==> #[trigger] self.keccak_found(t, i)),
    {
        let n = before.lookups@.len() as int;
        assert forall|l: int| 0 <= l < n implies before.lookups@[l]
            == #[trigger] after.lookups@[l] by {
            assert(after.lookups@.take(n)[l] == after.lookups@[l]);
        }
        assert forall|i: int| #[trigger]
            self.push_found(t, i) <==> after.lookups@[n].finds(t, i) by {
            reveal(Config::lookup_is);
            let lookup = after.lookups@[n];
            assert(forall|j: int| #[trigger] lookup.entry(t, j) == self.push_entry(t, j));
            assert(lookup.inputs(t, i) == push_inputs(F::modulus(), self.row(t, i)));
            if self.push_found(t, i) {
                let j = choose|j: int|
                    0 <= j < t.usable && push_inputs(F::modulus(), self.row(t, i))
                        == #[trigger] self.push_entry(t, j);
                assert(lookup.entry(t, j) == lookup.inputs(t, i));
            }
        }
        assert forall|i: int| #[trigger]
            self.keccak_found(t, i) <==> after.lookups@[n + 1].finds(t, i) by {
            reveal(Config::lookup_is);
            let lookup = after.lookups@[n + 1];
            assert(forall|j: int| #[trigger] lookup.entry(t, j) == self.keccak_entry(t, j));
            assert(lookup.inputs(t, i) == keccak_inputs(F::modulus(), self.row(t, i)));
            if self.keccak_found(t, i) {
                let j = choose|j: int|
                    0 <= j < t.usable && keccak_inputs(F::modulus(), self.row(t, i))
                        == #[trigger] self.keccak_entry(t, j);
                assert(lookup.entry(t, j) == lookup.inputs(t, i));
            }
        }
        if after.lookups_hold(t) {
            assert(after.lookups@[n].holds(t));
            assert(after.lookups@[n + 1].holds(t));
            assert forall|l: int| 0 <= l < n implies #[trigger] before.lookups@[l].holds(t) by {
                assert(after.lookups@[l].holds(t));
            }
            assert forall|i: int| 0 <= i < t.usable implies #[trigger] self.push_found(t, i) by {
                assert(after.lookups@[n].finds(t, i));
            }
            assert forall|i: int| 0 <= i < t.usable implies #[trigger] self.keccak_found(t, i) by {
                assert(after.lookups@[n + 1].finds(t, i));
            }
        }
        if before.lookups_hold(t) && (forall|i: int|
            0 <= i < t.usable ==> #[trigger] self.push_found(t, i)) && (forall|i: int|
            0 <= i < t.usable ==> #[trigger] self.keccak_found(t, i)) {
            assert forall|l: int| 0 <= l < n + 2 implies #[trigger] after.lookups@[l].holds(t) by {
                if l < n {
                    assert(before.lookups@[l].holds(t));
                } else {
                    assert forall|i: int| 0 <= i < t.usable implies #[trigger] after.lookups@[l].finds(
                        t,
                        i,
                    ) by {
                        assert(self.push_found(t, i));
                        assert(self.keccak_found(t, i));
                    }
                }
            }
        }
    }

    /// Adds the columns of the circuit and the `is_zero` gate.
    fn add_columns(meta: &mut ConstraintSystem<F>, r: F) -> (config: Self)
        requires
            old(meta).num_selectors + 2 <= usize::MAX,
            old(meta).num_fixed_columns + 3 <= usize::MAX,
            old(meta).num_advice_columns + 14 <= usize::MAX,
        ensures
            config.r == r,
            config.shows_zero(),
            config.follows(*old(meta)),
            config.is_is_zero_gate(final(meta).gates@.last()),
            final(meta).gates@ == old(meta).gates@.push(final(meta).gates@.last()),
            final(meta).advice_queries@ == with_queries(
                old(meta).advice_queries@,
                config.is_zero_queries(),
            ),
            *final(meta) == (ConstraintSystem {
                num_selectors: (old(meta).num_selectors + 2) as usize,
                num_fixed_columns: (old(meta).num_fixed_columns + 3) as usize,
                num_advice_columns: (old(meta).num_advice_columns + 14) as usize,
                advice_queries: final(meta).advice_queries,
                gates: final(meta).gates,
                ..*old(meta)
            }),
    {
        let q_enable = meta.complex_selector();
        let q_first = meta.fixed_column();
        let q_last = meta.selector();
        let hash = meta.advice_column();
        let index = meta.advice_column();
        let is_code = meta.advice_column();
        let byte = meta.advice_column();
        let push_rindex = meta.advice_column();
        let hash_rlc = meta.advice_column();
        let hash_length = meta.advice_column();
        let byte_push_size = meta.advice_column();
        let is_final = meta.advice_column();
        let padding = meta.advice_column();
        let push_rindex_inv = meta.advice_column();
        let push_table: [FixedColumn; PUSH_TABLE_WIDTH] = meta.fixed_columns();
        let keccak_table: [AdviceColumn; KECCAK_WIDTH] = meta.advice_columns();

        // A byte is an opcode when `push_rindex == 0` on the previous row,
        // else it's push data.
        // Conditions:
        // - Not on the first row
        let not_first = not(meta.query_fixed(q_first, Rotation::cur()));
        let enabled = meta.query_selector(q_enable).times(not_first);
        let push_rindex_prev = prev(meta, push_rindex);
        let push_rindex_is_zero = IsZeroChip::configure(
            meta,
            enabled,
            push_rindex_prev,
            push_rindex_inv,
        );
        let config = Config {
            r,
            minimum_rows: 0,
            q_enable,
            q_first,
            q_last,
            hash,
            index,
            is_code,
            byte,
            push_rindex,
            hash_rlc,
            hash_length,
            byte_push_size,
            is_final,
            padding,
            push_rindex_inv,
            push_rindex_is_zero,
            push_table,
            keccak_table,
        };
        proof {
            reveal(Config::gate_is);
            let gate = meta.gates@.last();
            assert forall|t: Table, i: int| #[trigger]
                gate.values(t, i) == is_zero_values(
                    F::modulus(),
                    config.row(t, i),
                    config.row(t, i - 1),
                ) by {}
        }
        config
    }

    /// Adds all gates and lookups of the circuit, but for the `is_zero` gate.
    fn add_gates(&self, meta: &mut ConstraintSystem<F>)
        requires
            self.shows_zero(),
        ensures
            self.gates_added(*old(meta), *final(meta)),
            forall|base: Seq<(AdviceColumn, Rotation)>|
                old(meta).advice_queries@ == with_queries(base, self.is_zero_queries())
                    ==> final(meta).advice_queries@ == #[trigger] with_queries(
                    base,
                    self.queries(),
                ),
    {
        self.continue_gate(meta);
        self.start_gate(meta);
        self.length_gate(meta);
        self.always_gate(meta);
        self.padding_gate(meta);
        // The hash is checked on the latest row because only then have
        // we accumulated all the bytes. We also have to go through the bytes
        // in a forward manner because that's the only way we can know which
        // bytes are op codes and which are push data.
        self.last_row_gate(meta);
        self.push_lookup(meta);
        self.keccak_lookup(meta);
        proof {
            assert(meta.gates@.take(old(meta).gates@.len() as int) =~= old(meta).gates@);
            assert(meta.lookups@.take(old(meta).lookups@.len() as int) =~= old(meta).lookups@);
            assert forall|base: Seq<(AdviceColumn, Rotation)>|
                old(meta).advice_queries@ == with_queries(
                    base,
                    self.is_zero_queries(),
                ) implies meta.advice_queries@ == #[trigger] with_queries(
                base,
                self.queries(),
            ) by {
                let l0 = self.is_zero_queries();
                let l1 = l0 + self.continue_queries();
                let l2 = l1 + self.start_queries();
                let l3 = l2 + self.length_queries();
                let l4 = l3 + self.always_queries();
                let l5 = l4 + self.padding_queries();
                let l6 = l5 + self.last_row_queries();
                let l7 = l6 + self.push_queries();
                lemma_with_queries_add(base, l0, self.continue_queries());
                lemma_with_queries_add(base, l1, self.start_queries());
                lemma_with_queries_add(base, l2, self.length_queries());
                lemma_with_queries_add(base, l3, self.always_queries());
                lemma_with_queries_add(base, l4, self.padding_queries());
                lemma_with_queries_add(base, l5, self.last_row_queries());
                lemma_with_queries_add(base, l6, self.push_queries());
                lemma_with_queries_add(base, l7, self.keccak_queries());
            }
        }
    }

    /// Adds the columns, gates and lookups of the circuit to a constraint system. Bytes are
    /// combined with powers of `r`.
    pub fn configure(meta: &mut ConstraintSystem<F>, r: F) -> (config: Self)
        requires
            old(meta).num_selectors + 2 <= usize::MAX,
            old(meta).num_fixed_columns + 3 <= usize::MAX,
            old(meta).num_advice_columns + 14 <= usize::MAX,
            old(meta).advice_queries@.len() + 49 <= usize::MAX,
        ensures
            config.r == r,
            config.shows_zero(),
            config.extends(*old(meta), *final(meta)),
            config.minimum_rows == final(meta).required_rows(),
    {
        let mut config = Self::add_columns(meta, r);
        let ghost with_columns = *meta;
        config.add_gates(meta);
        proof {
            let g = old(meta).gates@.len() as int;
            assert(meta.gates@.take(g) =~= with_columns.gates@.take(g));
            assert(with_columns.gates@.take(g) =~= old(meta).gates@);
            assert(meta.gates@[g] == meta.gates@.take(g + 1)[g]);
            assert(meta.advice_queries@ == with_queries(
                old(meta).advice_queries@,
                config.queries(),
            ));
            assert(config.extends(*old(meta), *meta));
            lemma_with_queries_length(old(meta).advice_queries@, config.queries());
        }
        let minimum_rows = meta.minimum_rows();
        proof {
            config.lemma_minimum_rows_apart(minimum_rows, *old(meta), *meta);
        }
        config.minimum_rows = minimum_rows;
        config
    }
}

} // verus!

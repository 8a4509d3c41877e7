//! The polynomials that the circuit puts on the cells of a row and of the row before it.

use crate::config::Config;
use crate::constraint_system::ConstraintSystem;
use crate::expression::Table;
use crate::field::{add_mod, mul_mod, sub_mod, Field};
use crate::rows::{
    always_values, boolean_value, continue_values, continuing, ending, is_zero_values,
    keccak_inputs, last_row_values, length_values, padding_values, prev_push_ended, push_inputs,
    start_values, CircuitRow,
};
use vstd::arithmetic::div_mod::{
    lemma_add_mod_noop, lemma_mod_twice, lemma_mul_mod_noop, lemma_sub_mod_noop,
};
use vstd::prelude::*;

verus! {

/// Whether two numbers are congruent.
spec fn same(p: int, x: int, y: int) -> bool {
    x % p == y % p
}

/// Congruent numbers have congruent products.
proof fn lemma_times(p: int, x: int, xx: int, y: int, yy: int)
    requires
        p > 1,
        same(p, x, xx),
        same(p, y, yy),
    ensures
        mul_mod(p, x, y) == (xx * yy) % p,
        same(p, mul_mod(p, x, y), xx * yy),
{
    lemma_mul_mod_noop(x, y, p);
    lemma_mul_mod_noop(xx, yy, p);
    lemma_mod_twice(x * y, p);
}

/// Congruent numbers have congruent sums.
proof fn lemma_plus(p: int, x: int, xx: int, y: int, yy: int)
    requires
        p > 1,
        same(p, x, xx),
        same(p, y, yy),
    ensures
        add_mod(p, x, y) == (xx + yy) % p,
        same(p, add_mod(p, x, y), xx + yy),
{
    lemma_add_mod_noop(x, y, p);
    lemma_add_mod_noop(xx, yy, p);
    lemma_mod_twice(x + y, p);
}

/// Congruent numbers have congruent differences.
proof fn lemma_minus(p: int, x: int, xx: int, y: int, yy: int)
    requires
        p > 1,
        same(p, x, xx),
        same(p, y, yy),
    ensures
        sub_mod(p, x, y) == (xx - yy) % p,
        same(p, sub_mod(p, x, y), xx - yy),
{
    lemma_sub_mod_noop(x, y, p);
    lemma_sub_mod_noop(xx, yy, p);
    lemma_mod_twice(x - y, p);
}

/// The value of the product of a selector and a difference.
proof fn lemma_selected(p: int, s: int, ss: int, x: int, xx: int, y: int, yy: int)
    requires
        p > 1,
        same(p, s, ss),
        same(p, x, xx),
        same(p, y, yy),
    ensures
        mul_mod(p, s, sub_mod(p, x, y)) == (ss * (xx - yy)) % p,
{
    lemma_minus(p, x, xx, y, yy);
    lemma_times(p, s, ss, sub_mod(p, x, y), xx - yy);
}

/// The value of the product of a number and what it lacks to 1.
proof fn lemma_boolean(p: int, x: int, xx: int)
    requires
        p > 1,
        same(p, x, xx),
    ensures
        same(p, boolean_value(p, x), xx * (1 - xx)),
{
    lemma_minus(p, 1, 1, x, xx);
    lemma_times(p, x, xx, sub_mod(p, 1, x), 1 - xx);
}

/// Whether a row goes on with a bytecode, as a polynomial.
proof fn lemma_going_on(p: int, cur: CircuitRow, prev: CircuitRow)
    requires
        p > 1,
    ensures
        same(p, continuing(p, cur, prev), (1 - cur.q_first) * (1 - prev.is_final)),
{
    lemma_minus(p, 1, 1, cur.q_first, cur.q_first);
    lemma_minus(p, 1, 1, prev.is_final, prev.is_final);
    lemma_times(
        p,
        sub_mod(p, 1, cur.q_first),
        1 - cur.q_first,
        sub_mod(p, 1, prev.is_final),
        1 - prev.is_final,
    );
}

/// Whether no data was left before a row, as a polynomial.
proof fn lemma_ended(p: int, cur: CircuitRow, prev: CircuitRow)
    requires
        p > 1,
    ensures
        same(p, prev_push_ended(p, cur, prev), 1 - prev.push_rindex * cur.push_rindex_inv),
        prev_push_ended(p, cur, prev) == (1 - prev.push_rindex * cur.push_rindex_inv) % p,
{
    lemma_times(p, prev.push_rindex, prev.push_rindex, cur.push_rindex_inv, cur.push_rindex_inv);
    lemma_minus(
        p,
        1,
        1,
        mul_mod(p, prev.push_rindex, cur.push_rindex_inv),
        prev.push_rindex * cur.push_rindex_inv,
    );
}

/// The values of gate "continue".
proof fn lemma_continue_polynomials(p: int, r: int, cur: CircuitRow, prev: CircuitRow)
    requires
        p > 1,
    ensures
        ({
            let s = cur.q_enable * ((1 - cur.q_first) * (1 - prev.is_final));
            let v = continue_values(p, r, cur, prev);
            &&& v.len() == 6
            &&& v[0] == (s * (cur.index - (prev.index + 1))) % p
            &&& v[1] == (s * (cur.is_code - (1 - prev.push_rindex * cur.push_rindex_inv))) % p
            &&& v[2] == (s * (cur.hash_rlc - (prev.hash_rlc * r + cur.byte))) % p
            &&& v[3] == (s * (cur.hash - prev.hash)) % p
            &&& v[4] == (s * (cur.hash_length - prev.hash_length)) % p
            &&& v[5] == (s * (cur.padding - prev.padding)) % p
        }),
{
    lemma_going_on(p, cur, prev);
    lemma_ended(p, cur, prev);
    let c = (1 - cur.q_first) * (1 - prev.is_final);
    lemma_times(p, cur.q_enable, cur.q_enable, continuing(p, cur, prev), c);
    let s = mul_mod(p, cur.q_enable, continuing(p, cur, prev));
    let ss = cur.q_enable * c;
    lemma_plus(p, prev.index, prev.index, 1, 1);
    lemma_selected(p, s, ss, cur.index, cur.index, add_mod(p, prev.index, 1), prev.index + 1);
    lemma_selected(
        p,
        s,
        ss,
        cur.is_code,
        cur.is_code,
        prev_push_ended(p, cur, prev),
        1 - prev.push_rindex * cur.push_rindex_inv,
    );
    lemma_times(p, prev.hash_rlc, prev.hash_rlc, r, r);
    lemma_plus(p, mul_mod(p, prev.hash_rlc, r), prev.hash_rlc * r, cur.byte, cur.byte);
    lemma_selected(
        p,
        s,
        ss,
        cur.hash_rlc,
        cur.hash_rlc,
        add_mod(p, mul_mod(p, prev.hash_rlc, r), cur.byte),
        prev.hash_rlc * r + cur.byte,
    );
    lemma_selected(p, s, ss, cur.hash, cur.hash, prev.hash, prev.hash);
    lemma_selected(p, s, ss, cur.hash_length, cur.hash_length, prev.hash_length, prev.hash_length);
    lemma_selected(p, s, ss, cur.padding, cur.padding, prev.padding, prev.padding);
}

/// The values of gates "is zero", "start" and "padding".
proof fn lemma_start_polynomials(p: int, cur: CircuitRow, prev: CircuitRow)
    requires
        p > 1,
    ensures
        ({
            let v = is_zero_values(p, cur, prev);
            &&& v.len() == 1
            &&& v[0] == (((cur.q_enable * (1 - cur.q_first)) * prev.push_rindex) * (1
                - prev.push_rindex * cur.push_rindex_inv)) % p
        }),
        ({
            let s = cur.q_enable * (1 - (1 - cur.q_first) * (1 - prev.is_final));
            let v = start_values(p, cur, prev);
            &&& v.len() == 3
            &&& v[0] == (s * cur.index) % p
            &&& v[1] == (s * (1 - cur.is_code)) % p
            &&& v[2] == (s * (cur.byte - cur.hash_rlc)) % p
        }),
        ({
            let v = padding_values(p, cur, prev);
            &&& v.len() == 1
            &&& v[0] == ((cur.q_enable * (1 - cur.q_first)) * ((cur.padding - prev.padding) * (1 - (
            cur.padding - prev.padding)))) % p
        }),
{
    lemma_going_on(p, cur, prev);
    lemma_ended(p, cur, prev);
    lemma_minus(p, 1, 1, cur.q_first, cur.q_first);
    lemma_times(p, cur.q_enable, cur.q_enable, sub_mod(p, 1, cur.q_first), 1 - cur.q_first);
    let n = mul_mod(p, cur.q_enable, sub_mod(p, 1, cur.q_first));
    let nn = cur.q_enable * (1 - cur.q_first);
    lemma_times(p, n, nn, prev.push_rindex, prev.push_rindex);
    lemma_times(
        p,
        mul_mod(p, n, prev.push_rindex),
        nn * prev.push_rindex,
        prev_push_ended(p, cur, prev),
        1 - prev.push_rindex * cur.push_rindex_inv,
    );
    let c = continuing(p, cur, prev);
    let cc = (1 - cur.q_first) * (1 - prev.is_final);
    lemma_minus(p, 1, 1, c, cc);
    lemma_times(p, cur.q_enable, cur.q_enable, sub_mod(p, 1, c), 1 - cc);
    let s = mul_mod(p, cur.q_enable, sub_mod(p, 1, c));
    let ss = cur.q_enable * (1 - cc);
    lemma_times(p, s, ss, cur.index, cur.index);
    lemma_selected(p, s, ss, 1, 1, cur.is_code, cur.is_code);
    lemma_selected(p, s, ss, cur.byte, cur.byte, cur.hash_rlc, cur.hash_rlc);
    lemma_minus(p, cur.padding, cur.padding, prev.padding, prev.padding);
    let d = sub_mod(p, cur.padding, prev.padding);
    lemma_boolean(p, d, cur.padding - prev.padding);
    lemma_times(
        p,
        n,
        nn,
        boolean_value(p, d),
        (cur.padding - prev.padding) * (1 - (cur.padding - prev.padding)),
    );
}

/// The values of gates "length", "always" and "last row", and what the lookups look up.
proof fn lemma_row_polynomials(p: int, cur: CircuitRow, prev: CircuitRow)
    requires
        p > 1,
    ensures
        ({
            let v = length_values(p, cur);
            &&& v.len() == 1
            &&& v[0] == (((cur.q_enable * cur.is_final) * (1 - cur.padding)) * ((cur.index + 1)
                - cur.hash_length)) % p
        }),
        ({
            let v = always_values(p, cur, prev);
            &&& v.len() == 3
            &&& v[0] == (cur.q_enable * (cur.is_final * (1 - cur.is_final))) % p
            &&& v[1] == (cur.q_enable * (cur.padding * (1 - cur.padding))) % p
            &&& v[2] == (cur.q_enable * (cur.push_rindex - (cur.is_code * cur.byte_push_size + (1
                - cur.is_code) * (prev.push_rindex - 1)))) % p
        }),
        ({
            let v = last_row_values(p, cur);
            &&& v.len() == 1
            &&& v[0] == (cur.q_last * ((1 - (1 - cur.padding) * (1 - cur.is_final)) - 1)) % p
        }),
        ({
            let v = push_inputs(p, cur);
            &&& v.len() == 2
            &&& v[0] == (cur.q_enable * cur.byte) % p
            &&& v[1] == (cur.q_enable * cur.byte_push_size) % p
        }),
        ({
            let v = keccak_inputs(p, cur);
            let s = cur.is_final * (1 - cur.padding);
            &&& v.len() == 3
            &&& v[0] == (s * cur.hash_rlc) % p
            &&& v[1] == (s * cur.hash_length) % p
            &&& v[2] == (s * cur.hash) % p
        }),
{
    let not_padding = sub_mod(p, 1, cur.padding);
    let not_final = sub_mod(p, 1, cur.is_final);
    lemma_minus(p, 1, 1, cur.padding, cur.padding);
    lemma_minus(p, 1, 1, cur.is_final, cur.is_final);
    // length
    lemma_times(p, cur.q_enable, cur.q_enable, cur.is_final, cur.is_final);
    let f = mul_mod(p, cur.q_enable, cur.is_final);
    let ff = cur.q_enable * cur.is_final;
    lemma_times(p, f, ff, not_padding, 1 - cur.padding);
    lemma_plus(p, cur.index, cur.index, 1, 1);
    lemma_selected(
        p,
        mul_mod(p, f, not_padding),
        ff * (1 - cur.padding),
        add_mod(p, cur.index, 1),
        cur.index + 1,
        cur.hash_length,
        cur.hash_length,
    );
    // always
    lemma_boolean(p, cur.is_final, cur.is_final);
    lemma_boolean(p, cur.padding, cur.padding);
    lemma_times(
        p,
        cur.q_enable,
        cur.q_enable,
        boolean_value(p, cur.is_final),
        cur.is_final * (1 - cur.is_final),
    );
    lemma_times(
        p,
        cur.q_enable,
        cur.q_enable,
        boolean_value(p, cur.padding),
        cur.padding * (1 - cur.padding),
    );
    lemma_times(p, cur.is_code, cur.is_code, cur.byte_push_size, cur.byte_push_size);
    lemma_minus(p, 1, 1, cur.is_code, cur.is_code);
    lemma_minus(p, prev.push_rindex, prev.push_rindex, 1, 1);
    lemma_times(
        p,
        sub_mod(p, 1, cur.is_code),
        1 - cur.is_code,
        sub_mod(p, prev.push_rindex, 1),
        prev.push_rindex - 1,
    );
    let on = mul_mod(p, cur.is_code, cur.byte_push_size);
    let off = mul_mod(p, sub_mod(p, 1, cur.is_code), sub_mod(p, prev.push_rindex, 1));
    let (onn, offf) = (
        cur.is_code * cur.byte_push_size,
        (1 - cur.is_code) * (prev.push_rindex - 1),
    );
    lemma_plus(p, on, onn, off, offf);
    lemma_selected(
        p,
        cur.q_enable,
        cur.q_enable,
        cur.push_rindex,
        cur.push_rindex,
        add_mod(p, on, off),
        onn + offf,
    );
    // last row
    lemma_times(p, not_padding, 1 - cur.padding, not_final, 1 - cur.is_final);
    let neither = (1 - cur.padding) * (1 - cur.is_final);
    lemma_minus(p, 1, 1, mul_mod(p, not_padding, not_final), neither);
    lemma_selected(
        p,
        cur.q_last,
        cur.q_last,
        sub_mod(p, 1, mul_mod(p, not_padding, not_final)),
        1 - neither,
        1,
        1,
    );
    // lookups
    lemma_times(p, cur.is_final, cur.is_final, not_padding, 1 - cur.padding);
    let (s, ss) = (ending(p, cur), cur.is_final * (1 - cur.padding));
    lemma_times(p, s, ss, cur.hash_rlc, cur.hash_rlc);
    lemma_times(p, s, ss, cur.hash_length, cur.hash_length);
    lemma_times(p, s, ss, cur.hash, cur.hash);
}

impl<F: Field> Config<F> {
    /// In every row of every table, the expressions of each gate have the values of these
    /// polynomials of the cells of the row and of the row before it, and each lookup looks these
    /// polynomials up among the cells of its table.
    pub proof fn lemma_polynomials(
        self,
        before: ConstraintSystem<F>,
        after: ConstraintSystem<F>,
        t: Table,
        i: int,
    )
        requires
            self.extends(before, after),
        ensures
            ({
                let (p, r) = (F::modulus(), self.r.value());
                let g = before.gates@.len() as int;
                let l = before.lookups@.len() as int;
                let enable = t.selector(self.q_enable, i);
                let first = t.fixed(self.q_first, i);
                let last = t.selector(self.q_last, i);
                let hash = t.advice(self.hash, i);
                let index = t.advice(self.index, i);
                let code = t.advice(self.is_code, i);
                let byte = t.advice(self.byte, i);
                let left = t.advice(self.push_rindex, i);
                let rlc = t.advice(self.hash_rlc, i);
                let length = t.advice(self.hash_length, i);
                let push = t.advice(self.byte_push_size, i);
                let end = t.advice(self.is_final, i);
                let pad = t.advice(self.padding, i);
                let inverse = t.advice(self.push_rindex_inv, i);
                let hash0 = t.advice(self.hash, i - 1);
                let index0 = t.advice(self.index, i - 1);
                let left0 = t.advice(self.push_rindex, i - 1);
                let rlc0 = t.advice(self.hash_rlc, i - 1);
                let length0 = t.advice(self.hash_length, i - 1);
                let end0 = t.advice(self.is_final, i - 1);
                let pad0 = t.advice(self.padding, i - 1);
                let on = enable * ((1 - first) * (1 - end0));
                let anew = enable * (1 - (1 - first) * (1 - end0));
                &&& after.gates@.len() == g + 7
                &&& after.gates@[g].values(t, i) == seq![
                    (((enable * (1 - first)) * left0) * (1 - left0 * inverse)) % p,
                ]
                &&& after.gates@[g + 1].values(t, i) == seq![
                    (on * (index - (index0 + 1))) % p,
                    (on * (code - (1 - left0 * inverse))) % p,
                    (on * (rlc - (rlc0 * r + byte))) % p,
                    (on * (hash - hash0)) % p,
                    (on * (length - length0)) % p,
                    (on * (pad - pad0)) % p,
                ]
                &&& after.gates@[g + 2].values(t, i) == seq![
                    (anew * index) % p,
                    (anew * (1 - code)) % p,
                    (anew * (byte - rlc)) % p,
                ]
                &&& after.gates@[g + 3].values(t, i) == seq![
                    (((enable * end) * (1 - pad)) * ((index + 1) - length)) % p,
                ]
                &&& after.gates@[g + 4].values(t, i) == seq![
                    (enable * (end * (1 - end))) % p,
                    (enable * (pad * (1 - pad))) % p,
                    (enable * (left - (code * push + (1 - code) * (left0 - 1)))) % p,
                ]
                &&& after.gates@[g + 5].values(t, i) == seq![
                    ((enable * (1 - first)) * ((pad - pad0) * (1 - (pad - pad0)))) % p,
                ]
                &&& after.gates@[g + 6].values(t, i) == seq![
                    (last * ((1 - (1 - pad) * (1 - end)) - 1)) % p,
                ]
                &&& after.lookups@.len() == l + 2
                &&& after.lookups@[l].inputs(t, i) == seq![(enable * byte) % p, (enable * push) % p]
                &&& after.lookups@[l].entry(t, i) == seq![
                    t.fixed(self.push_table[0], i),
                    t.fixed(self.push_table[1], i),
                ]
                &&& after.lookups@[l + 1].inputs(t, i) == seq![
                    ((end * (1 - pad)) * rlc) % p,
                    ((end * (1 - pad)) * length) % p,
                    ((end * (1 - pad)) * hash) % p,
                ]
                &&& after.lookups@[l + 1].entry(t, i) == seq![
                    t.advice(self.keccak_table[0], i),
                    t.advice(self.keccak_table[1], i),
                    t.advice(self.keccak_table[2], i),
                ]
            }),
    {
        reveal(Config::gate_is);
        reveal(Config::lookup_is);
        let (p, r) = (F::modulus(), self.r.value());
        F::lemma_modulus_exceeds_u64();
        let (cur, prev) = (self.row(t, i), self.row(t, i - 1));
        lemma_continue_polynomials(p, r, cur, prev);
        lemma_start_polynomials(p, cur, prev);
        lemma_row_polynomials(p, cur, prev);
        let g = before.gates@.len() as int;
        let l = before.lookups@.len() as int;
        assert(after.gates@[g].values(t, i) == is_zero_values(p, cur, prev));
        assert(after.gates@[g + 1].values(t, i) == continue_values(p, r, cur, prev));
        assert(after.gates@[g + 2].values(t, i) == start_values(p, cur, prev));
        assert(after.gates@[g + 3].values(t, i) == length_values(p, cur));
        assert(after.gates@[g + 4].values(t, i) == always_values(p, cur, prev));
        assert(after.gates@[g + 5].values(t, i) == padding_values(p, cur, prev));
        assert(after.gates@[g + 6].values(t, i) == last_row_values(p, cur));
        assert(after.lookups@[l].inputs(t, i) == push_inputs(p, cur));
        assert(after.lookups@[l].entry(t, i) == self.push_entry(t, i));
        assert(after.lookups@[l + 1].inputs(t, i) == keccak_inputs(p, cur));
        assert(after.lookups@[l + 1].entry(t, i) == self.keccak_entry(t, i));
    }

    /// The gates and lookups that the circuit adds, and their constraints, have these names.
    pub proof fn lemma_names(self, before: ConstraintSystem<F>, after: ConstraintSystem<F>)
        requires
            self.extends(before, after),
        ensures
            ({
                let g = before.gates@.len() as int;
                let l = before.lookups@.len() as int;
                &&& after.gates@[g].name@ == "is_zero gate"@
                &&& after.gates@[g].constraints@[0].0@ == ""@
                &&& after.gates@[g + 1].name@ == "continue"@
                &&& after.gates@[g + 1].constraints@[0].0@ == "index needs to increase by 1"@
                &&& after.gates@[g + 1].constraints@[1].0@ == "is_code := push_rindex_prev == 0"@
                &&& after.gates@[g + 1].constraints@[2].0@ == "hash_rlc := hash_rlc_prev * r + byte"@
                &&& after.gates@[g + 1].constraints@[3].0@ == "hash needs to remain the same"@
                &&& after.gates@[g + 1].constraints@[4].0@ == "hash_length needs to remain the same"@
                &&& after.gates@[g + 1].constraints@[5].0@ == "padding needs to remain the same"@
                &&& after.gates@[g + 2].name@ == "start"@
                &&& after.gates@[g + 2].constraints@[0].0@ == "index needs to start at 0"@
                &&& after.gates@[g + 2].constraints@[1].0@ == "is_code needs to be 1 (first byte is always an opcode)"@
                &&& after.gates@[g + 2].constraints@[2].0@ == "hash_rlc needs to start at byte"@
                &&& after.gates@[g + 3].name@ == "length needs to be correct"@
                &&& after.gates@[g + 3].constraints@[0].0@ == "index + 1 needs to equal hash_length"@
                &&& after.gates@[g + 4].name@ == "always"@
                &&& after.gates@[g + 4].constraints@[0].0@ == "is_final needs to be boolean"@
                &&& after.gates@[g + 4].constraints@[1].0@ == "padding needs to be boolean"@
                &&& after.gates@[g + 4].constraints@[2].0@ == "push_rindex := is_code ? byte_push_size : push_rindex_prev - 1"@
                &&& after.gates@[g + 5].name@ == "padding"@
                &&& after.gates@[g + 5].constraints@[0].0@ == "padding can only go 0 -> 1 once"@
                &&& after.gates@[g + 6].name@ == "last row"@
                &&& after.gates@[g + 6].constraints@[0].0@ == "padding needs to be enabled OR the last row needs to be the last byte"@
                &&& after.lookups@[l].name@ == "Range bytes"@
                &&& after.lookups@[l + 1].name@ == "keccak"@
            }),
    {
        reveal(Config::gate_is);
        reveal(Config::lookup_is);
        let g = before.gates@.len() as int;
        assert forall|n: int, k: int|
            g <= n < g + 7 && 0 <= k < (#[trigger] after.gates@[n]).names().len() implies (
        #[trigger] after.gates@[n].constraints@[k]).0@ == after.gates@[n].names()[k] by {}
    }

    /// The expression of the inverses is 1 minus the product of the number of data bytes left
    /// before the row and the cell of the inverse.
    pub proof fn lemma_shown_zero(self, t: Table, i: int)
        requires
            self.shows_zero(),
        ensures
            self.push_rindex_is_zero.value_inv == self.push_rindex_inv,
            self.push_rindex_is_zero.is_zero_expression.eval(t, i) == (1 - t.advice(
                self.push_rindex,
                i - 1,
            ) * t.advice(self.push_rindex_inv, i)) % F::modulus(),
    {
        F::lemma_modulus_exceeds_u64();
        lemma_ended(F::modulus(), self.row(t, i), self.row(t, i - 1));
    }
}

} // verus!

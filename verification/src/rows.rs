//! The rows of the bytecode circuit, and what its gates require of them.

use crate::field::{add_mod, is_prime, lemma_no_zero_divisors, mul_mod, sub_mod};
use vstd::arithmetic::div_mod::{lemma_mod_add_multiples_vanish, lemma_mod_bound, lemma_small_mod};
use vstd::prelude::*;

verus! {

/// The cells of one row of the circuit, without those of the two tables.
pub struct CircuitRow {
    pub q_enable: int,
    pub q_first: int,
    pub q_last: int,
    pub hash: int,
    pub index: int,
    pub is_code: int,
    pub byte: int,
    pub push_rindex: int,
    pub hash_rlc: int,
    pub hash_length: int,
    pub byte_push_size: int,
    pub is_final: int,
    pub padding: int,
    pub push_rindex_inv: int,
}

/// 1 where the push index of the previous row is 0, and 0 where the cell of the inverse
/// holds its inverse.
pub open spec fn prev_push_ended(p: int, cur: CircuitRow, prev: CircuitRow) -> int {
    sub_mod(p, 1, mul_mod(p, prev.push_rindex, cur.push_rindex_inv))
}

/// 1 where the row continues the bytecode of the previous row.
pub open spec fn continuing(p: int, cur: CircuitRow, prev: CircuitRow) -> int {
    mul_mod(p, sub_mod(p, 1, cur.q_first), sub_mod(p, 1, prev.is_final))
}

/// 1 where the row is the last of a bytecode.
pub open spec fn ending(p: int, cur: CircuitRow) -> int {
    mul_mod(p, cur.is_final, sub_mod(p, 1, cur.padding))
}

/// What the `is_zero` gate requires to be 0.
pub open spec fn is_zero_values(p: int, cur: CircuitRow, prev: CircuitRow) -> Seq<int> {
    let s = mul_mod(p, cur.q_enable, sub_mod(p, 1, cur.q_first));
    seq![mul_mod(p, mul_mod(p, s, prev.push_rindex), prev_push_ended(p, cur, prev))]
}

/// What gate "continue" requires to be 0.
pub open spec fn continue_values(p: int, r: int, cur: CircuitRow, prev: CircuitRow) -> Seq<int> {
    let s = mul_mod(p, cur.q_enable, continuing(p, cur, prev));
    seq![
        mul_mod(p, s, sub_mod(p, cur.index, add_mod(p, prev.index, 1))),
        mul_mod(p, s, sub_mod(p, cur.is_code, prev_push_ended(p, cur, prev))),
        mul_mod(
            p,
            s,
            sub_mod(p, cur.hash_rlc, add_mod(p, mul_mod(p, prev.hash_rlc, r), cur.byte)),
        ),
        mul_mod(p, s, sub_mod(p, cur.hash, prev.hash)),
        mul_mod(p, s, sub_mod(p, cur.hash_length, prev.hash_length)),
        mul_mod(p, s, sub_mod(p, cur.padding, prev.padding)),
    ]
}

/// What gate "start" requires to be 0.
pub open spec fn start_values(p: int, cur: CircuitRow, prev: CircuitRow) -> Seq<int> {
    let s = mul_mod(p, cur.q_enable, sub_mod(p, 1, continuing(p, cur, prev)));
    seq![
        mul_mod(p, s, cur.index),
        mul_mod(p, s, sub_mod(p, 1, cur.is_code)),
        mul_mod(p, s, sub_mod(p, cur.byte, cur.hash_rlc)),
    ]
}

/// What gate "length needs to be correct" requires to be 0.
pub open spec fn length_values(p: int, cur: CircuitRow) -> Seq<int> {
    let s = mul_mod(p, mul_mod(p, cur.q_enable, cur.is_final), sub_mod(p, 1, cur.padding));
    seq![mul_mod(p, s, sub_mod(p, add_mod(p, cur.index, 1), cur.hash_length))]
}

/// 0 where `x` is 0 or 1.
pub open spec fn boolean_value(p: int, x: int) -> int {
    mul_mod(p, x, sub_mod(p, 1, x))
}

/// What gate "always" requires to be 0.
pub open spec fn always_values(p: int, cur: CircuitRow, prev: CircuitRow) -> Seq<int> {
    let push_rindex = add_mod(
        p,
        mul_mod(p, cur.is_code, cur.byte_push_size),
        mul_mod(p, sub_mod(p, 1, cur.is_code), sub_mod(p, prev.push_rindex, 1)),
    );
    seq![
        mul_mod(p, cur.q_enable, boolean_value(p, cur.is_final)),
        mul_mod(p, cur.q_enable, boolean_value(p, cur.padding)),
        mul_mod(p, cur.q_enable, sub_mod(p, cur.push_rindex, push_rindex)),
    ]
}

/// What gate "padding" requires to be 0.
pub open spec fn padding_values(p: int, cur: CircuitRow, prev: CircuitRow) -> Seq<int> {
    let s = mul_mod(p, cur.q_enable, sub_mod(p, 1, cur.q_first));
    seq![mul_mod(p, s, boolean_value(p, sub_mod(p, cur.padding, prev.padding)))]
}

/// What gate "last row" requires to be 0.
pub open spec fn last_row_values(p: int, cur: CircuitRow) -> Seq<int> {
    let either = sub_mod(
        p,
        1,
        mul_mod(p, sub_mod(p, 1, cur.padding), sub_mod(p, 1, cur.is_final)),
    );
    seq![mul_mod(p, cur.q_last, sub_mod(p, either, 1))]
}

/// What a row looks up in the table of push sizes.
pub open spec fn push_inputs(p: int, cur: CircuitRow) -> Seq<int> {
    seq![mul_mod(p, cur.q_enable, cur.byte), mul_mod(p, cur.q_enable, cur.byte_push_size)]
}

/// What a row looks up in the table of hashes.
pub open spec fn keccak_inputs(p: int, cur: CircuitRow) -> Seq<int> {
    let s = ending(p, cur);
    seq![mul_mod(p, s, cur.hash_rlc), mul_mod(p, s, cur.hash_length), mul_mod(p, s, cur.hash)]
}

/// Whether numbers are all 0.
pub open spec fn all_zero(values: Seq<int>) -> bool {
    forall|k: int| 0 <= k < values.len() ==> #[trigger] values[k] == 0
}

/// Whether all gates hold in a row.
pub open spec fn row_holds(p: int, r: int, cur: CircuitRow, prev: CircuitRow) -> bool {
    &&& all_zero(is_zero_values(p, cur, prev))
    &&& all_zero(continue_values(p, r, cur, prev))
    &&& all_zero(start_values(p, cur, prev))
    &&& all_zero(length_values(p, cur))
    &&& all_zero(always_values(p, cur, prev))
    &&& all_zero(padding_values(p, cur, prev))
    &&& all_zero(last_row_values(p, cur))
}

/// Whether a number is 0 or 1.
pub open spec fn is_bit(x: int) -> bool {
    x == 0 || x == 1
}

/// Whether a row carries on the bytecode of the previous row.
pub open spec fn continues(p: int, r: int, cur: CircuitRow, prev: CircuitRow) -> bool {
    &&& cur.index == add_mod(p, prev.index, 1)
    &&& cur.is_code == if prev.push_rindex == 0 {
        1int
    } else {
        0int
    }
    &&& cur.hash_rlc == add_mod(p, mul_mod(p, prev.hash_rlc, r), cur.byte)
    &&& cur.hash == prev.hash
    &&& cur.hash_length == prev.hash_length
    &&& cur.padding == prev.padding
}

/// Whether a row starts a bytecode.
pub open spec fn starts(cur: CircuitRow) -> bool {
    &&& cur.index == 0
    &&& cur.is_code == 1
    &&& cur.hash_rlc == cur.byte
}

/// Whether a row may stand after the previous row: the first row starts a bytecode, and so does
/// a row after the last byte of one; every other row carries on. Padding does not end, and the
/// last row holds a last byte or padding.
pub open spec fn row_follows(p: int, r: int, cur: CircuitRow, prev: CircuitRow) -> bool {
    let first = cur.q_first == 1;
    &&& cur.q_enable == 1 ==> {
        &&& is_bit(cur.is_final)
        &&& is_bit(cur.padding)
        &&& if first || prev.is_final == 1 {
            starts(cur)
        } else {
            continues(p, r, cur, prev)
        }
        &&& cur.push_rindex == if cur.is_code == 1 {
            cur.byte_push_size
        } else {
            sub_mod(p, prev.push_rindex, 1)
        }
        &&& cur.is_final == 1 && cur.padding == 0 ==> add_mod(p, cur.index, 1) == cur.hash_length
        &&& !first && prev.push_rindex != 0 ==> mul_mod(
            p,
            prev.push_rindex,
            cur.push_rindex_inv,
        ) == 1
        &&& !first && prev.padding == 1 ==> cur.padding == 1
    }
    &&& cur.q_last == 1 ==> cur.padding == 1 || cur.is_final == 1
}

/// Whether the cells that choose rows are 0 or 1.
pub open spec fn marked(row: CircuitRow) -> bool {
    &&& is_bit(row.q_enable)
    &&& is_bit(row.q_first)
    &&& is_bit(row.q_last)
}

/// Whether the other cells of a row are elements of the field of `p` elements.
pub open spec fn in_field(p: int, row: CircuitRow) -> bool {
    &&& 0 <= row.hash < p
    &&& 0 <= row.index < p
    &&& 0 <= row.is_code < p
    &&& 0 <= row.byte < p
    &&& 0 <= row.push_rindex < p
    &&& 0 <= row.hash_rlc < p
    &&& 0 <= row.hash_length < p
    &&& 0 <= row.byte_push_size < p
    &&& 0 <= row.is_final < p
    &&& 0 <= row.padding < p
    &&& 0 <= row.push_rindex_inv < p
}

/// A difference is 0 exactly where two numbers are equal.
proof fn lemma_equal(p: int, a: int, b: int)
    requires
        p > 1,
        0 <= a < p,
        0 <= b < p,
    ensures
        sub_mod(p, a, b) == 0 <==> a == b,
        0 <= sub_mod(p, a, b) < p,
{
    lemma_mod_bound(a - b, p);
    if a >= b {
        lemma_small_mod((a - b) as nat, p as nat);
    } else {
        lemma_mod_add_multiples_vanish(a - b, p);
        lemma_small_mod((p + a - b) as nat, p as nat);
    }
}

/// A factor of 0 or 1 switches a number off or on.
pub proof fn lemma_switched(p: int, bit: int, x: int)
    requires
        p > 1,
        is_bit(bit),
        0 <= x < p,
    ensures
        mul_mod(p, bit, x) == if bit == 1 {
            x
        } else {
            0int
        },
        sub_mod(p, 1, bit) == 1 - bit,
{
    lemma_small_mod(x as nat, p as nat);
    lemma_small_mod(0, p as nat);
    lemma_small_mod(1, p as nat);
}

/// The product of a number and what it lacks to 1 is 0 exactly where it is 0 or 1.
proof fn lemma_boolean(p: int, x: int)
    requires
        is_prime(p),
        0 <= x < p,
    ensures
        boolean_value(p, x) == 0 <==> is_bit(x),
        0 <= boolean_value(p, x) < p,
{
    lemma_equal(p, 1, x);
    lemma_mod_bound(x * sub_mod(p, 1, x), p);
    if boolean_value(p, x) == 0 {
        lemma_no_zero_divisors(p, x, sub_mod(p, 1, x));
    }
    if is_bit(x) {
        lemma_switched(p, x, sub_mod(p, 1, x));
    }
}

/// Whether the previous row tells what the current one is: in the first row it does not matter,
/// and in the others the cells that mark last bytes and padding are 0 or 1.
pub open spec fn prev_in_use(cur: CircuitRow, prev: CircuitRow) -> bool {
    cur.q_enable == 1 && cur.q_first == 0 ==> is_bit(prev.is_final) && is_bit(prev.padding)
}

/// A value is required to be 0 where its gate is switched on.
proof fn lemma_required(p: int, s: int, x: int)
    requires
        p > 1,
        is_bit(s),
        0 <= x < p,
    ensures
        mul_mod(p, s, x) == 0 <==> (s == 1 ==> x == 0),
{
    lemma_switched(p, s, x);
}

/// Where the row continues the bytecode of the previous row.
proof fn lemma_continuing(p: int, cur: CircuitRow, prev: CircuitRow)
    requires
        p > 1,
        marked(cur),
        in_field(p, cur),
        in_field(p, prev),
        prev_in_use(cur, prev),
    ensures
        0 <= continuing(p, cur, prev) < p,
        cur.q_enable == 1 ==> continuing(p, cur, prev) == if cur.q_first == 1 || prev.is_final
            == 1 {
            0int
        } else {
            1int
        },
        mul_mod(p, cur.q_enable, continuing(p, cur, prev)) == if cur.q_enable == 0 || cur.q_first
            == 1 || prev.is_final == 1 {
            0int
        } else {
            1int
        },
        cur.q_enable == 1 ==> mul_mod(p, 1, sub_mod(p, 1, continuing(p, cur, prev))) == if cur.q_first
            == 1 || prev.is_final == 1 {
            1int
        } else {
            0int
        },
        cur.q_enable == 0 ==> mul_mod(p, 0, sub_mod(p, 1, continuing(p, cur, prev))) == 0,
{
    let c = continuing(p, cur, prev);
    lemma_equal(p, 1, prev.is_final);
    lemma_mod_bound(sub_mod(p, 1, cur.q_first) * sub_mod(p, 1, prev.is_final), p);
    lemma_switched(p, cur.q_first, 0);
    lemma_switched(p, 1 - cur.q_first, sub_mod(p, 1, prev.is_final));
    lemma_switched(p, cur.q_enable, c);
    lemma_equal(p, 1, c);
    lemma_switched(p, cur.q_enable, sub_mod(p, 1, c));
    if cur.q_enable == 1 {
        if cur.q_first == 0 {
            lemma_switched(p, prev.is_final, 0);
        }
        lemma_switched(p, c, 0);
    }
}

/// Where the row is not the first.
proof fn lemma_not_first(p: int, cur: CircuitRow)
    requires
        p > 1,
        marked(cur),
        in_field(p, cur),
    ensures
        mul_mod(p, cur.q_enable, sub_mod(p, 1, cur.q_first)) == if cur.q_enable == 1 && cur.q_first
            == 0 {
            1int
        } else {
            0int
        },
{
    lemma_switched(p, cur.q_first, 0);
    lemma_switched(p, cur.q_enable, 1 - cur.q_first);
}

/// What the `is_zero` gate means: the expression of the inverses is 1 where the push index
/// of the previous row is 0, and 0 elsewhere.
proof fn lemma_is_zero_gate(p: int, cur: CircuitRow, prev: CircuitRow)
    requires
        is_prime(p),
        marked(cur),
        in_field(p, cur),
        in_field(p, prev),
    ensures
        0 <= prev_push_ended(p, cur, prev) < p,
        prev.push_rindex == 0 ==> prev_push_ended(p, cur, prev) == 1,
        prev.push_rindex != 0 ==> (prev_push_ended(p, cur, prev) == 0 <==> mul_mod(
            p,
            prev.push_rindex,
            cur.push_rindex_inv,
        ) == 1),
        all_zero(is_zero_values(p, cur, prev)) <==> (cur.q_enable == 1 && cur.q_first == 0
            && prev.push_rindex != 0 ==> mul_mod(p, prev.push_rindex, cur.push_rindex_inv) == 1),
{
    let s = mul_mod(p, cur.q_enable, sub_mod(p, 1, cur.q_first));
    let product = mul_mod(p, prev.push_rindex, cur.push_rindex_inv);
    let ended = prev_push_ended(p, cur, prev);
    lemma_not_first(p, cur);
    lemma_mod_bound(prev.push_rindex * cur.push_rindex_inv, p);
    lemma_equal(p, 1, product);
    lemma_switched(p, 0, cur.push_rindex_inv);
    lemma_switched(p, 0, 0);
    lemma_switched(p, s, prev.push_rindex);
    let x = mul_mod(p, s, prev.push_rindex);
    assert(is_zero_values(p, cur, prev)[0] == mul_mod(p, x, ended));
    if mul_mod(p, x, ended) == 0 {
        lemma_no_zero_divisors(p, x, ended);
    }
    if x == 0 {
        lemma_switched(p, 0, ended);
    }
    if ended == 0 {
        assert(x * ended == 0) by (nonlinear_arith)
            requires
                ended == 0,
        ;
        lemma_small_mod(0, p as nat);
    }
}

/// What gate "continue" means.
proof fn lemma_continue_gate(p: int, r: int, cur: CircuitRow, prev: CircuitRow)
    requires
        is_prime(p),
        marked(cur),
        in_field(p, cur),
        in_field(p, prev),
        prev_in_use(cur, prev),
        all_zero(is_zero_values(p, cur, prev)),
    ensures
        all_zero(continue_values(p, r, cur, prev)) <==> (cur.q_enable == 1 && cur.q_first == 0
            && prev.is_final == 0 ==> continues(p, r, cur, prev)),
{
    let s = mul_mod(p, cur.q_enable, continuing(p, cur, prev));
    let ended = prev_push_ended(p, cur, prev);
    let index = add_mod(p, prev.index, 1);
    let rlc = add_mod(p, mul_mod(p, prev.hash_rlc, r), cur.byte);
    lemma_continuing(p, cur, prev);
    lemma_is_zero_gate(p, cur, prev);
    lemma_mod_bound(prev.index + 1, p);
    lemma_mod_bound(mul_mod(p, prev.hash_rlc, r) + cur.byte, p);
    lemma_equal(p, cur.index, index);
    lemma_equal(p, cur.is_code, ended);
    lemma_equal(p, cur.hash_rlc, rlc);
    lemma_equal(p, cur.hash, prev.hash);
    lemma_equal(p, cur.hash_length, prev.hash_length);
    lemma_equal(p, cur.padding, prev.padding);
    lemma_required(p, s, sub_mod(p, cur.index, index));
    lemma_required(p, s, sub_mod(p, cur.is_code, ended));
    lemma_required(p, s, sub_mod(p, cur.hash_rlc, rlc));
    lemma_required(p, s, sub_mod(p, cur.hash, prev.hash));
    lemma_required(p, s, sub_mod(p, cur.hash_length, prev.hash_length));
    lemma_required(p, s, sub_mod(p, cur.padding, prev.padding));
    let values = continue_values(p, r, cur, prev);
    assert(all_zero(values) <==> (values[0] == 0 && values[1] == 0 && values[2] == 0 && values[3]
        == 0 && values[4] == 0 && values[5] == 0));
}

/// What gate "start" means.
proof fn lemma_start_gate(p: int, cur: CircuitRow, prev: CircuitRow)
    requires
        is_prime(p),
        marked(cur),
        in_field(p, cur),
        in_field(p, prev),
        prev_in_use(cur, prev),
    ensures
        all_zero(start_values(p, cur, prev)) <==> (cur.q_enable == 1 && (cur.q_first == 1
            || prev.is_final == 1) ==> starts(cur)),
{
    let s = mul_mod(p, cur.q_enable, sub_mod(p, 1, continuing(p, cur, prev)));
    lemma_continuing(p, cur, prev);
    lemma_equal(p, 1, cur.is_code);
    lemma_equal(p, cur.byte, cur.hash_rlc);
    lemma_required(p, s, cur.index);
    lemma_required(p, s, sub_mod(p, 1, cur.is_code));
    lemma_required(p, s, sub_mod(p, cur.byte, cur.hash_rlc));
    let values = start_values(p, cur, prev);
    assert(all_zero(values) <==> (values[0] == 0 && values[1] == 0 && values[2] == 0));
}

/// What gate "length needs to be correct" means.
proof fn lemma_length_gate(p: int, cur: CircuitRow)
    requires
        is_prime(p),
        marked(cur),
        in_field(p, cur),
        cur.q_enable == 1 ==> is_bit(cur.is_final) && is_bit(cur.padding),
    ensures
        all_zero(length_values(p, cur)) <==> (cur.q_enable == 1 && cur.is_final == 1 && cur.padding
            == 0 ==> add_mod(p, cur.index, 1) == cur.hash_length),
{
    let final_here = mul_mod(p, cur.q_enable, cur.is_final);
    let s = mul_mod(p, final_here, sub_mod(p, 1, cur.padding));
    let x = sub_mod(p, add_mod(p, cur.index, 1), cur.hash_length);
    lemma_switched(p, cur.q_enable, cur.is_final);
    lemma_equal(p, 1, cur.padding);
    lemma_switched(p, final_here, sub_mod(p, 1, cur.padding));
    if cur.q_enable == 1 {
        lemma_switched(p, cur.padding, 0);
    }
    lemma_mod_bound(cur.index + 1, p);
    lemma_equal(p, add_mod(p, cur.index, 1), cur.hash_length);
    lemma_required(p, s, x);
    assert(length_values(p, cur)[0] == mul_mod(p, s, x));
}

/// What gate "always" means, of a row where the mark of opcodes is 0 or 1.
proof fn lemma_always_gate(p: int, cur: CircuitRow, prev: CircuitRow)
    requires
        is_prime(p),
        marked(cur),
        in_field(p, cur),
        in_field(p, prev),
        cur.q_enable == 1 ==> is_bit(cur.is_code),
    ensures
        all_zero(always_values(p, cur, prev)) <==> (cur.q_enable == 1 ==> {
            &&& is_bit(cur.is_final)
            &&& is_bit(cur.padding)
            &&& cur.push_rindex == if cur.is_code == 1 {
                cur.byte_push_size
            } else {
                sub_mod(p, prev.push_rindex, 1)
            }
        }),
{
    let less = sub_mod(p, prev.push_rindex, 1);
    let on = mul_mod(p, cur.is_code, cur.byte_push_size);
    let off = mul_mod(p, sub_mod(p, 1, cur.is_code), less);
    let chosen = add_mod(p, on, off);
    lemma_boolean(p, cur.is_final);
    lemma_boolean(p, cur.padding);
    lemma_equal(p, prev.push_rindex, 1);
    lemma_mod_bound(on + off, p);
    lemma_equal(p, cur.push_rindex, chosen);
    if cur.q_enable == 1 {
        lemma_switched(p, cur.is_code, cur.byte_push_size);
        lemma_switched(p, 1 - cur.is_code, less);
        lemma_small_mod(cur.byte_push_size as nat, p as nat);
        lemma_small_mod(less as nat, p as nat);
    }
    lemma_required(p, cur.q_enable, boolean_value(p, cur.is_final));
    lemma_required(p, cur.q_enable, boolean_value(p, cur.padding));
    lemma_required(p, cur.q_enable, sub_mod(p, cur.push_rindex, chosen));
    let values = always_values(p, cur, prev);
    assert(all_zero(values) <==> (values[0] == 0 && values[1] == 0 && values[2] == 0));
}

/// What gate "padding" means, of a row where the marks of padding are 0 or 1.
proof fn lemma_padding_gate(p: int, cur: CircuitRow, prev: CircuitRow)
    requires
        is_prime(p),
        p > 3,
        marked(cur),
        in_field(p, cur),
        in_field(p, prev),
        prev_in_use(cur, prev),
        cur.q_enable == 1 ==> is_bit(cur.padding),
    ensures
        all_zero(padding_values(p, cur, prev)) <==> (cur.q_enable == 1 && cur.q_first == 0
            && prev.padding == 1 ==> cur.padding == 1),
{
    let s = mul_mod(p, cur.q_enable, sub_mod(p, 1, cur.q_first));
    let step = sub_mod(p, cur.padding, prev.padding);
    lemma_not_first(p, cur);
    lemma_equal(p, cur.padding, prev.padding);
    lemma_boolean(p, step);
    lemma_required(p, s, boolean_value(p, step));
    assert(padding_values(p, cur, prev)[0] == mul_mod(p, s, boolean_value(p, step)));
    if cur.q_enable == 1 && cur.q_first == 0 {
        if prev.padding == 1 && cur.padding == 0 {
            lemma_mod_add_multiples_vanish(-1, p);
            lemma_small_mod((p - 1) as nat, p as nat);
        } else {
            lemma_small_mod((cur.padding - prev.padding) as nat, p as nat);
        }
    }
}

/// What gate "last row" means.
proof fn lemma_last_row_gate(p: int, cur: CircuitRow)
    requires
        is_prime(p),
        marked(cur),
        in_field(p, cur),
    ensures
        all_zero(last_row_values(p, cur)) <==> (cur.q_last == 1 ==> cur.padding == 1
            || cur.is_final == 1),
{
    let (a, b) = (sub_mod(p, 1, cur.padding), sub_mod(p, 1, cur.is_final));
    let neither = mul_mod(p, a, b);
    let either = sub_mod(p, 1, neither);
    lemma_equal(p, 1, cur.padding);
    lemma_equal(p, 1, cur.is_final);
    lemma_mod_bound(a * b, p);
    lemma_equal(p, 1, neither);
    lemma_equal(p, either, 1);
    lemma_required(p, cur.q_last, sub_mod(p, either, 1));
    assert(last_row_values(p, cur)[0] == mul_mod(p, cur.q_last, sub_mod(p, either, 1)));
    if neither == 0 {
        lemma_no_zero_divisors(p, a, b);
        lemma_small_mod(1, p as nat);
    } else if neither != 1 {
        lemma_small_mod((1 + p - neither) as nat, p as nat);
        lemma_mod_add_multiples_vanish(1 - neither, p);
    }
    if a == 0 || b == 0 {
        assert(a * b == 0) by (nonlinear_arith)
            requires
                a == 0 || b == 0,
        ;
        lemma_small_mod(0, p as nat);
    }
}

/// All gates hold in a row exactly where it follows the previous row as [`row_follows`] says.
pub proof fn lemma_row_holds(p: int, r: int, cur: CircuitRow, prev: CircuitRow)
    requires
        is_prime(p),
        p > 3,
        marked(cur),
        in_field(p, cur),
        in_field(p, prev),
        prev_in_use(cur, prev),
    ensures
        row_holds(p, r, cur, prev) <==> row_follows(p, r, cur, prev),
{
    lemma_is_zero_gate(p, cur, prev);
    if all_zero(is_zero_values(p, cur, prev)) {
        lemma_continue_gate(p, r, cur, prev);
    }
    lemma_start_gate(p, cur, prev);
    lemma_last_row_gate(p, cur);
    let marked = cur.q_enable == 1 ==> is_bit(cur.is_code);
    if marked {
        lemma_always_gate(p, cur, prev);
        if cur.q_enable == 1 ==> is_bit(cur.is_final) && is_bit(cur.padding) {
            lemma_length_gate(p, cur);
            lemma_padding_gate(p, cur, prev);
        }
    }
}

} // verus!

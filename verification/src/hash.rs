//! Byte strings as field elements: their combinations with powers of a field element,
//! and the combination of their Keccak-256 digests.

use crate::field::{add_mod, mul_mod, Field};
use vstd::arithmetic::div_mod::{
    lemma_add_mod_noop_right, lemma_mul_mod_noop_left, lemma_small_mod,
};
use vstd::arithmetic::power::{lemma_pow0, pow};
use vstd::prelude::*;

verus! {

/// The combination of numbers with the powers of `r`, modulo `p`; the last number goes
/// with the power 0.
pub open spec fn combine(p: int, r: int, numbers: Seq<int>) -> int
    decreases numbers.len(),
{
    if numbers.len() == 0 {
        0
    } else {
        add_mod(p, mul_mod(p, combine(p, r, numbers.drop_last()), r), numbers.last())
    }
}

/// Bytes as numbers.
pub open spec fn as_numbers(bytes: Seq<u8>) -> Seq<int> {
    bytes.map_values(|b: u8| b as int)
}

/// The combination of bytes, of which the last goes with the power 0 of `r`.
pub fn encode<F: Field>(bytes: &[u8], r: F) -> (rlc: F)
    ensures
        rlc.value() == combine(F::modulus(), r.value(), as_numbers(bytes@)),
        rlc.value() == Seq::new(
            bytes@.len(),
            |k: int| bytes@[k] * pow(r.value(), (bytes@.len() - 1 - k) as nat),
        ).fold_left(0int, |sum: int, x: int| sum + x) % F::modulus(),
{
    let mut rlc = F::zero();
    let mut k: usize = 0;
    while k < bytes.len()
        invariant
            k <= bytes@.len(),
            rlc.value() == combine(F::modulus(), r.value(), as_numbers(bytes@.take(k as int))),
        decreases bytes@.len() - k,
    {
        rlc = rlc.mul(&r).add(&F::from_u64(bytes[k] as u64));
        k = k + 1;
        proof {
            let numbers = as_numbers(bytes@.take(k as int));
            assert(numbers.drop_last() =~= as_numbers(bytes@.take(k - 1)));
        }
    }
    proof {
        assert(bytes@.take(k as int) =~= bytes@);
        F::lemma_modulus_exceeds_u64();
        lemma_byte_combination_is_sum(F::modulus(), r.value(), bytes@);
    }
    rlc
}

/// The combination of bytes, of which the last goes with the power 0 of `r`.
pub fn linear_combine<F: Field>(bytes: Vec<u8>, r: F) -> (rlc: F)
    ensures
        rlc.value() == combine(F::modulus(), r.value(), as_numbers(bytes@)),
        rlc.value() == Seq::new(
            bytes@.len(),
            |k: int| bytes@[k] * pow(r.value(), (bytes@.len() - 1 - k) as nat),
        ).fold_left(0int, |sum: int, x: int| sum + x) % F::modulus(),
{
    encode(bytes.as_slice(), r)
}

/// The combination of bytes, of which the first goes with the power 0 of `r`.
pub fn random_linear_combine<F: Field>(bytes: &[u8], r: F) -> (rlc: F)
    ensures
        rlc.value() == combine(F::modulus(), r.value(), as_numbers(bytes@.reverse())),
        rlc.value() == Seq::new(
            bytes@.len(),
            |k: int| bytes@[k] * pow(r.value(), k as nat),
        ).fold_left(0int, |sum: int, x: int| sum + x) % F::modulus(),
{
    let mut rlc = F::zero();
    let mut k: usize = bytes.len();
    while k > 0
        invariant
            k <= bytes@.len(),
            rlc.value() == combine(
                F::modulus(),
                r.value(),
                as_numbers(bytes@.skip(k as int).reverse()),
            ),
        decreases k,
    {
        k = k - 1;
        rlc = rlc.mul(&r).add(&F::from_u64(bytes[k] as u64));
        proof {
            let numbers = as_numbers(bytes@.skip(k as int).reverse());
            assert(numbers.drop_last() =~= as_numbers(bytes@.skip(k + 1).reverse()));
        }
    }
    proof {
        assert(bytes@.skip(0) =~= bytes@);
        F::lemma_modulus_exceeds_u64();
        lemma_reversed_combination_is_sum(F::modulus(), r.value(), bytes@);
    }
    rlc
}

/// The Keccak-256 digest of a message.
pub uninterp spec fn keccak256_digest(msg: Seq<u8>) -> Seq<u8>;

/// `sha3::Keccak256::digest`: the digest is a function of the message, and has 32 bytes.
/// Which bytes they are is not stated.
#[verifier::external_body]
fn keccak256(msg: &[u8]) -> (digest: Vec<u8>)
    ensures
        digest@ == keccak256_digest(msg@),
        digest@.len() == 32,
{
    <sha3::Keccak256 as sha3::Digest>::digest(msg).to_vec()
}

/// The digest of a message as a field element.
pub open spec fn hash_number(p: int, r: int, msg: Seq<u8>) -> int {
    combine(p, r, as_numbers(keccak256_digest(msg).reverse()))
}

/// The combination of the bytes of the Keccak-256 digest of a message, of which the first
/// goes with the power 0 of `r`.
pub fn keccak<F: Field>(msg: &[u8], r: F) -> (hash: F)
    ensures
        hash.value() == hash_number(F::modulus(), r.value(), msg@),
        keccak256_digest(msg@).len() == 32,
        hash.value() == Seq::new(
            32,
            |k: int| keccak256_digest(msg@)[k] * pow(r.value(), k as nat),
        ).fold_left(0int, |sum: int, x: int| sum + x) % F::modulus(),
{
    random_linear_combine(keccak256(msg).as_slice(), r)
}

/// The sum of numbers that are `r` times others.
proof fn lemma_scaled_sum(a: Seq<int>, b: Seq<int>, r: int)
    requires
        a.len() == b.len(),
        forall|k: int| 0 <= k < a.len() ==> #[trigger] b[k] == a[k] * r,
    ensures
        b.fold_left(0int, |sum: int, x: int| sum + x) == a.fold_left(
            0int,
            |sum: int, x: int| sum + x,
        ) * r,
    decreases a.len(),
{
    if a.len() > 0 {
        lemma_scaled_sum(a.drop_last(), b.drop_last(), r);
        let rest = a.drop_last().fold_left(0int, |sum: int, x: int| sum + x);
        let x = a.last();
        assert(b.last() == x * r);
        assert((rest + x) * r == rest * r + x * r) by (nonlinear_arith);
    }
}

/// The combination of numbers is the sum of each times a power of `r`, the power 0 for the last
/// number, 1 for the one before it, and so on.
pub proof fn lemma_combination_is_sum(p: int, r: int, numbers: Seq<int>)
    requires
        p > 1,
    ensures
        combine(p, r, numbers) == Seq::new(
            numbers.len(),
            |k: int| numbers[k] * pow(r, (numbers.len() - 1 - k) as nat),
        ).fold_left(0int, |sum: int, x: int| sum + x) % p,
    decreases numbers.len(),
{
    let n = numbers.len();
    let terms = Seq::new(n, |k: int| numbers[k] * pow(r, (n - 1 - k) as nat));
    if n == 0 {
        assert(0int % p == 0) by {
            lemma_small_mod(0, p as nat);
        }
    } else {
        let fewer = numbers.drop_last();
        let before = Seq::new(
            fewer.len(),
            |k: int| fewer[k] * pow(r, (fewer.len() - 1 - k) as nat),
        );
        lemma_combination_is_sum(p, r, fewer);
        let s = before.fold_left(0int, |sum: int, x: int| sum + x);
        assert forall|k: int| 0 <= k < before.len() implies #[trigger] terms.drop_last()[k]
            == before[k] * r by {
            reveal(pow);
            let e = (n - 2 - k) as nat;
            let (x, w) = (numbers[k], pow(r, e));
            assert(pow(r, (n - 1 - k) as nat) == r * w);
            assert(x * (r * w) == (x * w) * r) by (nonlinear_arith);
        }
        lemma_scaled_sum(before, terms.drop_last(), r);
        lemma_pow0(r);
        let x = numbers.last();
        assert(terms.last() == x * 1);
        // ((s % p * r) % p + x) % p == (s * r + x) % p
        lemma_mul_mod_noop_left(s, r, p);
        lemma_add_mod_noop_right(x, s * r, p);
        lemma_add_mod_noop_right(x, (s % p) * r, p);
    }
}

/// The combination of bytes is the sum of each times a power of `r`, the power 0 for the last byte,
/// 1 for the one before it, and so on.
pub proof fn lemma_byte_combination_is_sum(p: int, r: int, bytes: Seq<u8>)
    requires
        p > 1,
    ensures
        combine(p, r, as_numbers(bytes)) == Seq::new(
            bytes.len(),
            |k: int| bytes[k] * pow(r, (bytes.len() - 1 - k) as nat),
        ).fold_left(0int, |sum: int, x: int| sum + x) % p,
{
    let numbers = as_numbers(bytes);
    lemma_combination_is_sum(p, r, numbers);
    assert(Seq::new(
        bytes.len(),
        |k: int| bytes[k] * pow(r, (bytes.len() - 1 - k) as nat),
    ) =~= Seq::new(
        numbers.len(),
        |k: int| numbers[k] * pow(r, (numbers.len() - 1 - k) as nat),
    ));
}

/// A sum does not depend on the order of its terms: it is the same from the last to the first.
proof fn lemma_sum_reversed(a: Seq<int>)
    ensures
        a.reverse().fold_left(0int, |sum: int, x: int| sum + x) == a.fold_left(
            0int,
            |sum: int, x: int| sum + x,
        ),
    decreases a.len(),
{
    if a.len() > 0 {
        let fewer = a.drop_last();
        lemma_sum_reversed(fewer);
        // the last term comes first
        let back = a.reverse();
        assert(back =~= seq![a.last()] + fewer.reverse());
        lemma_first_term(a.last(), fewer.reverse());
    } else {
        assert(a.reverse() =~= a);
    }
}

/// A first term adds to the sum of the others.
proof fn lemma_first_term(x: int, rest: Seq<int>)
    ensures
        (seq![x] + rest).fold_left(0int, |sum: int, y: int| sum + y) == x + rest.fold_left(
            0int,
            |sum: int, y: int| sum + y,
        ),
    decreases rest.len(),
{
    let all = seq![x] + rest;
    if rest.len() > 0 {
        lemma_first_term(x, rest.drop_last());
        assert(all.drop_last() =~= seq![x] + rest.drop_last());
    } else {
        assert(all.drop_last() =~= Seq::<int>::empty());
        assert(all.drop_last().fold_left(0int, |sum: int, y: int| sum + y) == 0);
    }
}

/// The combination of reversed bytes is the sum of each byte times the power of `r` that is its
/// position.
pub proof fn lemma_reversed_combination_is_sum(p: int, r: int, bytes: Seq<u8>)
    requires
        p > 1,
    ensures
        combine(p, r, as_numbers(bytes.reverse())) == Seq::new(
            bytes.len(),
            |k: int| bytes[k] * pow(r, k as nat),
        ).fold_left(0int, |sum: int, x: int| sum + x) % p,
{
    let back = bytes.reverse();
    lemma_byte_combination_is_sum(p, r, back);
    let terms = Seq::new(bytes.len(), |k: int| bytes[k] * pow(r, k as nat));
    lemma_sum_reversed(terms);
    assert(terms.reverse() =~= Seq::new(
        back.len(),
        |k: int| back[k] * pow(r, (back.len() - 1 - k) as nat),
    ));
}

/// The hash of a message, whatever its length, is the sum of each byte of the Keccak-256 digest of
/// all of it times the power of `r` that is the position of the byte.
pub proof fn lemma_hash_is_sum(p: int, r: int, msg: Seq<u8>)
    requires
        p > 1,
    ensures
        hash_number(p, r, msg) == Seq::new(
            keccak256_digest(msg).len(),
            |k: int| keccak256_digest(msg)[k] * pow(r, k as nat),
        ).fold_left(0int, |sum: int, x: int| sum + x) % p,
{
    lemma_reversed_combination_is_sum(p, r, keccak256_digest(msg));
}

/// The number that bytes stand for, the least significant first.
pub open spec fn little_endian(bytes: Seq<u8>) -> int
    decreases bytes.len(),
{
    if bytes.len() == 0 {
        0
    } else {
        bytes[0] + 256 * little_endian(bytes.skip(1))
    }
}

/// Eight bytes as one number.
proof fn lemma_eight_bytes(bytes: Seq<u8>)
    requires
        bytes.len() == 8,
    ensures
        little_endian(bytes) == bytes[0] + bytes[1] * 0x100 + bytes[2] * 0x1_0000 + bytes[3]
            * 0x100_0000 + bytes[4] * 0x1_0000_0000 + bytes[5] * 0x100_0000_0000 + bytes[6]
            * 0x1_0000_0000_0000 + bytes[7] * 0x100_0000_0000_0000,
{
    reveal_with_fuel(little_endian, 9);
}

/// The words of a message, of eight bytes each; what is left over at the end is dropped.
pub fn into_words(message: &[u8]) -> (words: Vec<u64>)
    ensures
        words@.len() == message@.len() / 8,
        forall|i: int|
            0 <= i < words@.len() ==> #[trigger] words@[i] == little_endian(
                message@.subrange(8 * i, 8 * i + 8),
            ),
        forall|i: int|
            0 <= i < words@.len() ==> #[trigger] words@[i] == message@[8 * i] + message@[8 * i + 1]
                * 0x100 + message@[8 * i + 2] * 0x1_0000 + message@[8 * i + 3] * 0x100_0000
                + message@[8 * i + 4] * 0x1_0000_0000 + message@[8 * i + 5] * 0x100_0000_0000
                + message@[8 * i + 6] * 0x1_0000_0000_0000 + message@[8 * i + 7]
                * 0x100_0000_0000_0000,
{
    let length: usize = message.len();
    let words_total: usize = length / 8;
    let mut words: Vec<u64> = Vec::new();
    let mut i: usize = 0;
    while i < words_total
        invariant
            length == message@.len(),
            words_total == length / 8,
            i <= words_total,
            words@.len() == i,
            forall|j: int|
                0 <= j < i ==> #[trigger] words@[j] == little_endian(
                    message@.subrange(8 * j, 8 * j + 8),
                ),
        decreases words_total - i,
    {
        let start: usize = i * 8;
        let word: u64 = message[start] as u64 + message[start + 1] as u64 * 0x100 + message[start
            + 2] as u64 * 0x1_0000 + message[start + 3] as u64 * 0x100_0000 + message[start
            + 4] as u64 * 0x1_0000_0000 + message[start + 5] as u64 * 0x100_0000_0000
            + message[start + 6] as u64 * 0x1_0000_0000_0000 + message[start + 7] as u64
            * 0x100_0000_0000_0000;
        proof {
            lemma_eight_bytes(message@.subrange(8 * i, 8 * i + 8));
        }
        words.push(word);
        i = i + 1;
    }
    proof {
        assert forall|j: int| 0 <= j < words@.len() implies #[trigger] words@[j] == message@[8 * j]
            + message@[8 * j + 1] * 0x100 + message@[8 * j + 2] * 0x1_0000 + message@[8 * j + 3]
            * 0x100_0000 + message@[8 * j + 4] * 0x1_0000_0000 + message@[8 * j + 5]
            * 0x100_0000_0000 + message@[8 * j + 6] * 0x1_0000_0000_0000 + message@[8 * j + 7]
            * 0x100_0000_0000_0000 by {
            lemma_eight_bytes(message@.subrange(8 * j, 8 * j + 8));
        }
    }
    words
}

} // verus!

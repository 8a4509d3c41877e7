//! Unrolled bytecode: one row per byte.

use crate::field::Field;
use crate::hash::{hash_number, keccak, keccak256_digest};
use crate::opcode::{
    data_left, get_push_size, is_code, lemma_code_unless_pushed, lemma_data_left_bounded,
};
use vstd::arithmetic::power::pow;
use vstd::prelude::*;

verus! {

/// Public data for the bytecode
#[derive(Clone, Debug, PartialEq)]
pub struct BytecodeRow<F> {
    pub hash: F,
    pub index: F,
    pub is_code: F,
    pub byte: F,
}

/// Unrolled bytecode
#[derive(Clone, Debug, PartialEq)]
pub struct UnrolledBytecode<F> {
    pub bytes: Vec<u8>,
    pub rows: Vec<BytecodeRow<F>>,
}

/// The numbers in a row of unrolled bytecode.
pub struct RowNumbers {
    pub hash: int,
    pub index: int,
    pub is_code: int,
    pub byte: int,
}

impl<F: Field> View for BytecodeRow<F> {
    type V = RowNumbers;

    open spec fn view(&self) -> RowNumbers {
        RowNumbers {
            hash: self.hash.value(),
            index: self.index.value(),
            is_code: self.is_code.value(),
            byte: self.byte.value(),
        }
    }
}

/// What unrolled bytecode holds.
pub struct Unrolled {
    pub bytes: Seq<u8>,
    pub rows: Seq<RowNumbers>,
}

impl<F: Field> View for UnrolledBytecode<F> {
    type V = Unrolled;

    open spec fn view(&self) -> Unrolled {
        Unrolled {
            bytes: self.bytes@,
            rows: self.rows@.map_values(|row: BytecodeRow<F>| row@),
        }
    }
}

/// The row of the byte at position `k` of a bytecode with the hash `hash`.
pub open spec fn unrolled_row(bytes: Seq<u8>, hash: int, k: int) -> RowNumbers {
    RowNumbers {
        hash,
        index: k,
        is_code: if is_code(bytes, k) {
            1
        } else {
            0
        },
        byte: bytes[k] as int,
    }
}

/// A bytecode with the hash `hash`, unrolled.
pub open spec fn unrolled(bytes: Seq<u8>, hash: int) -> Unrolled {
    Unrolled { bytes, rows: Seq::new(bytes.len(), |k: int| unrolled_row(bytes, hash, k)) }
}

/// Unrolls bytecode that has the hash `hash`.
pub fn unroll_with_hash<F: Field>(bytes: Vec<u8>, hash: F) -> (r: UnrolledBytecode<F>)
    ensures
        r@ == unrolled(bytes@, hash.value()),
        r.bytes@ == bytes@,
        r.rows@.len() == bytes@.len(),
        forall|k: int|
            0 <= k < bytes@.len() ==> {
                let row = #[trigger] r.rows@[k];
                &&& row.hash.value() == hash.value()
                &&& row.index.value() == k
                &&& row.byte.value() == bytes@[k]
                &&& row.is_code.value() == 0 || row.is_code.value() == 1
                &&& row.is_code.value() == 1 <==> forall|j: int|
                    0 <= j < k && (#[trigger] r.rows@[j]).is_code.value() == 1 && 0x60 <= bytes@[j]
                        <= 0x7f ==> j + bytes@[j] - 0x5f < k
            },
{
    let mut rows: Vec<BytecodeRow<F>> = Vec::new();
    let mut push_rindex: u64 = 0;
    let mut index: usize = 0;
    while index < bytes.len()
        invariant
            index <= bytes@.len(),
            push_rindex == data_left(bytes@, index as int),
            rows@.len() == index,
            forall|k: int|
                0 <= k < index ==> (#[trigger] rows@[k])@ == unrolled_row(
                    bytes@,
                    hash.value(),
                    k,
                ),
        decreases bytes@.len() - index,
    {
        // Track which byte is an opcode and which is push data
        let is_code = push_rindex == 0;
        let byte = bytes[index];
        rows.push(
            BytecodeRow {
                hash,
                index: F::from_u64(index as u64),
                is_code: F::from_u64(
                    if is_code {
                        1
                    } else {
                        0
                    },
                ),
                byte: F::from_u64(byte as u64),
            },
        );
        push_rindex =
        if is_code {
            get_push_size(byte)
        } else {
            push_rindex - 1
        };
        index = index + 1;
        proof {
            lemma_data_left_bounded(bytes@, index - 1);
        }
    }
    let r = UnrolledBytecode { bytes, rows };
    proof {
        assert(r@.rows =~= unrolled(bytes@, hash.value()).rows);
        assert forall|k: int| 0 <= k < bytes@.len() implies {
            let row = #[trigger] r.rows@[k];
            &&& row.hash.value() == hash.value()
            &&& row.index.value() == k
            &&& row.byte.value() == bytes@[k]
            &&& row.is_code.value() == if is_code(bytes@, k) {
                1int
            } else {
                0int
            }
        } by {
            assert(r.rows@[k]@ == unrolled_row(bytes@, hash.value(), k));
        }
        assert forall|k: int| 0 <= k < bytes@.len() implies (#[trigger] r.rows@[k]).is_code.value()
            == 1 <==> forall|j: int|
            0 <= j < k && (#[trigger] r.rows@[j]).is_code.value() == 1 && 0x60 <= bytes@[j] <= 0x7f
                ==> j + bytes@[j] - 0x5f < k by {
            lemma_code_unless_pushed(bytes@, k);
            if is_code(bytes@, k) {
                assert forall|j: int|
                    0 <= j < k && (#[trigger] r.rows@[j]).is_code.value() == 1 && 0x60 <= bytes@[j]
                        <= 0x7f implies j + bytes@[j] - 0x5f < k by {
                    assert(is_code(bytes@, j));
                }
            } else {
                let j = choose|j: int|
                    0 <= j < k && #[trigger] is_code(bytes@, j) && 0x60 <= bytes@[j] <= 0x7f && j
                        + bytes@[j] - 0x5f >= k;
                assert(r.rows@[j].is_code.value() == 1);
            }
        }
    }
    r
}

/// Unrolls bytecode; its hash is that of [`keccak`].
pub fn unroll<F: Field>(bytes: Vec<u8>, r: F) -> (unrolled_bytecode: UnrolledBytecode<F>)
    ensures
        unrolled_bytecode@ == unrolled(
            bytes@,
            hash_number(F::modulus(), r.value(), bytes@),
        ),
        unrolled_bytecode.bytes@ == bytes@,
        unrolled_bytecode.rows@.len() == bytes@.len(),
        forall|k: int|
            0 <= k < bytes@.len() ==> {
                let row = #[trigger] unrolled_bytecode.rows@[k];
                &&& row.hash.value() == Seq::new(
                    32,
                    |d: int| keccak256_digest(bytes@)[d] * pow(r.value(), d as nat),
                ).fold_left(0int, |sum: int, x: int| sum + x) % F::modulus()
                &&& row.index.value() == k
                &&& row.byte.value() == bytes@[k]
                &&& row.is_code.value() == 0 || row.is_code.value() == 1
                &&& row.is_code.value() == 1 <==> forall|j: int|
                    0 <= j < k && (#[trigger] unrolled_bytecode.rows@[j]).is_code.value() == 1 && 0x60 <= bytes@[j]
                        <= 0x7f ==> j + bytes@[j] - 0x5f < k
            },
{
    let hash = keccak(bytes.as_slice(), r);
    unroll_with_hash(bytes, hash)
}

} // verus!

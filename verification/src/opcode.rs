//! The opcodes that carry data with them.

use vstd::prelude::*;

verus! {

/// The opcode that pushes the one byte that follows it.
pub const PUSH1: u8 = 0x60;

/// The opcode that pushes the 32 bytes that follow it.
pub const PUSH32: u8 = 0x7f;

/// The number of bytes that follow an opcode as its data.
pub open spec fn push_size(byte: u8) -> int {
    if PUSH1 <= byte <= PUSH32 {
        byte - PUSH1 + 1
    } else {
        0
    }
}

/// Whether an opcode pushes the bytes that follow it.
pub fn is_push(byte: u8) -> (r: bool)
    ensures
        r == (0x60 <= byte <= 0x7f),
        r == (PUSH1 <= byte <= PUSH32),
{
    PUSH1 <= byte && byte <= PUSH32
}

/// The number of bytes that an opcode pushes.
pub fn get_push_size(byte: u8) -> (r: u64)
    ensures
        r == push_size(byte),
        r == if 0x60 <= byte <= 0x7f {
            byte - 0x5f
        } else {
            0
        },
{
    if is_push(byte) {
        byte as u64 - PUSH1 as u64 + 1
    } else {
        0u64
    }
}

/// The number of bytes, from position `k` on, that are still data of the opcode that
/// came last, when `bytes` is run through from its start, where an opcode stands.
pub open spec fn data_left(bytes: Seq<u8>, k: int) -> int
    decreases k,
{
    if k <= 0 {
        0
    } else if data_left(bytes, k - 1) == 0 {
        push_size(bytes[k - 1])
    } else {
        data_left(bytes, k - 1) - 1
    }
}

/// Whether the byte at position `k` is an opcode; if it is not, it is data.
pub open spec fn is_code(bytes: Seq<u8>, k: int) -> bool {
    data_left(bytes, k) == 0
}

/// No opcode has more than 32 bytes of data.
pub proof fn lemma_data_left_bounded(bytes: Seq<u8>, k: int)
    ensures
        0 <= data_left(bytes, k) <= 32,
    decreases k,
{
    if k > 0 {
        lemma_data_left_bounded(bytes, k - 1);
    }
}

/// What is data after `k` bytes depends on those bytes alone.
pub proof fn lemma_data_left_prefix(a: Seq<u8>, b: Seq<u8>, k: int)
    requires
        forall|j: int| 0 <= j < k ==> a[j] == b[j],
    ensures
        data_left(a, k) == data_left(b, k),
    decreases k,
{
    if k > 0 {
        lemma_data_left_prefix(a, b, k - 1);
    }
}

/// After an opcode at position `j`, its data counts down to the next opcode.
proof fn lemma_data_of_opcode(bytes: Seq<u8>, j: int, k: int)
    requires
        0 <= j < k,
        is_code(bytes, j),
        k <= j + 1 + push_size(bytes[j]),
    ensures
        data_left(bytes, k) == j + 1 + push_size(bytes[j]) - k,
    decreases k,
{
    if k > j + 1 {
        lemma_data_of_opcode(bytes, j, k - 1);
    }
}

/// Where data stands, the opcode that it belongs to stands before it.
proof fn lemma_opcode_of_data(bytes: Seq<u8>, k: int) -> (j: int)
    requires
        0 <= k,
        !is_code(bytes, k),
    ensures
        0 <= j < k <= j + push_size(bytes[j]),
        is_code(bytes, j),
        data_left(bytes, k) == j + 1 + push_size(bytes[j]) - k,
    decreases k,
{
    if is_code(bytes, k - 1) {
        k - 1
    } else {
        lemma_opcode_of_data(bytes, k - 1)
    }
}

/// Whether the byte at position `k` is among the bytes that an opcode at `j` pushes.
pub open spec fn is_data_of(bytes: Seq<u8>, j: int, k: int) -> bool {
    0 <= j < k <= j + push_size(bytes[j])
}

/// A byte is data exactly where an opcode before it pushes it.
pub proof fn lemma_code_or_data(bytes: Seq<u8>, k: int)
    requires
        0 <= k,
    ensures
        !is_code(bytes, k) <==> exists|j: int| is_code(bytes, j) && #[trigger] is_data_of(bytes, j, k),
{
    if !is_code(bytes, k) {
        let j = lemma_opcode_of_data(bytes, k);
        assert(is_data_of(bytes, j, k));
    }
    if exists|j: int| is_code(bytes, j) && #[trigger] is_data_of(bytes, j, k) {
        let j = choose|j: int| is_code(bytes, j) && #[trigger] is_data_of(bytes, j, k);
        lemma_data_of_opcode(bytes, j, k);
    }
}

/// The first byte is an opcode.
pub proof fn lemma_first_byte_is_code(bytes: Seq<u8>)
    ensures
        is_code(bytes, 0),
{
}

/// The opcodes 0x60 to 0x7f push 1 to 32 bytes, and no other byte pushes any.
pub proof fn lemma_push_sizes(byte: u8)
    ensures
        0x60 <= byte <= 0x7f ==> push_size(byte) == byte - 0x5f,
        byte < 0x60 || byte > 0x7f ==> push_size(byte) == 0,
{
}

/// A byte is an opcode exactly where no opcode before it, one of 0x60 to 0x7f, pushes it.
pub proof fn lemma_code_unless_pushed(bytes: Seq<u8>, k: int)
    requires
        0 <= k,
    ensures
        is_code(bytes, k) <==> forall|j: int|
            0 <= j < k && #[trigger] is_code(bytes, j) && 0x60 <= bytes[j] <= 0x7f ==> j + bytes[j]
                - 0x5f < k,
{
    lemma_code_or_data(bytes, k);
    if is_code(bytes, k) {
        assert forall|j: int|
            0 <= j < k && #[trigger] is_code(bytes, j) && 0x60 <= bytes[j] <= 0x7f implies j
            + bytes[j] - 0x5f < k by {
            assert(!is_data_of(bytes, j, k));
        }
    }
}

} // verus!

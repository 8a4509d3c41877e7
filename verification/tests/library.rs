//! The parts of the library on concrete values.

use bytecode_circuit::config::Config;
use bytecode_circuit::constraint_system::{BaseConstraintBuilder, ConstraintSystem};
use bytecode_circuit::expression::{and, not, or, select, AdviceColumn, Expression, Rotation};
use bytecode_circuit::field::Field;
use bytecode_circuit::fr::Fr;
use bytecode_circuit::hash::{encode, into_words, keccak, linear_combine, random_linear_combine};
use bytecode_circuit::is_zero::IsZeroChip;
use bytecode_circuit::opcode::{get_push_size, is_push, PUSH1, PUSH32};
use bytecode_circuit::region::{Error, Region};
use bytecode_circuit::u256::U256;
use bytecode_circuit::unroller::{unroll, unroll_with_hash};
use halo2_axiom::halo2curves::bn256;
use halo2_axiom::halo2curves::ff::Field as _;

fn n(x: u64) -> Fr {
    Fr::from_u64(x)
}

fn element(x: &Fr) -> bn256::Fr {
    let n = x.to_limbs();
    bn256::Fr::from_raw([n.l0, n.l1, n.l2, n.l3])
}

fn system() -> (ConstraintSystem<Fr>, Config<Fr>) {
    let mut meta = ConstraintSystem::new();
    let config = Config::configure(&mut meta, n(123456));
    (meta, config)
}

/// A constraint system with one gate, which requires `e` of two advice columns to be 0.
fn holds(
    e: impl Fn(&mut ConstraintSystem<Fr>, AdviceColumn, AdviceColumn) -> Expression<Fr>,
    a: u64,
    b: u64,
) -> bool {
    let mut meta = ConstraintSystem::new();
    let (x, y) = (meta.advice_column(), meta.advice_column());
    let e = e(&mut meta, x, y);
    meta.create_gate("only", vec![("", e)]);
    let mut region = Region::new(&meta, 1);
    region.assign_advice(x, 0, n(a)).unwrap();
    region.assign_advice(y, 0, n(b)).unwrap();
    meta.verify(&region, 1, Fr::zero())
}

#[test]
fn field_agrees_with_bn256() {
    let big = Fr::from_limbs(U256 { l0: 7, l1: 11, l2: 13, l3: 0x3064_4e72_e131_a028 }).unwrap();
    let samples = [n(0), n(1), n(2), n(u64::MAX), Fr::zero().sub(&n(1)), big];
    for x in samples.iter() {
        for y in samples.iter() {
            assert_eq!(element(&x.add(y)), element(x) + element(y));
            assert_eq!(element(&x.sub(y)), element(x) - element(y));
            assert_eq!(element(&x.mul(y)), element(x) * element(y));
            assert_eq!(x.equals(y), element(x) == element(y));
        }
        let inverse: Option<bn256::Fr> = element(x).invert().into();
        assert_eq!(x.invert().map(|y| element(&y)), inverse);
    }
}

#[test]
fn field_limbs() {
    let modulus = U256 {
        l0: 0x43e1f593f0000001,
        l1: 0x2833e84879b97091,
        l2: 0xb85045b68181585d,
        l3: 0x30644e72e131a029,
    };
    assert_eq!(Fr::from_limbs(modulus), None);
    let largest = Fr::zero().sub(&Fr::one());
    assert_eq!(largest.to_limbs(), U256 { l0: 0x43e1f593f0000000, ..modulus });
    assert_eq!(largest.get_lower_128(), 0x2833e84879b97091_43e1f593f0000000);
}

#[test]
fn push_sizes() {
    for byte in 0..=255u8 {
        let size = if (0x60..=0x7f).contains(&byte) { byte as u64 - 0x5f } else { 0 };
        assert_eq!(get_push_size(byte), size);
        assert_eq!(is_push(byte), size > 0);
    }
    assert_eq!((PUSH1, PUSH32), (0x60, 0x7f));
}

#[test]
fn combinations() {
    assert_eq!(encode(&[1, 2, 3], n(10)), n(123));
    assert_eq!(linear_combine(vec![1, 2, 3], n(10)), n(123));
    assert_eq!(random_linear_combine(&[1, 2, 3], n(10)), n(321));
    assert_eq!(encode(&[], n(10)), n(0));
}

/// The digests of Keccak-256 of the empty message and of "abc".
#[test]
fn keccak_of_known_messages() {
    let empty: [u8; 32] = [
        0xc5, 0xd2, 0x46, 0x01, 0x86, 0xf7, 0x23, 0x3c, 0x92, 0x7e, 0x7d, 0xb2, 0xdc, 0xc7, 0x03,
        0xc0, 0xe5, 0x00, 0xb6, 0x53, 0xca, 0x82, 0x27, 0x3b, 0x7b, 0xfa, 0xd8, 0x04, 0x5d, 0x85,
        0xa4, 0x70,
    ];
    let abc: [u8; 32] = [
        0x4e, 0x03, 0x65, 0x7a, 0xea, 0x45, 0xa9, 0x4f, 0xc7, 0xd4, 0x7b, 0xa8, 0x26, 0xc8, 0xd6,
        0x67, 0xc0, 0xd1, 0xe6, 0xe3, 0x3a, 0x64, 0xa0, 0x36, 0xec, 0x44, 0xf5, 0x8f, 0xa1, 0x2d,
        0x6c, 0x45,
    ];
    let r = n(123456);
    assert_eq!(keccak(&[], r), random_linear_combine(&empty, r));
    assert_eq!(keccak(b"abc", r), random_linear_combine(&abc, r));
    // With 0 the combination is the first byte of the digest.
    assert_eq!(keccak(b"abc", n(0)), n(0x4e));
}

#[test]
fn words_of_messages() {
    assert_eq!(into_words(&[]), Vec::<u64>::new());
    assert_eq!(into_words(&[1, 2, 3, 4, 5, 6, 7]), Vec::<u64>::new());
    assert_eq!(
        into_words(&[1, 2, 3, 4, 5, 6, 7, 8, 0xff, 0, 0, 0, 0, 0, 0, 0x80, 9]),
        vec![0x0807060504030201, 0x80000000000000ff]
    );
}

#[test]
fn unrolled_rows() {
    let bytes = vec![0x61, 0x60, 0x60, 0x01, 0x7f];
    let u = unroll_with_hash(bytes.clone(), n(9));
    let code = [1, 0, 0, 1, 1];
    for (k, row) in u.rows.iter().enumerate() {
        assert_eq!(row.hash, n(9));
        assert_eq!(row.index, n(k as u64));
        assert_eq!(row.is_code, n(code[k]));
        assert_eq!(row.byte, n(bytes[k] as u64));
    }
    assert_eq!(u.rows.len(), 5);
    assert_eq!(unroll(bytes.clone(), n(3)), unroll_with_hash(bytes.clone(), keccak(&bytes, n(3))));
}

#[test]
fn expressions_of_bits() {
    for (a, b) in [(0, 0), (0, 1), (1, 0), (1, 1)] {
        let cell = |meta: &mut ConstraintSystem<Fr>, c| meta.query_advice(c, Rotation::cur());
        let both = holds(
            |meta, x, y| not(and(vec![cell(meta, x), cell(meta, y)])),
            a,
            b,
        );
        assert_eq!(both, a == 1 && b == 1);
        let either = holds(|meta, x, y| not(or(vec![cell(meta, x), cell(meta, y)])), a, b);
        assert_eq!(either, a == 1 || b == 1);
        let chosen = holds(
            |meta, x, y| select(cell(meta, x), Expression::one(), cell(meta, y)),
            a,
            b,
        );
        assert_eq!(chosen, a == 0 && b == 0);
    }
}

#[test]
fn builder_constraints() {
    for a in 0..3 {
        for b in 0..3 {
            let equal = holds(
                |meta, x, y| {
                    let mut cb = BaseConstraintBuilder::new();
                    let lhs = meta.query_advice(x, Rotation::cur());
                    let rhs = meta.query_advice(y, Rotation::cur());
                    cb.require_equal("equal", lhs, rhs);
                    cb.gate(Expression::one()).remove(0).1
                },
                a,
                b,
            );
            assert_eq!(equal, a == b);
        }
        let boolean = holds(
            |meta, x, _| {
                let mut cb = BaseConstraintBuilder::new();
                let e = meta.query_advice(x, Rotation::cur());
                cb.require_boolean("boolean", e);
                cb.gate(Expression::one()).remove(0).1
            },
            a,
            0,
        );
        assert_eq!(boolean, a < 2);
    }
}

#[test]
fn is_zero_chip() {
    let mut meta = ConstraintSystem::new();
    let (x, inv) = (meta.advice_column(), meta.advice_column());
    let value = meta.query_advice(x, Rotation::cur());
    let config = IsZeroChip::configure(&mut meta, Expression::one(), value, inv);
    let chip = IsZeroChip::construct(config);
    for v in [0, 1, 5] {
        let mut region = Region::new(&meta, 1);
        region.assign_advice(x, 0, n(v)).unwrap();
        chip.assign(&mut region, 0, n(v)).unwrap();
        assert!(meta.verify(&region, 1, n(0)));
        let stored = region.advice[inv.index][0].unwrap();
        assert_eq!(stored.mul(&n(v)), n((v != 0) as u64));
        region.assign_advice(inv, 0, n(2)).unwrap();
        assert_eq!(meta.verify(&region, 1, n(0)), v == 0);
        assert_eq!(chip.assign(&mut region, 1, n(v)), Err(Error::NotEnoughRowsAvailable));
    }
}

/// Rows wrap around: the row before the first is the last.
#[test]
fn rotations_wrap() {
    let mut meta = ConstraintSystem::new();
    let x = meta.advice_column();
    let before = meta.query_advice(x, Rotation::prev());
    let s = meta.selector();
    let first = meta.query_selector(s);
    meta.create_gate("last is 0", vec![("", first.times(before))]);
    let mut region = Region::new(&meta, 2);
    region.enable_selector(s, 0).unwrap();
    region.assign_advice(x, 1, n(4)).unwrap();
    assert!(meta.verify(&region, 3, n(0)));
    assert!(!meta.verify(&region, 3, n(1)));
    assert!(!meta.verify(&region, 2, n(0)));
}

#[test]
fn cells_beyond_the_usable_rows() {
    let (meta, config) = system();
    let mut region = Region::new(&meta, 3);
    let full = Err(Error::NotEnoughRowsAvailable);
    assert_eq!(region.assign_advice(config.hash, 3, n(1)), full);
    assert_eq!(region.assign_fixed(config.q_first, 3, n(1)), full);
    assert_eq!(region.enable_selector(config.q_enable, 3), full);
    assert_eq!(region.assign_advice(config.hash, 2, n(1)), Ok(()));
    assert_eq!(region.advice[config.hash.index][2], Some(n(1)));
}

#[test]
fn circuit_shape() {
    let (meta, config) = system();
    assert_eq!(config.minimum_rows, 8);
    assert_eq!(meta.minimum_rows(), 8);
    assert_eq!((meta.num_selectors, meta.num_fixed_columns, meta.num_advice_columns), (2, 3, 14));
    let gates: Vec<_> = meta.gates.iter().map(|g| (g.name, g.constraints.len())).collect();
    assert_eq!(
        gates,
        vec![
            ("is_zero gate", 1),
            ("continue", 6),
            ("start", 3),
            ("length needs to be correct", 1),
            ("always", 3),
            ("padding", 1),
            ("last row", 1),
        ]
    );
    let lookups: Vec<_> = meta.lookups.iter().map(|l| (l.name, l.columns.len())).collect();
    assert_eq!(lookups, vec![("Range bytes", 2), ("keccak", 3)]);
}

#[test]
fn many_queries_of_one_column() {
    let mut meta = ConstraintSystem::<Fr>::new();
    let x = meta.advice_column();
    for distance in -3..3 {
        meta.query_advice(x, Rotation { distance });
        meta.query_advice(x, Rotation { distance });
    }
    assert_eq!(meta.advice_queries.len(), 6);
    assert_eq!(meta.minimum_rows(), 11);
}

#[test]
fn load_needs_rows_for_both_tables() {
    let (meta, config) = system();
    let bytecodes: Vec<_> = (0..257).map(|_| unroll_with_hash(vec![1u8], n(0))).collect();
    let mut small = Region::new(&meta, 255);
    assert_eq!(config.load(&mut small, &[]), Err(Error::NotEnoughRowsAvailable));
    assert_eq!(small.fixed[config.push_table[1].index][0x7f], Some(n(32)));
    let mut region = Region::new(&meta, 256);
    assert_eq!(config.load(&mut region, &bytecodes), Err(Error::NotEnoughRowsAvailable));
    let mut region = Region::new(&meta, 256);
    assert_eq!(config.load(&mut region, &bytecodes[..256]), Ok(()));
    assert_eq!(region.advice[config.keccak_table[0].index][255], Some(n(1)));
    assert_eq!(region.advice[config.keccak_table[1].index][255], Some(n(1)));
    assert_eq!(region.advice[config.keccak_table[2].index][255], Some(keccak(&[1], n(123456))));
}

#[test]
fn assigned_rows() {
    let (meta, config) = system();
    let size = 16;
    let mut region = Region::new(&meta, size - config.minimum_rows + 2);
    let u = unroll_with_hash(vec![0x60, 0x05, 0x01], n(9));
    config.assign(&mut region, size, &[u]);
    let advice = |c: AdviceColumn, row: usize| region.advice[c.index][row].unwrap();
    for row in 0..10 {
        assert!(region.selectors[config.q_enable.index][row]);
        assert_eq!(region.selectors[config.q_last.index][row], row == 9);
        assert_eq!(region.fixed[config.q_first.index][row], Some(n((row == 0) as u64)));
        let padding = row >= 3;
        assert_eq!(advice(config.padding, row), n(padding as u64));
        assert_eq!(advice(config.is_final, row), n((row >= 2) as u64));
        assert_eq!(advice(config.hash_length, row), n(if padding { 1 } else { 3 }));
        assert_eq!(advice(config.hash, row), n(if padding { 0 } else { 9 }));
        assert_eq!(advice(config.is_code, row), n((row != 1) as u64));
        assert_eq!(advice(config.push_rindex, row), n((row == 0) as u64));
        assert_eq!(advice(config.byte_push_size, row), n((row == 0) as u64));
        assert_eq!(advice(config.push_rindex_inv, row), n((row == 1) as u64));
    }
    let r = 123456u64;
    assert_eq!(advice(config.hash_rlc, 0), n(0x60));
    assert_eq!(advice(config.hash_rlc, 1), n(0x60 * r + 5));
    assert_eq!(advice(config.hash_rlc, 2), n((0x60 * r + 5) * r + 1));
    assert_eq!(advice(config.hash_rlc, 3), n(0));
}

/// What `size` asks for and the usable rows do not have is left out, and what `size` does not ask
/// for stays empty.
#[test]
fn size_and_usable_rows_apart() {
    let (meta, config) = system();
    let u = unroll_with_hash(vec![1, 2], n(9));
    let mut region = Region::new(&meta, 10);
    config.assign(&mut region, 20, &[u.clone()]);
    let index = config.padding.index;
    assert!((0..10).all(|row| region.advice[index][row] == Some(n((row >= 2) as u64))));
    assert!((0..10).all(|row| !region.selectors[config.q_last.index][row]));
    let mut region = Region::new(&meta, 10);
    config.assign(&mut region, 8, &[u]);
    assert!((0..8).all(|row| region.advice[index][row] == Some(n((row >= 2) as u64))));
    assert_eq!(region.advice[index][8], None);
    assert!((0..10).all(|row| region.selectors[config.q_last.index][row] == (row == 1)));
}

/// A byte cell that is no byte counts by its lowest byte.
#[test]
fn push_size_of_a_large_cell() {
    let (meta, config) = system();
    let mut region = Region::new(&meta, 10);
    let mut u = unroll_with_hash(vec![1], n(9));
    u.rows[0].byte = n(0x161);
    config.assign(&mut region, 16, &[u]);
    assert_eq!(region.advice[config.byte_push_size.index][0], Some(n(2)));
    assert_eq!(region.advice[config.push_rindex.index][0], Some(n(2)));
}

/// The circuit stands after what is in the constraint system already, and needs no more rows.
#[test]
fn circuit_beside_other_columns() {
    let mut meta = ConstraintSystem::new();
    let (x, _) = (meta.advice_column(), meta.fixed_column());
    for distance in 0..5 {
        meta.query_advice(x, Rotation { distance });
    }
    assert_eq!(meta.minimum_rows(), 10);
    let e = meta.query_advice(x, Rotation::cur());
    meta.create_gate("x is 0", vec![("", e)]);
    let config = Config::configure(&mut meta, n(123456));
    assert_eq!(config.minimum_rows, 10);
    assert_eq!(meta.minimum_rows(), 10);
    assert_eq!((config.hash.index, config.push_rindex_inv.index), (1, 11));
    assert_eq!((config.q_first.index, config.push_table[1].index), (1, 3));
    assert_eq!(meta.gates[0].name, "x is 0");
    assert_eq!(meta.gates[1].name, "is_zero gate");
    let size = 300;
    let mut region = Region::new(&meta, size - config.minimum_rows + 2);
    let bytecodes = [unroll(vec![0x60, 1, 0], n(123456))];
    config.load(&mut region, &bytecodes).unwrap();
    config.assign(&mut region, size, &bytecodes);
    assert!(meta.verify(&region, size, n(0)));
    region.assign_advice(x, 7, n(1)).unwrap();
    assert!(!meta.verify(&region, size, n(0)));
}

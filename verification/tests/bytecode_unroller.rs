//! Bytecodes in the circuit: what it accepts and what it refuses. Each case is decided by
//! `ConstraintSystem::verify` and, where it can, by the mock prover of halo2.

use bytecode_circuit::config::Config;
use bytecode_circuit::constraint_system::ConstraintSystem;
use bytecode_circuit::expression::Expression;
use bytecode_circuit::field::Field;
use bytecode_circuit::fr::Fr;
use bytecode_circuit::hash::keccak;
use bytecode_circuit::opcode::{is_push, PUSH1, PUSH32};
use bytecode_circuit::region::Region;
use bytecode_circuit::unroller::{unroll, BytecodeRow, UnrolledBytecode};
use halo2_axiom::circuit::{Layouter, SimpleFloorPlanner, Value};
use halo2_axiom::dev::MockProver;
use halo2_axiom::halo2curves::bn256;
use halo2_axiom::plonk;
use halo2_axiom::poly::Rotation;

const ADD: u8 = 0x01;
const SUB: u8 = 0x03;
const PUSH6: u8 = 0x65;
const PUSH7: u8 = 0x66;

fn r() -> Fr {
    Fr::from_u64(123456)
}

fn system() -> (ConstraintSystem<Fr>, Config<Fr>) {
    let mut meta = ConstraintSystem::new();
    let config = Config::configure(&mut meta, r());
    (meta, config)
}

fn element(x: &Fr) -> bn256::Fr {
    let n = x.to_limbs();
    bn256::Fr::from_raw([n.l0, n.l1, n.l2, n.l3])
}

#[derive(Clone)]
struct Columns {
    selectors: Vec<plonk::Selector>,
    fixed: Vec<plonk::Column<plonk::Fixed>>,
    advice: Vec<plonk::Column<plonk::Advice>>,
}

impl Columns {
    fn expression(
        &self,
        cells: &mut plonk::VirtualCells<'_, bn256::Fr>,
        e: &Expression<Fr>,
    ) -> plonk::Expression<bn256::Fr> {
        match e {
            Expression::Constant(c) => plonk::Expression::Constant(element(c)),
            Expression::Selector(s) => cells.query_selector(self.selectors[s.index]),
            Expression::Fixed(c, at) => {
                cells.query_fixed(self.fixed[c.index], Rotation(at.distance))
            }
            Expression::Advice(c, at) => {
                cells.query_advice(self.advice[c.index], Rotation(at.distance))
            }
            Expression::Negated(a) => -self.expression(cells, a),
            Expression::Sum(a, b) => self.expression(cells, a) + self.expression(cells, b),
            Expression::Product(a, b) => self.expression(cells, a) * self.expression(cells, b),
            Expression::Scaled(a, c) => self.expression(cells, a) * element(c),
        }
    }
}

/// A circuit of halo2 with all gates and lookups of the bytecode circuit, and the cells of a
/// region.
struct MockCircuit {
    region: Region<Fr>,
}

impl plonk::Circuit<bn256::Fr> for MockCircuit {
    type Config = Columns;
    type FloorPlanner = SimpleFloorPlanner;
    type Params = ();

    fn without_witnesses(&self) -> Self {
        MockCircuit { region: Region::new(&system().0, self.region.usable_rows) }
    }

    fn configure(meta: &mut plonk::ConstraintSystem<bn256::Fr>) -> Columns {
        let (own, config) = system();
        let columns = Columns {
            selectors: (0..own.num_selectors)
                .map(|s| {
                    if s == config.q_last.index {
                        meta.selector()
                    } else {
                        meta.complex_selector()
                    }
                })
                .collect(),
            fixed: (0..own.num_fixed_columns).map(|_| meta.fixed_column()).collect(),
            advice: (0..own.num_advice_columns).map(|_| meta.advice_column()).collect(),
        };
        for gate in own.gates.iter() {
            meta.create_gate(gate.name, |cells| {
                gate.constraints
                    .iter()
                    .map(|(name, e)| (*name, columns.expression(cells, e)))
                    .collect::<Vec<_>>()
            });
        }
        for lookup in own.lookups.iter() {
            meta.lookup_any(lookup.name, |cells| {
                lookup
                    .columns
                    .iter()
                    .map(|(input, entry)| {
                        (columns.expression(cells, input), columns.expression(cells, entry))
                    })
                    .collect()
            });
        }
        // The library counts the rows as halo2 does.
        assert_eq!(meta.minimum_rows(), config.minimum_rows);
        columns
    }

    fn synthesize(
        &self,
        columns: Columns,
        mut layouter: impl Layouter<bn256::Fr>,
    ) -> Result<(), plonk::Error> {
        layouter.assign_region(
            || "bytecode",
            |mut region| {
                for row in 0..self.region.usable_rows {
                    for (s, bits) in self.region.selectors.iter().enumerate() {
                        if bits[row] {
                            columns.selectors[s].enable(&mut region, row)?;
                        }
                    }
                    for (c, cells) in self.region.fixed.iter().enumerate() {
                        if let Some(v) = &cells[row] {
                            region.assign_fixed(columns.fixed[c], row, element(v));
                        }
                    }
                    for (c, cells) in self.region.advice.iter().enumerate() {
                        if let Some(v) = &cells[row] {
                            region.assign_advice(
                                columns.advice[c],
                                row,
                                Value::known(element(v)),
                            );
                        }
                    }
                }
                Ok(())
            },
        )
    }
}

/// The cells of a circuit with 2^k rows.
fn filled(k: u32, bytecodes: &[UnrolledBytecode<Fr>]) -> Region<Fr> {
    let (meta, config) = system();
    let size = 2usize.pow(k);
    let mut region = Region::new(&meta, size - config.minimum_rows + 2);
    config.load(&mut region, bytecodes).unwrap();
    config.assign(&mut region, size, bytecodes);
    region
}

fn verify(k: u32, bytecodes: Vec<UnrolledBytecode<Fr>>, success: bool) {
    verify_unaided(k, &bytecodes, success);
    let region = filled(k, &bytecodes);
    let prover = MockProver::run(k, &MockCircuit { region }, vec![]).unwrap();
    assert_eq!(prover.verify().is_ok(), success);
}

/// Without the mock prover, which panics when it has to report a failure in the first row: the
/// cells of the row before it are blinded.
fn verify_unaided(k: u32, bytecodes: &[UnrolledBytecode<Fr>], success: bool) {
    let (meta, _) = system();
    let region = filled(k, bytecodes);
    let rows = 2usize.pow(k);
    assert_eq!(meta.verify(&region, rows, Fr::zero()), success);
    assert_eq!(meta.verify(&region, rows, Fr::from_u64(5)), success);
}

/// Verify unrolling code
#[test]
fn bytecode_unrolling() {
    let k = 10;
    let mut rows: Vec<BytecodeRow<Fr>> = vec![];
    let mut bytecode: Vec<u8> = vec![];
    // First add all non-push bytes, which should all be seen as code
    for byte in 0u8..=255u8 {
        if !is_push(byte) {
            bytecode.push(byte);
            rows.push(BytecodeRow {
                hash: Fr::zero(),
                index: Fr::from_u64(rows.len() as u64),
                is_code: Fr::from_u64(true as u64),
                byte: Fr::from_u64(byte as u64),
            });
        }
    }
    // Now add the different push ops
    for n in 1..=32 {
        let data_byte = PUSH32;
        bytecode.push(PUSH1 + (n - 1) as u8);
        bytecode.extend(vec![data_byte; n]);
        rows.push(BytecodeRow {
            hash: Fr::zero(),
            index: Fr::from_u64(rows.len() as u64),
            is_code: Fr::from_u64(true as u64),
            byte: Fr::from_u64(PUSH1 as u64 + ((n - 1) as u64)),
        });
        for _ in 0..n {
            rows.push(BytecodeRow {
                hash: Fr::zero(),
                index: Fr::from_u64(rows.len() as u64),
                is_code: Fr::from_u64(false as u64),
                byte: Fr::from_u64(data_byte as u64),
            });
        }
    }
    // Set the hash of the complete bytecode in the rows
    let hash = keccak(&bytecode[..], r());
    for row in rows.iter_mut() {
        row.hash = hash;
    }
    // Unroll the bytecode
    let unrolled = unroll(bytecode.clone(), r());
    // Check if the bytecode was unrolled correctly
    assert_eq!(
        UnrolledBytecode {
            bytes: bytecode,
            rows,
        },
        unrolled,
    );
    // Verify the unrolling in the circuit
    verify(k, vec![unrolled], true);
}

/// Tests a fully empty circuit
#[test]
fn bytecode_empty() {
    let k = 9;
    verify(k, vec![unroll(vec![], r())], true);
}

/// Tests a fully full circuit
#[test]
fn bytecode_full() {
    let k = 9;
    verify(k, vec![unroll(vec![7u8; 2usize.pow(k) - 6], r())], true);
}

/// Tests a circuit with incomplete bytecode
#[test]
fn bytecode_incomplete() {
    let k = 9;
    verify(k, vec![unroll(vec![7u8; 2usize.pow(k) + 1], r())], false);
}

/// Tests multiple bytecodes in a single circuit
#[test]
fn bytecode_push() {
    let k = 9;
    verify(
        k,
        vec![
            unroll(vec![], r()),
            unroll(vec![PUSH32], r()),
            unroll(vec![PUSH32, ADD], r()),
            unroll(vec![ADD, PUSH32], r()),
            unroll(vec![ADD, PUSH32, ADD], r()),
        ],
        true,
    );
}

/// Test invalid hash data
#[test]
fn bytecode_invalid_hash_data() {
    let k = 9;
    let bytecode = vec![8u8, 2, 3, 8, 9, 7, 128];
    let unrolled = unroll(bytecode, r());
    verify(k, vec![unrolled.clone()], true);
    // Change the hash on the first position
    {
        let mut invalid = unrolled.clone();
        invalid.rows[0].hash = invalid.rows[0].hash.add(&Fr::from_u64(1u64));
        verify(k, vec![invalid], false);
    }
    // Change the hash on another position
    {
        let mut invalid = unrolled.clone();
        invalid.rows[4].hash = invalid.rows[4].hash.add(&Fr::from_u64(1u64));
        verify(k, vec![invalid], false);
    }
    // Change all the hashes so it doesn't match the keccak lookup hash
    {
        let mut invalid = unrolled;
        for row in invalid.rows.iter_mut() {
            row.hash = Fr::one();
        }
        verify(k, vec![invalid], false);
    }
}

/// Test invalid index
#[test]
fn bytecode_invalid_index() {
    let k = 9;
    let bytecode = vec![8u8, 2, 3, 8, 9, 7, 128];
    let unrolled = unroll(bytecode, r());
    verify(k, vec![unrolled.clone()], true);
    // Start the index at 1
    {
        let mut invalid = unrolled.clone();
        for row in invalid.rows.iter_mut() {
            row.index = row.index.add(&Fr::one());
        }
        verify_unaided(k, &[invalid], false);
    }
    // Don't increment an index once
    {
        let mut invalid = unrolled;
        let last = invalid.rows.last_mut().unwrap();
        last.index = last.index.sub(&Fr::one());
        verify(k, vec![invalid], false);
    }
}

/// Test invalid byte data
#[test]
fn bytecode_invalid_byte_data() {
    let k = 9;
    let bytecode = vec![8u8, 2, 3, 8, 9, 7, 128];
    let unrolled = unroll(bytecode, r());
    verify(k, vec![unrolled.clone()], true);
    // Change the first byte
    {
        let mut invalid = unrolled.clone();
        invalid.rows[0].byte = Fr::from_u64(9u64);
        verify(k, vec![invalid], false);
    }
    // Change a byte on another position
    {
        let mut invalid = unrolled.clone();
        invalid.rows[5].byte = Fr::from_u64(6u64);
        verify(k, vec![invalid], false);
    }
    // Set a byte value out of range
    {
        let mut invalid = unrolled;
        invalid.rows[3].byte = Fr::from_u64(256u64);
        verify(k, vec![invalid], false);
    }
}

/// Test invalid is_code data
#[test]
fn bytecode_invalid_is_code() {
    let k = 9;
    let bytecode = vec![ADD, PUSH1, PUSH1, SUB, PUSH7, ADD, PUSH6];
    let unrolled = unroll(bytecode, r());
    verify(k, vec![unrolled.clone()], true);
    // Mark the 3rd byte as code (is push data from the first PUSH1)
    {
        let mut invalid = unrolled.clone();
        invalid.rows[2].is_code = Fr::one();
        verify(k, vec![invalid], false);
    }
    // Mark the 4rd byte as data (is code)
    {
        let mut invalid = unrolled.clone();
        invalid.rows[3].is_code = Fr::zero();
        verify(k, vec![invalid], false);
    }
    // Mark the 7th byte as code (is data for the PUSH7)
    {
        let mut invalid = unrolled;
        invalid.rows[6].is_code = Fr::one();
        verify(k, vec![invalid], false);
    }
}

/// As many bytecodes as usable rows fit where each has one byte.
#[test]
fn one_byte_each() {
    let bytecodes: Vec<_> = (0..506).map(|k| unroll(vec![(k % 256) as u8], r())).collect();
    verify(9, bytecodes, true);
}

/// Where as many bytecodes as usable rows do not have one byte each, no row of the table of hashes
/// is left for the rows that look nothing up.
#[test]
fn no_row_left_in_the_table_of_hashes() {
    let mut bytecodes: Vec<_> = (0..505).map(|k| unroll(vec![(k % 256) as u8], r())).collect();
    bytecodes.push(unroll(vec![], r()));
    verify(9, bytecodes, false);
}

/// A second bytecode that the usable rows have no room for is left out.
#[test]
fn bytecode_beyond_the_usable_rows() {
    verify(9, vec![unroll(vec![7u8; 506], r()), unroll(vec![1, 2, 3], r())], true);
    verify(9, vec![unroll(vec![7u8; 504], r()), unroll(vec![1, 2, 3], r())], false);
}

/// The table of hashes has another bytecode of the same length.
#[test]
fn hash_of_another_bytecode() {
    let a = unroll(vec![1, 2, 3], r());
    let mut b = unroll(vec![4, 5, 6], r());
    verify(9, vec![a.clone(), b.clone()], true);
    for row in b.rows.iter_mut() {
        row.hash = a.rows[0].hash;
    }
    verify(9, vec![a, b], false);
}

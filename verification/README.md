# bytecode_circuit

The bytecode circuit shows that rows of a table are the bytes of EVM bytecodes, each marked as an
opcode or as data of a push, together with the Keccak-256 hash of its bytecode.

* `opcode`, `unroller`, `hash`: bytecodes, unrolled into one row per byte.
* `config`, `rows`: the columns, gates and lookups of the circuit, and what they mean.
* `layout`: how unrolled bytecodes are laid out in the rows of the circuit.
* `expression`, `constraint_system`, `region`, `is_zero`, `satisfaction`: tables of cells, and the
  identities and lookups that they satisfy.
* `field`, `fr`, `u256`, `prime`, `fr_prime`: prime fields, and the scalar field of BN254.
* `completeness`, `soundness`, `acceptance`, `laid`, `row_count`: the theorems. A circuit that
  unrolled bytecodes were laid out in is satisfied; and a circuit that is satisfied holds the rows
  of bytecodes that are unrolled correctly and whose hashes are in its table.

`app/` makes a circuit of halo2 out of these columns, gates, lookups and cells.

A hash is looked up by the length and the random linear combination of a bytecode, so what is
shown of the bytes behind a hash holds up to two bytecodes of the same length and combination.

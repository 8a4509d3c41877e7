//! The bytecode circuit: unrolls EVM bytecode into one row per byte, lays the rows
//! out in the columns of a circuit, and states the polynomial identities and the
//! lookups that hold on tables that are laid out that way. Where they hold, a table
//! shows correctly unrolled bytecodes, up to bytecodes of the same length and
//! combination as those in its table of hashes.

pub mod acceptance;
pub mod completeness;
pub mod config;
pub mod constraint_system;
pub mod expression;
pub mod field;
pub mod filling;
pub mod fr;
pub mod fr_prime;
pub mod hash;
pub mod is_zero;
pub mod laid;
pub mod layout;
pub mod meaning;
pub mod opcode;
pub mod polynomials;
pub mod prime;
pub mod region;
pub mod row_count;
pub mod rows;
pub mod satisfaction;
pub mod soundness;
pub mod u256;
pub mod unroller;

//! A cell that shows whether an expression is 0: the inverse of its value, where it has one.

use crate::constraint_system::{with_query, ConstraintSystem};
use crate::expression::{AdviceColumn, Expression, Rotation, Table};
use crate::field::{
    inverse_or_zero, lemma_inverse_or_zero, lemma_zero_has_no_inverse, mul_mod, sub_mod, Field,
};
use crate::region::{Error, Region};
use vstd::prelude::*;

verus! {

/// The column of the inverses, and the expression that is 1 where the value is 0, and 0
/// where it is not.
#[derive(Debug)]
pub struct IsZeroConfig<F> {
    pub value_inv: AdviceColumn,
    pub is_zero_expression: Expression<F>,
}

/// Fills the column of the inverses.
pub struct IsZeroChip<F> {
    pub config: IsZeroConfig<F>,
}

impl<F: Field> Clone for IsZeroConfig<F> {
    fn clone(&self) -> (r: Self)
        ensures
            r == *self,
    {
        IsZeroConfig {
            value_inv: self.value_inv,
            is_zero_expression: self.is_zero_expression.clone(),
        }
    }
}

impl<F: Field> IsZeroChip<F> {
    /// Adds a gate that makes the expression show whether `value` is 0, in the rows where
    /// `q_enable` is not 0.
    pub fn configure(
        meta: &mut ConstraintSystem<F>,
        q_enable: Expression<F>,
        value: Expression<F>,
        value_inv: AdviceColumn,
    ) -> (r: IsZeroConfig<F>)
        ensures
            r.value_inv == value_inv,
            forall|t: Table, i: int| #[trigger]
                r.is_zero_expression.eval(t, i) == sub_mod(
                    F::modulus(),
                    1,
                    mul_mod(F::modulus(), value.eval(t, i), t.advice(value_inv, i)),
                ),
            final(meta).gates@ == old(meta).gates@.push(final(meta).gates@.last()),
            final(meta).gates@.last().name == "is_zero gate",
            final(meta).gates@.last().names() == seq![""@],
            forall|t: Table, i: int| #[trigger]
                final(meta).gates@.last().values(t, i) == seq![
                    mul_mod(
                        F::modulus(),
                        mul_mod(F::modulus(), q_enable.eval(t, i), value.eval(t, i)),
                        r.is_zero_expression.eval(t, i),
                    ),
                ],
            final(meta).advice_queries@ == with_query(
                old(meta).advice_queries@,
                (value_inv, Rotation { distance: 0 }),
            ),
            *final(meta) == (ConstraintSystem {
                advice_queries: final(meta).advice_queries,
                gates: final(meta).gates,
                ..*old(meta)
            }),
    {
        let inverse = meta.query_advice(value_inv, Rotation::cur());
        let is_zero_expression = Expression::one().minus(value.clone().times(inverse));
        let constraint = q_enable.times(value).times(is_zero_expression.clone());
        let mut constraints: Vec<(&'static str, Expression<F>)> = Vec::new();
        constraints.push(("", constraint));
        meta.create_gate("is_zero gate", constraints);
        proof {
            let gate = meta.gates@.last();
            assert(gate.names() =~= seq![""@]);
            assert forall|t: Table, i: int| #[trigger]
                gate.values(t, i) == seq![
                    mul_mod(
                        F::modulus(),
                        mul_mod(F::modulus(), q_enable.eval(t, i), value.eval(t, i)),
                        is_zero_expression.eval(t, i),
                    ),
                ] by {
                assert(gate.values(t, i) =~= seq![constraint.eval(t, i)]);
            }
        }
        IsZeroConfig { value_inv, is_zero_expression }
    }

    /// The chip of a configuration.
    pub fn construct(config: IsZeroConfig<F>) -> (r: Self)
        ensures
            r.config == config,
    {
        IsZeroChip { config }
    }

    /// Fills the cell of a row, for a value of the expression: with its inverse, or with 0.
    pub fn assign(&self, region: &mut Region<F>, offset: usize, value: F) -> (r: Result<(), Error>)
        requires
            old(region)@.wf(),
            self.config.value_inv.index < old(region)@.advice.len(),
        ensures
            final(region)@.wf(),
            offset < old(region)@.usable ==> r is Ok && final(region)@ == old(
                region,
            )@.set_advice(
                self.config.value_inv,
                offset as int,
                inverse_or_zero(F::modulus(), value.value()),
            ),
            offset < old(region)@.usable ==> {
                let cell = final(region)@.advice[self.config.value_inv.index as int][offset as int];
                &&& cell is Some
                &&& value.value() == 0 ==> cell->0 == 0
                &&& value.value() != 0 ==> 0 <= cell->0 < F::modulus() && (value.value() * cell->0)
                    % F::modulus() == 1
            },
            offset >= old(region)@.usable ==> r == Err::<(), Error>(Error::NotEnoughRowsAvailable)
                && final(region)@ == old(region)@,
    {
        let inverse = match value.invert() {
            Some(inverse) => {
                proof {
                    F::lemma_modulus_exceeds_u64();
                    F::lemma_value_reduced(inverse);
                    lemma_inverse_or_zero(F::modulus(), value.value(), inverse.value());
                }
                inverse
            },
            None => {
                proof {
                    F::lemma_modulus_exceeds_u64();
                    lemma_zero_has_no_inverse(F::modulus());
                }
                F::zero()
            },
        };
        region.assign_advice(self.config.value_inv, offset, inverse)
    }
}

} // verus!

//! Columns, tables of cells, and polynomial expressions over the cells of a table.

use crate::field::{add_mod, mul_mod, sub_mod, Field};
use vstd::arithmetic::div_mod::{
    lemma_add_mod_noop, lemma_mod_bound, lemma_mul_mod_noop_left, lemma_small_mod,
};
use vstd::prelude::*;

verus! {

/// A column of bits that switch identities on and off.
#[derive(Clone, Copy, Debug, PartialEq, Eq, Structural)]
pub struct Selector {
    pub index: usize,
    /// Whether the selector appears only as a factor of a whole identity.
    pub simple: bool,
}

/// A column whose cells are part of the circuit.
#[derive(Clone, Copy, Debug, PartialEq, Eq, Structural)]
pub struct FixedColumn {
    pub index: usize,
}

/// A column whose cells the prover fills.
#[derive(Clone, Copy, Debug, PartialEq, Eq, Structural)]
pub struct AdviceColumn {
    pub index: usize,
}

/// The distance from the current row to the row of a cell.
#[derive(Clone, Copy, Debug, PartialEq, Eq, Structural)]
pub struct Rotation {
    pub distance: i32,
}

impl Rotation {
    /// The current row.
    pub fn cur() -> (r: Self)
        ensures
            r.distance == 0,
    {
        Rotation { distance: 0 }
    }

    /// The row before the current one.
    pub fn prev() -> (r: Self)
        ensures
            r.distance == -1,
    {
        Rotation { distance: -1 }
    }
}

/// The cells of a circuit. The rows wrap around: the row before the first is the last.
pub struct Table {
    /// The number of rows.
    pub rows: int,
    /// The number of rows, from the first on, that hold cells of the circuit; the
    /// cells of the advice columns in the other rows are chosen at random.
    pub usable: int,
    /// The bits of each selector.
    pub selectors: Seq<Seq<bool>>,
    /// The cells of each fixed column.
    pub fixed: Seq<Seq<int>>,
    /// The cells of each advice column.
    pub advice: Seq<Seq<int>>,
}

impl Table {
    /// The bit of a selector in row `i`; 0 where the table has no such selector.
    pub open spec fn selector(self, s: Selector, i: int) -> int {
        if s.index < self.selectors.len() && self.selectors[s.index as int][i % self.rows] {
            1
        } else {
            0
        }
    }

    /// The cell of a fixed column in row `i`; 0 where the table has no such column.
    pub open spec fn fixed(self, c: FixedColumn, i: int) -> int {
        if c.index < self.fixed.len() {
            self.fixed[c.index as int][i % self.rows]
        } else {
            0
        }
    }

    /// The cell of an advice column in row `i`; 0 where the table has no such column.
    pub open spec fn advice(self, c: AdviceColumn, i: int) -> int {
        if c.index < self.advice.len() {
            self.advice[c.index as int][i % self.rows]
        } else {
            0
        }
    }

    /// Whether the cells are elements of the field of `p` elements.
    pub open spec fn in_field(self, p: int) -> bool {
        &&& forall|c: FixedColumn, i: int| 0 <= #[trigger] self.fixed(c, i) < p
        &&& forall|c: AdviceColumn, i: int| 0 <= #[trigger] self.advice(c, i) < p
    }
}

/// A polynomial over the cells of a table.
#[derive(Debug)]
pub enum Expression<F> {
    Constant(F),
    Selector(Selector),
    Fixed(FixedColumn, Rotation),
    Advice(AdviceColumn, Rotation),
    Negated(Box<Expression<F>>),
    Sum(Box<Expression<F>>, Box<Expression<F>>),
    Product(Box<Expression<F>>, Box<Expression<F>>),
    Scaled(Box<Expression<F>>, F),
}

impl<F: Field> Expression<F> {
    /// The value of the expression in row `i` of a table.
    pub open spec fn eval(self, t: Table, i: int) -> int
        decreases self,
    {
        let p = F::modulus();
        match self {
            Expression::Constant(c) => c.value(),
            Expression::Selector(s) => t.selector(s, i),
            Expression::Fixed(c, at) => t.fixed(c, i + at.distance),
            Expression::Advice(c, at) => t.advice(c, i + at.distance),
            Expression::Negated(a) => sub_mod(p, 0, a.eval(t, i)),
            Expression::Sum(a, b) => add_mod(p, a.eval(t, i), b.eval(t, i)),
            Expression::Product(a, b) => mul_mod(p, a.eval(t, i), b.eval(t, i)),
            Expression::Scaled(a, c) => mul_mod(p, a.eval(t, i), c.value()),
        }
    }

    /// The constant 1.
    pub fn one() -> (r: Self)
        ensures
            r matches Expression::Constant(c) && c.value() == 1,
            forall|t: Table, i: int| #[trigger] r.eval(t, i) == 1,
    {
        Expression::Constant(F::one())
    }

    /// The sum of two expressions.
    pub fn plus(self, other: Self) -> (r: Self)
        ensures
            r == Expression::Sum(Box::new(self), Box::new(other)),
            forall|t: Table, i: int| #[trigger]
                r.eval(t, i) == add_mod(F::modulus(), self.eval(t, i), other.eval(t, i)),
    {
        Expression::Sum(Box::new(self), Box::new(other))
    }

    /// The difference of two expressions.
    pub fn minus(self, other: Self) -> (r: Self)
        ensures
            r == Expression::Sum(Box::new(self), Box::new(Expression::Negated(Box::new(other)))),
            forall|t: Table, i: int| #[trigger]
                r.eval(t, i) == sub_mod(F::modulus(), self.eval(t, i), other.eval(t, i)),
    {
        let negated = Expression::Negated(Box::new(other));
        let r = Expression::Sum(Box::new(self), Box::new(negated));
        proof {
            F::lemma_modulus_exceeds_u64();
            assert forall|t: Table, i: int| #[trigger]
                r.eval(t, i) == sub_mod(F::modulus(), self.eval(t, i), other.eval(t, i)) by {
                let (p, a, b) = (F::modulus(), self.eval(t, i), other.eval(t, i));
                assert(negated.eval(t, i) == sub_mod(p, 0, b));
                assert(r.eval(t, i) == add_mod(p, a, negated.eval(t, i)));
                lemma_add_mod_noop(a, (0 - b) % p, p);
                lemma_add_mod_noop(a, 0 - b, p);
                lemma_mod_bound(0 - b, p);
                lemma_small_mod(((0 - b) % p) as nat, p as nat);
            }
        }
        r
    }

    /// The product of two expressions.
    pub fn times(self, other: Self) -> (r: Self)
        ensures
            r == Expression::Product(Box::new(self), Box::new(other)),
            forall|t: Table, i: int| #[trigger]
                r.eval(t, i) == mul_mod(F::modulus(), self.eval(t, i), other.eval(t, i)),
    {
        Expression::Product(Box::new(self), Box::new(other))
    }

    /// An expression times a constant.
    pub fn scale(self, c: F) -> (r: Self)
        ensures
            r == Expression::Scaled(Box::new(self), c),
            forall|t: Table, i: int| #[trigger]
                r.eval(t, i) == mul_mod(F::modulus(), self.eval(t, i), c.value()),
    {
        Expression::Scaled(Box::new(self), c)
    }
}

impl<F: Field> Clone for Expression<F> {
    fn clone(&self) -> (r: Self)
        ensures
            r == *self,
        decreases self,
    {
        match self {
            Expression::Constant(c) => Expression::Constant(*c),
            Expression::Selector(s) => Expression::Selector(*s),
            Expression::Fixed(c, at) => Expression::Fixed(*c, *at),
            Expression::Advice(c, at) => Expression::Advice(*c, *at),
            Expression::Negated(a) => Expression::Negated(Box::new((&**a).clone())),
            Expression::Sum(a, b) => Expression::Sum(
                Box::new((&**a).clone()),
                Box::new((&**b).clone()),
            ),
            Expression::Product(a, b) => Expression::Product(
                Box::new((&**a).clone()),
                Box::new((&**b).clone()),
            ),
            Expression::Scaled(a, c) => Expression::Scaled(Box::new((&**a).clone()), *c),
        }
    }
}

/// 1 where the expression is 0, and 0 where it is 1.
pub fn not<F: Field>(e: Expression<F>) -> (r: Expression<F>)
    ensures
        forall|t: Table, i: int| #[trigger]
            r.eval(t, i) == sub_mod(F::modulus(), 1, e.eval(t, i)),
{
    Expression::one().minus(e)
}

/// The product of numbers modulo `p`.
pub open spec fn product(p: int, factors: Seq<int>) -> int
    decreases factors.len(),
{
    if factors.len() == 0 {
        1
    } else {
        mul_mod(p, product(p, factors.drop_last()), factors.last())
    }
}

/// The values of expressions in row `i` of a table.
pub open spec fn eval_each<F: Field>(es: Seq<Expression<F>>, t: Table, i: int) -> Seq<int> {
    Seq::new(es.len(), |k: int| es[k].eval(t, i))
}

/// The product of two numbers.
proof fn lemma_product_of_two(p: int, factors: Seq<int>)
    requires
        p > 1,
        factors.len() == 2,
    ensures
        product(p, factors) == mul_mod(p, factors[0], factors[1]),
{
    reveal_with_fuel(product, 3);
    lemma_mul_mod_noop_left(factors[0], factors[1], p);
}

/// The product of three numbers.
proof fn lemma_product_of_three(p: int, factors: Seq<int>)
    requires
        p > 1,
        factors.len() == 3,
    ensures
        product(p, factors) == mul_mod(p, mul_mod(p, factors[0], factors[1]), factors[2]),
{
    lemma_product_of_two(p, factors.drop_last());
}

/// The product of expressions: of bits, 1 where all of them are 1.
pub fn and<F: Field>(inputs: Vec<Expression<F>>) -> (r: Expression<F>)
    ensures
        forall|t: Table, i: int| #[trigger]
            r.eval(t, i) == product(F::modulus(), eval_each(inputs@, t, i)),
        inputs@.len() == 2 ==> forall|t: Table, i: int| #[trigger]
            r.eval(t, i) == mul_mod(
                F::modulus(),
                inputs@[0].eval(t, i),
                inputs@[1].eval(t, i),
            ),
        inputs@.len() == 3 ==> forall|t: Table, i: int| #[trigger]
            r.eval(t, i) == mul_mod(
                F::modulus(),
                mul_mod(F::modulus(), inputs@[0].eval(t, i), inputs@[1].eval(t, i)),
                inputs@[2].eval(t, i),
            ),
{
    let mut r = Expression::one();
    let mut k: usize = 0;
    while k < inputs.len()
        invariant
            k <= inputs@.len(),
            forall|t: Table, i: int| #[trigger]
                r.eval(t, i) == product(F::modulus(), eval_each(inputs@.take(k as int), t, i)),
        decreases inputs@.len() - k,
    {
        let ghost before = r;
        r = r.times(inputs[k].clone());
        k = k + 1;
        proof {
            assert forall|t: Table, i: int| #[trigger]
                r.eval(t, i) == product(
                    F::modulus(),
                    eval_each(inputs@.take(k as int), t, i),
                ) by {
                let factors = eval_each(inputs@.take(k as int), t, i);
                assert(factors.drop_last() =~= eval_each(inputs@.take(k - 1), t, i));
                assert(before.eval(t, i) == product(F::modulus(), factors.drop_last()));
            }
        }
    }
    proof {
        F::lemma_modulus_exceeds_u64();
        assert(inputs@.take(k as int) =~= inputs@);
        assert forall|t: Table, i: int| inputs@.len() == 2 implies #[trigger] r.eval(t, i)
            == mul_mod(F::modulus(), inputs@[0].eval(t, i), inputs@[1].eval(t, i)) by {
            lemma_product_of_two(F::modulus(), eval_each(inputs@, t, i));
        }
        assert forall|t: Table, i: int| inputs@.len() == 3 implies #[trigger] r.eval(t, i)
            == mul_mod(
            F::modulus(),
            mul_mod(F::modulus(), inputs@[0].eval(t, i), inputs@[1].eval(t, i)),
            inputs@[2].eval(t, i),
        ) by {
            lemma_product_of_three(F::modulus(), eval_each(inputs@, t, i));
        }
    }
    r
}

/// Of bits, 1 where one of them is 1.
pub fn or<F: Field>(inputs: Vec<Expression<F>>) -> (r: Expression<F>)
    ensures
        forall|t: Table, i: int| #[trigger]
            r.eval(t, i) == sub_mod(
                F::modulus(),
                1,
                product(
                    F::modulus(),
                    eval_each(inputs@, t, i).map_values(|x: int| sub_mod(F::modulus(), 1, x)),
                ),
            ),
        inputs@.len() == 2 ==> forall|t: Table, i: int| #[trigger]
            r.eval(t, i) == sub_mod(
                F::modulus(),
                1,
                mul_mod(
                    F::modulus(),
                    sub_mod(F::modulus(), 1, inputs@[0].eval(t, i)),
                    sub_mod(F::modulus(), 1, inputs@[1].eval(t, i)),
                ),
            ),
{
    let mut negations: Vec<Expression<F>> = Vec::new();
    let mut k: usize = 0;
    while k < inputs.len()
        invariant
            k <= inputs@.len(),
            negations@.len() == k,
            forall|j: int, t: Table, i: int|
                0 <= j < k ==> #[trigger] negations@[j].eval(t, i) == sub_mod(
                    F::modulus(),
                    1,
                    inputs@[j].eval(t, i),
                ),
        decreases inputs@.len() - k,
    {
        negations.push(not(inputs[k].clone()));
        k = k + 1;
    }
    let ghost all = negations@;
    let none = and(negations);
    let r = not(none);
    proof {
        assert forall|t: Table, i: int| #[trigger]
            r.eval(t, i) == sub_mod(
                F::modulus(),
                1,
                product(
                    F::modulus(),
                    eval_each(inputs@, t, i).map_values(|x: int| sub_mod(F::modulus(), 1, x)),
                ),
            ) by {
            assert(eval_each(all, t, i) =~= eval_each(inputs@, t, i).map_values(
                |x: int| sub_mod(F::modulus(), 1, x),
            ));
            assert(none.eval(t, i) == product(F::modulus(), eval_each(all, t, i)));
        }
        assert forall|t: Table, i: int| inputs@.len() == 2 implies #[trigger] r.eval(t, i)
            == sub_mod(
            F::modulus(),
            1,
            mul_mod(
                F::modulus(),
                sub_mod(F::modulus(), 1, inputs@[0].eval(t, i)),
                sub_mod(F::modulus(), 1, inputs@[1].eval(t, i)),
            ),
        ) by {
            assert(none.eval(t, i) == mul_mod(
                F::modulus(),
                all[0].eval(t, i),
                all[1].eval(t, i),
            ));
        }
    }
    r
}

/// `when_true` where the selector is 1, and `when_false` where it is 0.
pub fn select<F: Field>(
    selector: Expression<F>,
    when_true: Expression<F>,
    when_false: Expression<F>,
) -> (r: Expression<F>)
    ensures
        forall|t: Table, i: int| #[trigger]
            r.eval(t, i) == add_mod(
                F::modulus(),
                mul_mod(F::modulus(), selector.eval(t, i), when_true.eval(t, i)),
                mul_mod(
                    F::modulus(),
                    sub_mod(F::modulus(), 1, selector.eval(t, i)),
                    when_false.eval(t, i),
                ),
            ),
{
    selector.clone().times(when_true).plus(not(selector).times(when_false))
}

/// The value of an expression, from those of its parts: a cell is read at its distance from the
/// current row, in rows that wrap around.
pub proof fn lemma_value_of_parts<F: Field>(
    a: Expression<F>,
    b: Expression<F>,
    v: F,
    s: Selector,
    c: FixedColumn,
    d: AdviceColumn,
    at: Rotation,
    t: Table,
    i: int,
)
    ensures
        Expression::Constant(v).eval(t, i) == v.value(),
        s.index < t.selectors.len() ==> Expression::<F>::Selector(s).eval(t, i) == if t.selectors[
        s.index as int][i % t.rows] {
            1int
        } else {
            0int
        },
        c.index < t.fixed.len() ==> Expression::<F>::Fixed(c, at).eval(t, i) == t.fixed[
        c.index as int][(i + at.distance) % t.rows],
        d.index < t.advice.len() ==> Expression::<F>::Advice(d, at).eval(t, i) == t.advice[
        d.index as int][(i + at.distance) % t.rows],
        Expression::Negated(Box::new(a)).eval(t, i) == (0 - a.eval(t, i)) % F::modulus(),
        Expression::Sum(Box::new(a), Box::new(b)).eval(t, i) == (a.eval(t, i) + b.eval(t, i))
            % F::modulus(),
        Expression::Product(Box::new(a), Box::new(b)).eval(t, i) == (a.eval(t, i) * b.eval(t, i))
            % F::modulus(),
        Expression::Scaled(Box::new(a), v).eval(t, i) == (a.eval(t, i) * v.value()) % F::modulus(),
{
}

/// The product of numbers modulo `p` is what their product leaves when `p` divides it.
pub proof fn lemma_product(p: int, factors: Seq<int>)
    requires
        p > 1,
    ensures
        product(p, factors) == factors.fold_left(1int, |all: int, x: int| all * x) % p,
    decreases factors.len(),
{
    if factors.len() == 0 {
        lemma_small_mod(1, p as nat);
    } else {
        lemma_product(p, factors.drop_last());
        let all = factors.drop_last().fold_left(1int, |all: int, x: int| all * x);
        lemma_mul_mod_noop_left(all, factors.last(), p);
    }
}

} // verus!

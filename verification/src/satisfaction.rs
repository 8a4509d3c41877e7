//! Whether the cells of a region satisfy a constraint system.

use crate::constraint_system::{ConstraintSystem, Gate, Lookup};
use crate::expression::{AdviceColumn, Expression, FixedColumn, Rotation, Selector, Table};
use crate::field::Field;
use crate::region::Region;
use vstd::arithmetic::div_mod::{
    lemma_fundamental_div_mod, lemma_mod_multiples_vanish, lemma_mod_twice, lemma_small_mod,
};
use vstd::prelude::*;

verus! {

/// A region together with what stands in the rows that are not usable: `blind` in the advice
/// columns.
struct Completed<'a, F> {
    region: &'a Region<F>,
    rows: usize,
    blind: F,
}

/// The numbers that elements stand for.
pub open spec fn values_of<F: Field>(elements: Seq<F>) -> Seq<int> {
    elements.map_values(|x: F| x.value())
}

/// Whether two rows of elements are the same.
fn same<F: Field>(a: &Vec<F>, b: &Vec<F>) -> (r: bool)
    ensures
        r == (values_of(a@) == values_of(b@)),
{
    if a.len() != b.len() {
        assert(values_of(a@).len() != values_of(b@).len());
        return false;
    }
    let mut k: usize = 0;
    while k < a.len()
        invariant
            k <= a@.len(),
            a@.len() == b@.len(),
            forall|j: int| 0 <= j < k ==> (#[trigger] a@[j]).value() == b@[j].value(),
        decreases a@.len() - k,
    {
        if !a[k].equals(&b[k]) {
            assert(values_of(a@)[k as int] != values_of(b@)[k as int]);
            return false;
        }
        k = k + 1;
    }
    assert(values_of(a@) =~= values_of(b@));
    true
}

/// Where a row of elements stands among others.
fn position<F: Field>(entries: &Vec<Vec<F>>, inputs: &Vec<F>) -> (r: Option<usize>)
    ensures
        match r {
            Some(j) => j < entries@.len() && values_of(entries@[j as int]@) == values_of(inputs@),
            None => forall|j: int|
                0 <= j < entries@.len() ==> values_of((#[trigger] entries@[j])@) != values_of(
                    inputs@,
                ),
        },
{
    let mut j: usize = 0;
    while j < entries.len()
        invariant
            j <= entries@.len(),
            forall|k: int|
                0 <= k < j ==> values_of((#[trigger] entries@[k])@) != values_of(inputs@),
        decreases entries@.len() - j,
    {
        if same(&entries[j], inputs) {
            return Some(j);
        }
        j = j + 1;
    }
    None
}

impl<'a, F: Field> Completed<'a, F> {
    /// The table of all rows.
    spec fn table(self) -> Table {
        self.region@.table(self.rows as int, self.blind.value())
    }

    /// Whether the region is part of the rows.
    spec fn wf(self) -> bool {
        &&& self.region@.wf()
        &&& 0 < self.rows
        &&& self.region@.usable <= self.rows
    }

    /// The row at a distance from row `i`, where the rows wrap around.
    fn row_at(&self, i: usize, at: Rotation) -> (j: usize)
        requires
            self.wf(),
            i < self.rows,
        ensures
            j < self.rows,
            j == (i + at.distance) % (self.rows as int),
    {
        let rows: u128 = self.rows as u128;
        if at.distance >= 0 {
            ((i as u128 + at.distance as u128) % rows) as usize
        } else {
            let d: u128 = (-(at.distance as i64)) as u128;
            let back: u128 = d % rows;
            let j: u128 = (i as u128 + rows - back) % rows;
            proof {
                let (n, q) = (rows as int, (d / rows) as int);
                lemma_fundamental_div_mod(d as int, n);
                assert(i - d == n * (-(q + 1)) + (i + n - back)) by (nonlinear_arith)
                    requires
                        d == n * q + back,
                ;
                lemma_mod_multiples_vanish(-(q + 1), i + n - back, n);
            }
            j as usize
        }
    }

    /// The bit of a selector.
    fn selector(&self, s: Selector, i: usize) -> (r: F)
        requires
            self.wf(),
            i < self.rows,
        ensures
            r.value() == self.table().selector(s, i as int),
    {
        proof {
            lemma_small_mod(i as nat, self.rows as nat);
        }
        if s.index < self.region.selectors.len() && i < self.region.usable_rows {
            assert(self.region@.selectors[s.index as int].len() == self.region@.usable);
            if self.region.selectors[s.index][i] {
                return F::one();
            }
        }
        F::zero()
    }

    /// The cell of a fixed column.
    fn fixed(&self, c: FixedColumn, i: usize) -> (r: F)
        requires
            self.wf(),
            i < self.rows,
        ensures
            r.value() == self.table().fixed(c, i as int),
    {
        proof {
            lemma_small_mod(i as nat, self.rows as nat);
        }
        if c.index < self.region.fixed.len() && i < self.region.usable_rows {
            assert(self.region@.fixed[c.index as int].len() == self.region@.usable);
            if let Some(v) = self.region.fixed[c.index][i] {
                return v;
            }
        }
        F::zero()
    }

    /// The cell of an advice column.
    fn advice(&self, c: AdviceColumn, i: usize) -> (r: F)
        requires
            self.wf(),
            i < self.rows,
        ensures
            r.value() == self.table().advice(c, i as int),
    {
        proof {
            lemma_small_mod(i as nat, self.rows as nat);
        }
        if c.index >= self.region.advice.len() {
            return F::zero();
        }
        if i >= self.region.usable_rows {
            return self.blind;
        }
        assert(self.region@.advice[c.index as int].len() == self.region@.usable);
        match self.region.advice[c.index][i] {
            Some(v) => v,
            None => F::zero(),
        }
    }

    /// The value of an expression.
    fn evaluate(&self, e: &Expression<F>, i: usize) -> (r: F)
        requires
            self.wf(),
            i < self.rows,
        ensures
            r.value() == e.eval(self.table(), i as int),
        decreases e,
    {
        match e {
            Expression::Constant(c) => *c,
            Expression::Selector(s) => self.selector(*s, i),
            Expression::Fixed(c, at) => {
                let j = self.row_at(i, *at);
                proof {
                    lemma_mod_twice(i + at.distance, self.rows as int);
                }
                self.fixed(*c, j)
            },
            Expression::Advice(c, at) => {
                let j = self.row_at(i, *at);
                proof {
                    lemma_mod_twice(i + at.distance, self.rows as int);
                }
                self.advice(*c, j)
            },
            Expression::Negated(a) => F::zero().sub(&self.evaluate(a, i)),
            Expression::Sum(a, b) => self.evaluate(a, i).add(&self.evaluate(b, i)),
            Expression::Product(a, b) => self.evaluate(a, i).mul(&self.evaluate(b, i)),
            Expression::Scaled(a, c) => self.evaluate(a, i).mul(c),
        }
    }

    /// Whether a gate holds in a row.
    fn gate_holds(&self, gate: &Gate<F>, i: usize) -> (r: bool)
        requires
            self.wf(),
            i < self.rows,
        ensures
            r == gate.holds(self.table(), i as int),
    {
        let ghost values = gate.values(self.table(), i as int);
        let mut k: usize = 0;
        while k < gate.constraints.len()
            invariant
                self.wf(),
                i < self.rows,
                values == gate.values(self.table(), i as int),
                k <= gate.constraints@.len(),
                forall|j: int| 0 <= j < k ==> #[trigger] values[j] == 0,
            decreases gate.constraints@.len() - k,
        {
            let value = self.evaluate(&gate.constraints[k].1, i);
            assert(values[k as int] == value.value());
            if !value.equals(&F::zero()) {
                return false;
            }
            k = k + 1;
        }
        true
    }

    /// The values of some expressions in a row.
    fn evaluate_inputs(&self, lookup: &Lookup<F>, i: usize) -> (r: Vec<F>)
        requires
            self.wf(),
            i < self.rows,
        ensures
            values_of(r@) == lookup.inputs(self.table(), i as int),
    {
        let mut r: Vec<F> = Vec::new();
        let mut k: usize = 0;
        while k < lookup.columns.len()
            invariant
                self.wf(),
                i < self.rows,
                k <= lookup.columns@.len(),
                r@.len() == k,
                forall|j: int|
                    0 <= j < k ==> (#[trigger] r@[j]).value() == lookup.inputs(
                        self.table(),
                        i as int,
                    )[j],
            decreases lookup.columns@.len() - k,
        {
            r.push(self.evaluate(&lookup.columns[k].0, i));
            k = k + 1;
        }
        assert(values_of(r@) =~= lookup.inputs(self.table(), i as int));
        r
    }

    /// The entry of a row.
    fn evaluate_entry(&self, lookup: &Lookup<F>, i: usize) -> (r: Vec<F>)
        requires
            self.wf(),
            i < self.rows,
        ensures
            values_of(r@) == lookup.entry(self.table(), i as int),
    {
        let mut r: Vec<F> = Vec::new();
        let mut k: usize = 0;
        while k < lookup.columns.len()
            invariant
                self.wf(),
                i < self.rows,
                k <= lookup.columns@.len(),
                r@.len() == k,
                forall|j: int|
                    0 <= j < k ==> (#[trigger] r@[j]).value() == lookup.entry(
                        self.table(),
                        i as int,
                    )[j],
            decreases lookup.columns@.len() - k,
        {
            r.push(self.evaluate(&lookup.columns[k].1, i));
            k = k + 1;
        }
        assert(values_of(r@) =~= lookup.entry(self.table(), i as int));
        r
    }

    /// The entries of all usable rows.
    fn entries(&self, lookup: &Lookup<F>) -> (r: Vec<Vec<F>>)
        requires
            self.wf(),
        ensures
            r@.len() == self.region@.usable,
            forall|j: int|
                0 <= j < r@.len() ==> values_of((#[trigger] r@[j])@) == lookup.entry(
                    self.table(),
                    j,
                ),
    {
        let mut r: Vec<Vec<F>> = Vec::new();
        let mut j: usize = 0;
        while j < self.region.usable_rows
            invariant
                self.wf(),
                j <= self.region.usable_rows,
                r@.len() == j,
                forall|k: int|
                    0 <= k < j ==> values_of((#[trigger] r@[k])@) == lookup.entry(self.table(), k),
            decreases self.region.usable_rows - j,
        {
            r.push(self.evaluate_entry(lookup, j));
            j = j + 1;
        }
        r
    }

    /// Whether everything that is looked up is found.
    fn lookup_holds(&self, lookup: &Lookup<F>) -> (r: bool)
        requires
            self.wf(),
        ensures
            r == lookup.holds(self.table()),
    {
        let ghost t = self.table();
        let entries = self.entries(lookup);
        let mut i: usize = 0;
        while i < self.region.usable_rows
            invariant
                self.wf(),
                t == self.table(),
                i <= self.region.usable_rows,
                entries@.len() == self.region@.usable,
                forall|j: int|
                    0 <= j < entries@.len() ==> values_of((#[trigger] entries@[j])@)
                        == lookup.entry(t, j),
                forall|k: int| 0 <= k < i ==> #[trigger] lookup.finds(t, k),
            decreases self.region.usable_rows - i,
        {
            let inputs = self.evaluate_inputs(lookup, i);
            let found = position(&entries, &inputs);
            proof {
                match found {
                    Some(j) => {
                        assert(lookup.entry(t, j as int) == lookup.inputs(t, i as int));
                    },
                    None => {
                        assert forall|j: int| 0 <= j < t.usable implies lookup.inputs(t, i as int)
                            != #[trigger] lookup.entry(t, j) by {
                            assert(values_of(entries@[j]@) == lookup.entry(t, j));
                        }
                        assert(!lookup.finds(t, i as int));
                    },
                }
            }
            if found.is_none() {
                return false;
            }
            i = i + 1;
        }
        true
    }

    /// Whether a constraint system is satisfied.
    fn satisfies(&self, meta: &ConstraintSystem<F>) -> (r: bool)
        requires
            self.wf(),
        ensures
            r == meta.satisfied(self.table()),
    {
        let ghost t = self.table();
        let mut g: usize = 0;
        while g < meta.gates.len()
            invariant
                self.wf(),
                t == self.table(),
                g <= meta.gates@.len(),
                forall|h: int, i: int|
                    0 <= h < g && 0 <= i < t.rows ==> #[trigger] meta.gates@[h].holds(t, i),
            decreases meta.gates@.len() - g,
        {
            let gate = &meta.gates[g];
            let mut i: usize = 0;
            while i < self.rows
                invariant
                    self.wf(),
                    t == self.table(),
                    g < meta.gates@.len(),
                    *gate == meta.gates@[g as int],
                    i <= self.rows,
                    forall|j: int| 0 <= j < i ==> #[trigger] gate.holds(t, j),
                decreases self.rows - i,
            {
                if !self.gate_holds(gate, i) {
                    assert(!meta.gates@[g as int].holds(t, i as int));
                    return false;
                }
                i = i + 1;
            }
            g = g + 1;
        }
        let mut l: usize = 0;
        while l < meta.lookups.len()
            invariant
                self.wf(),
                t == self.table(),
                meta.gates_hold(t),
                l <= meta.lookups@.len(),
                forall|h: int| 0 <= h < l ==> #[trigger] meta.lookups@[h].holds(t),
            decreases meta.lookups@.len() - l,
        {
            if !self.lookup_holds(&meta.lookups[l]) {
                assert(!meta.lookups@[l as int].holds(t));
                return false;
            }
            l = l + 1;
        }
        true
    }
}

impl<F: Field> ConstraintSystem<F> {
    /// Whether the cells of a region satisfy the constraint system, in a table of `rows` rows
    /// with `blind` in the advice columns of the rows that are not usable.
    pub fn verify(&self, region: &Region<F>, rows: usize, blind: F) -> (r: bool)
        requires
            region@.wf(),
            0 < rows,
            region@.usable <= rows,
        ensures
            r == self.satisfied(region@.table(rows as int, blind.value())),
    {
        let completed = Completed { region, rows, blind };
        completed.satisfies(self)
    }
}

} // verus!

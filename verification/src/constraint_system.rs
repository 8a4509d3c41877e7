//! Constraint systems: the columns of a circuit, the identities that its cells must
//! meet in every row, and the lookups of some cells among others.

use crate::expression::{AdviceColumn, Expression, FixedColumn, Rotation, Selector, Table};
use crate::field::{mul_mod, sub_mod, Field};
use vstd::prelude::*;

verus! {

/// `array_init::array_init`: each element of the array is what the function returns for the
/// element's index. What becomes of a function with a state of its own is not stated: verified
/// code has none.
pub assume_specification<F, T, const N: usize>[ array_init::array_init::<F, T, N> ](
    initializer: F,
) -> (r: [T; N]) where F: FnMut(usize) -> T
    requires
        forall|i: usize| i < N ==> #[trigger] call_requires(initializer, (i,)),
    ensures
        forall|i: int|
            0 <= i < N ==> call_ensures(initializer, (i as usize,), #[trigger] r@[i]),
;

/// Named expressions that are 0 in every row.
pub struct Gate<F> {
    pub name: &'static str,
    pub constraints: Vec<(&'static str, Expression<F>)>,
}

impl<F: Field> Gate<F> {
    /// The names of the constraints.
    pub open spec fn names(self) -> Seq<Seq<char>> {
        Seq::new(self.constraints@.len(), |k: int| self.constraints@[k].0@)
    }

    /// The values of the expressions in row `i` of a table.
    pub open spec fn values(self, t: Table, i: int) -> Seq<int> {
        Seq::new(self.constraints@.len(), |k: int| self.constraints@[k].1.eval(t, i))
    }

    /// Whether its constraints hold in row `i` of a table.
    pub open spec fn holds(self, t: Table, i: int) -> bool {
        forall|k: int| 0 <= k < self.values(t, i).len() ==> #[trigger] self.values(t, i)[k] == 0
    }
}

/// Expressions whose values, in every usable row, stand side by side in one of the
/// usable rows of a table. Each column holds an input and the table column it is
/// looked up in.
pub struct Lookup<F> {
    pub name: &'static str,
    pub columns: Vec<(Expression<F>, Expression<F>)>,
}

impl<F: Field> Lookup<F> {
    /// The values that are looked up in row `i`.
    pub open spec fn inputs(self, t: Table, i: int) -> Seq<int> {
        Seq::new(self.columns@.len(), |k: int| self.columns@[k].0.eval(t, i))
    }

    /// The entry that row `j` holds.
    pub open spec fn entry(self, t: Table, j: int) -> Seq<int> {
        Seq::new(self.columns@.len(), |k: int| self.columns@[k].1.eval(t, j))
    }

    /// Whether what row `i` looks up is found.
    pub open spec fn finds(self, t: Table, i: int) -> bool {
        exists|j: int| 0 <= j < t.usable && self.inputs(t, i) == #[trigger] self.entry(t, j)
    }

    /// Whether everything that is looked up is found.
    pub open spec fn holds(self, t: Table) -> bool {
        forall|i: int| 0 <= i < t.usable ==> #[trigger] self.finds(t, i)
    }
}

/// The columns, gates and lookups of a circuit.
pub struct ConstraintSystem<F> {
    pub num_selectors: usize,
    pub num_fixed_columns: usize,
    pub num_advice_columns: usize,
    /// The cells, relative to the current row, that expressions were built from.
    pub advice_queries: Vec<(AdviceColumn, Rotation)>,
    pub gates: Vec<Gate<F>>,
    pub lookups: Vec<Lookup<F>>,
}

/// The queries `queries` with one more, unless it is among them.
pub open spec fn with_query(
    queries: Seq<(AdviceColumn, Rotation)>,
    query: (AdviceColumn, Rotation),
) -> Seq<(AdviceColumn, Rotation)> {
    if queries.contains(query) {
        queries
    } else {
        queries.push(query)
    }
}

/// The queries `queries` with those of a list one after the other.
pub open spec fn with_queries(
    queries: Seq<(AdviceColumn, Rotation)>,
    list: Seq<(AdviceColumn, Rotation)>,
) -> Seq<(AdviceColumn, Rotation)>
    decreases list.len(),
{
    if list.len() == 0 {
        queries
    } else {
        with_query(with_queries(queries, list.drop_last()), list.last())
    }
}

/// A list that ends in a query.
pub broadcast proof fn lemma_with_queries_push(
    queries: Seq<(AdviceColumn, Rotation)>,
    list: Seq<(AdviceColumn, Rotation)>,
    query: (AdviceColumn, Rotation),
)
    ensures
        #[trigger] with_queries(queries, list.push(query)) == with_query(
            with_queries(queries, list),
            query,
        ),
{
    assert(list.push(query).drop_last() =~= list);
}

/// A list adds at most as many queries as it has.
pub proof fn lemma_with_queries_length(
    queries: Seq<(AdviceColumn, Rotation)>,
    list: Seq<(AdviceColumn, Rotation)>,
)
    ensures
        with_queries(queries, list).len() <= queries.len() + list.len(),
    decreases list.len(),
{
    if list.len() > 0 {
        lemma_with_queries_length(queries, list.drop_last());
    }
}

/// Two lists one after the other.
pub proof fn lemma_with_queries_add(
    queries: Seq<(AdviceColumn, Rotation)>,
    list: Seq<(AdviceColumn, Rotation)>,
    more: Seq<(AdviceColumn, Rotation)>,
)
    ensures
        with_queries(queries, list + more) == with_queries(with_queries(queries, list), more),
    decreases more.len(),
{
    if more.len() == 0 {
        assert(list + more =~= list);
    } else {
        lemma_with_queries_add(queries, list, more.drop_last());
        assert((list + more).drop_last() =~= list + more.drop_last());
    }
}

/// The number of queries of one column.
pub open spec fn column_queries(queries: Seq<(AdviceColumn, Rotation)>, column: int) -> int
    decreases queries.len(),
{
    if queries.len() == 0 {
        0
    } else {
        column_queries(queries.drop_last(), column) + if queries.last().0.index == column {
            1int
        } else {
            0int
        }
    }
}

/// The largest number of queries of one of the first `columns` columns.
pub open spec fn most_queries(queries: Seq<(AdviceColumn, Rotation)>, columns: int) -> int
    decreases columns,
{
    if columns <= 0 {
        0
    } else if column_queries(queries, columns - 1) > most_queries(queries, columns - 1) {
        column_queries(queries, columns - 1)
    } else {
        most_queries(queries, columns - 1)
    }
}

impl<F: Field> ConstraintSystem<F> {
    /// Whether every gate holds in every row.
    pub open spec fn gates_hold(self, t: Table) -> bool {
        forall|g: int, i: int|
            0 <= g < self.gates@.len() && 0 <= i < t.rows ==> #[trigger] self.gates@[g].holds(t, i)
    }

    /// Whether every lookup holds.
    pub open spec fn lookups_hold(self, t: Table) -> bool {
        forall|l: int| 0 <= l < self.lookups@.len() ==> #[trigger] self.lookups@[l].holds(t)
    }

    /// Whether every gate holds in every row, and every lookup holds.
    pub open spec fn satisfied(self, t: Table) -> bool {
        self.gates_hold(t) && self.lookups_hold(t)
    }

    /// The number of rows that a circuit needs beside those that it fills, and one more:
    /// a row at random for each point where a column is opened (at least 3 points, 1 for
    /// the opening itself, and 1 to spare), the row that ends the usable ones, and one
    /// that keeps it from the first.
    pub open spec fn required_rows(self) -> int {
        let opened = most_queries(self.advice_queries@, self.num_advice_columns as int);
        if opened > 3 {
            opened + 5
        } else {
            8
        }
    }

    /// A constraint system with nothing in it.
    pub fn new() -> (r: Self)
        ensures
            r.num_selectors == 0,
            r.num_fixed_columns == 0,
            r.num_advice_columns == 0,
            r.advice_queries@ == Seq::<(AdviceColumn, Rotation)>::empty(),
            r.gates@ == Seq::<Gate<F>>::empty(),
            r.lookups@ == Seq::<Lookup<F>>::empty(),
    {
        ConstraintSystem {
            num_selectors: 0,
            num_fixed_columns: 0,
            num_advice_columns: 0,
            advice_queries: Vec::new(),
            gates: Vec::new(),
            lookups: Vec::new(),
        }
    }

    /// Adds a selector that appears only as a factor of whole identities.
    pub fn selector(&mut self) -> (r: Selector)
        requires
            old(self).num_selectors < usize::MAX,
        ensures
            r == (Selector { index: old(self).num_selectors, simple: true }),
            *final(self) == (ConstraintSystem {
                num_selectors: (old(self).num_selectors + 1) as usize,
                ..*old(self)
            }),
    {
        let index = self.num_selectors;
        self.num_selectors = index + 1;
        Selector { index, simple: true }
    }

    /// Adds a selector that may appear anywhere in an expression.
    pub fn complex_selector(&mut self) -> (r: Selector)
        requires
            old(self).num_selectors < usize::MAX,
        ensures
            r == (Selector { index: old(self).num_selectors, simple: false }),
            *final(self) == (ConstraintSystem {
                num_selectors: (old(self).num_selectors + 1) as usize,
                ..*old(self)
            }),
    {
        let index = self.num_selectors;
        self.num_selectors = index + 1;
        Selector { index, simple: false }
    }

    /// Adds a fixed column.
    pub fn fixed_column(&mut self) -> (r: FixedColumn)
        requires
            old(self).num_fixed_columns < usize::MAX,
        ensures
            r.index == old(self).num_fixed_columns,
            *final(self) == (ConstraintSystem {
                num_fixed_columns: (old(self).num_fixed_columns + 1) as usize,
                ..*old(self)
            }),
    {
        let index = self.num_fixed_columns;
        self.num_fixed_columns = index + 1;
        FixedColumn { index }
    }

    /// Adds an advice column.
    pub fn advice_column(&mut self) -> (r: AdviceColumn)
        requires
            old(self).num_advice_columns < usize::MAX,
        ensures
            r.index == old(self).num_advice_columns,
            *final(self) == (ConstraintSystem {
                num_advice_columns: (old(self).num_advice_columns + 1) as usize,
                ..*old(self)
            }),
    {
        let index = self.num_advice_columns;
        self.num_advice_columns = index + 1;
        AdviceColumn { index }
    }

    /// Adds `N` fixed columns.
    pub fn fixed_columns<const N: usize>(&mut self) -> (r: [FixedColumn; N])
        requires
            old(self).num_fixed_columns + N <= usize::MAX,
        ensures
            forall|i: int|
                0 <= i < N ==> (#[trigger] r@[i]).index == old(self).num_fixed_columns + i,
            *final(self) == (ConstraintSystem {
                num_fixed_columns: (old(self).num_fixed_columns + N) as usize,
                ..*old(self)
            }),
    {
        let first: usize = self.num_fixed_columns;
        self.num_fixed_columns = first + N;
        let column = |i: usize| -> (c: FixedColumn)
            requires
                i < N,
            ensures
                c.index == first + i,
        {
            FixedColumn { index: first + i }
        };
        array_init::array_init(column)
    }

    /// Adds `N` advice columns.
    pub fn advice_columns<const N: usize>(&mut self) -> (r: [AdviceColumn; N])
        requires
            old(self).num_advice_columns + N <= usize::MAX,
        ensures
            forall|i: int|
                0 <= i < N ==> (#[trigger] r@[i]).index == old(self).num_advice_columns + i,
            *final(self) == (ConstraintSystem {
                num_advice_columns: (old(self).num_advice_columns + N) as usize,
                ..*old(self)
            }),
    {
        let first: usize = self.num_advice_columns;
        self.num_advice_columns = first + N;
        let column = |i: usize| -> (c: AdviceColumn)
            requires
                i < N,
            ensures
                c.index == first + i,
        {
            AdviceColumn { index: first + i }
        };
        array_init::array_init(column)
    }

    /// The bit of a selector in the current row.
    pub fn query_selector(&self, s: Selector) -> (r: Expression<F>)
        ensures
            r == Expression::<F>::Selector(s),
            forall|t: Table, i: int| #[trigger] r.eval(t, i) == t.selector(s, i),
    {
        Expression::Selector(s)
    }

    /// A cell of a fixed column.
    pub fn query_fixed(&self, c: FixedColumn, at: Rotation) -> (r: Expression<F>)
        ensures
            r == Expression::<F>::Fixed(c, at),
            forall|t: Table, i: int| #[trigger] r.eval(t, i) == t.fixed(c, i + at.distance),
    {
        Expression::Fixed(c, at)
    }

    /// A cell of an advice column.
    pub fn query_advice(&mut self, c: AdviceColumn, at: Rotation) -> (r: Expression<F>)
        ensures
            r == Expression::<F>::Advice(c, at),
            forall|t: Table, i: int| #[trigger] r.eval(t, i) == t.advice(c, i + at.distance),
            final(self).advice_queries@ == with_query(old(self).advice_queries@, (c, at)),
            final(self).advice_queries@ == if old(self).advice_queries@.contains((c, at)) {
                old(self).advice_queries@
            } else {
                old(self).advice_queries@.push((c, at))
            },
            *final(self) == (ConstraintSystem {
                advice_queries: final(self).advice_queries,
                ..*old(self)
            }),
    {
        let mut found = false;
        let mut k: usize = 0;
        while k < self.advice_queries.len()
            invariant
                k <= self.advice_queries@.len(),
                found == self.advice_queries@.take(k as int).contains((c, at)),
                *self == *old(self),
            decreases self.advice_queries@.len() - k,
        {
            let query = self.advice_queries[k];
            let ghost seen = self.advice_queries@.take(k as int);
            if query.0 == c && query.1 == at {
                found = true;
            }
            k = k + 1;
            proof {
                let more = self.advice_queries@.take(k as int);
                assert(more =~= seen.push(query));
                if found {
                    if query == (c, at) {
                        assert(more[k - 1] == (c, at));
                    } else {
                        let j = choose|j: int| 0 <= j < seen.len() && seen[j] == (c, at);
                        assert(more[j] == (c, at));
                    }
                }
                if more.contains((c, at)) {
                    let j = choose|j: int| 0 <= j < more.len() && more[j] == (c, at);
                    if j < k - 1 {
                        assert(seen[j] == (c, at));
                    }
                }
            }
        }
        assert(self.advice_queries@.take(k as int) =~= self.advice_queries@);
        if !found {
            self.advice_queries.push((c, at));
        }
        Expression::Advice(c, at)
    }

    /// Adds a gate.
    pub fn create_gate(
        &mut self,
        name: &'static str,
        constraints: Vec<(&'static str, Expression<F>)>,
    )
        ensures
            final(self).gates@ == old(self).gates@.push(Gate { name, constraints }),
            *final(self) == (ConstraintSystem { gates: final(self).gates, ..*old(self) }),
    {
        self.gates.push(Gate { name, constraints });
    }

    /// Adds a lookup.
    pub fn lookup_any(
        &mut self,
        name: &'static str,
        columns: Vec<(Expression<F>, Expression<F>)>,
    )
        ensures
            final(self).lookups@ == old(self).lookups@.push(Lookup { name, columns }),
            *final(self) == (ConstraintSystem { lookups: final(self).lookups, ..*old(self) }),
    {
        self.lookups.push(Lookup { name, columns });
    }

    /// The number of rows that a circuit needs at least.
    pub fn minimum_rows(&self) -> (r: usize)
        requires
            self.advice_queries@.len() <= usize::MAX - 5,
        ensures
            r == self.required_rows(),
    {
        let mut opened: usize = 0;
        let mut column: usize = 0;
        while column < self.num_advice_columns
            invariant
                column <= self.num_advice_columns,
                opened == most_queries(self.advice_queries@, column as int),
                opened <= self.advice_queries@.len(),
            decreases self.num_advice_columns - column,
        {
            let mut count: usize = 0;
            let mut k: usize = 0;
            while k < self.advice_queries.len()
                invariant
                    k <= self.advice_queries@.len(),
                    count <= k,
                    count == column_queries(self.advice_queries@.take(k as int), column as int),
                decreases self.advice_queries@.len() - k,
            {
                let ghost more = self.advice_queries@.take(k + 1);
                assert(more.drop_last() =~= self.advice_queries@.take(k as int));
                if self.advice_queries[k].0.index == column {
                    count = count + 1;
                }
                k = k + 1;
            }
            assert(self.advice_queries@.take(k as int) =~= self.advice_queries@);
            if count > opened {
                opened = count;
            }
            column = column + 1;
        }
        if opened > 3 {
            opened + 5
        } else {
            8
        }
    }
}

/// Collects the constraints of a gate.
pub struct BaseConstraintBuilder<F> {
    pub constraints: Vec<(&'static str, Expression<F>)>,
}

impl<F: Field> BaseConstraintBuilder<F> {
    /// A builder with no constraints.
    pub fn new() -> (r: Self)
        ensures
            r.constraints@ == Seq::<(&'static str, Expression<F>)>::empty(),
    {
        BaseConstraintBuilder { constraints: Vec::new() }
    }

    /// The constraint that an expression is 0.
    pub fn require_zero(&mut self, name: &'static str, e: Expression<F>)
        ensures
            final(self).constraints@ == old(self).constraints@.push((name, e)),
    {
        self.constraints.push((name, e));
    }

    /// The constraint that two expressions are equal.
    pub fn require_equal(&mut self, name: &'static str, lhs: Expression<F>, rhs: Expression<F>)
        ensures
            final(self).constraints@ == old(self).constraints@.push(
                (name, final(self).constraints@.last().1),
            ),
            forall|t: Table, i: int| #[trigger]
                final(self).constraints@.last().1.eval(t, i) == sub_mod(
                    F::modulus(),
                    lhs.eval(t, i),
                    rhs.eval(t, i),
                ),
    {
        self.require_zero(name, lhs.minus(rhs));
    }

    /// The constraint that an expression is 0 or 1.
    pub fn require_boolean(&mut self, name: &'static str, e: Expression<F>)
        ensures
            final(self).constraints@ == old(self).constraints@.push(
                (name, final(self).constraints@.last().1),
            ),
            forall|t: Table, i: int| #[trigger]
                final(self).constraints@.last().1.eval(t, i) == mul_mod(
                    F::modulus(),
                    e.eval(t, i),
                    sub_mod(F::modulus(), 1, e.eval(t, i)),
                ),
    {
        let complement = Expression::one().minus(e.clone());
        self.require_zero(name, e.times(complement));
    }

    /// The constraints, required only where the selector is not 0.
    pub fn gate(&self, selector: Expression<F>) -> (r: Vec<(&'static str, Expression<F>)>)
        ensures
            r@.len() == self.constraints@.len(),
            forall|k: int|
                0 <= k < r@.len() ==> (#[trigger] r@[k]).0 == self.constraints@[k].0,
            forall|k: int, t: Table, i: int|
                0 <= k < r@.len() ==> #[trigger] r@[k].1.eval(t, i) == mul_mod(
                    F::modulus(),
                    selector.eval(t, i),
                    self.constraints@[k].1.eval(t, i),
                ),
    {
        let mut r: Vec<(&'static str, Expression<F>)> = Vec::new();
        let mut k: usize = 0;
        while k < self.constraints.len()
            invariant
                k <= self.constraints@.len(),
                r@.len() == k,
                forall|j: int| 0 <= j < k ==> (#[trigger] r@[j]).0 == self.constraints@[j].0,
                forall|j: int, t: Table, i: int|
                    0 <= j < k ==> #[trigger] r@[j].1.eval(t, i) == mul_mod(
                        F::modulus(),
                        selector.eval(t, i),
                        self.constraints@[j].1.eval(t, i),
                    ),
            decreases self.constraints@.len() - k,
        {
            let name = self.constraints[k].0;
            let constraint = self.constraints[k].1.clone();
            r.push((name, selector.clone().times(constraint)));
            k = k + 1;
        }
        r
    }
}

/// The number of queries of one column.
proof fn lemma_column_queries(queries: Seq<(AdviceColumn, Rotation)>, column: int)
    ensures
        column_queries(queries, column) == queries.filter(
            |query: (AdviceColumn, Rotation)| query.0.index == column,
        ).len(),
    decreases queries.len(),
{
    reveal(Seq::filter);
    if queries.len() > 0 {
        lemma_column_queries(queries.drop_last(), column);
    }
}

/// The most queries of one column are those of some column, and no column has more.
proof fn lemma_most_queries_of(queries: Seq<(AdviceColumn, Rotation)>, columns: int) -> (c: int)
    requires
        columns >= 0,
    ensures
        forall|k: int|
            0 <= k < columns ==> #[trigger] column_queries(queries, k) <= most_queries(
                queries,
                columns,
            ),
        most_queries(queries, columns) >= 0,
        most_queries(queries, columns) > 0 ==> 0 <= c < columns && most_queries(queries, columns)
            == column_queries(queries, c),
    decreases columns,
{
    if columns <= 0 {
        0
    } else {
        let c = lemma_most_queries_of(queries, columns - 1);
        if column_queries(queries, columns - 1) > most_queries(queries, columns - 1) {
            columns - 1
        } else {
            c
        }
    }
}

impl<F: Field> ConstraintSystem<F> {
    /// A circuit needs 8 rows, or 5 more than there are queries of some column where that is more:
    /// as many as the column with the most queries asks for. The column is returned.
    pub proof fn lemma_rows_for_queries(self, k: int) -> (c: int)
        ensures
            self.required_rows() >= 8,
            0 <= k < self.num_advice_columns ==> self.required_rows()
                >= self.advice_queries@.filter(
                |query: (AdviceColumn, Rotation)| query.0.index == k,
            ).len() + 5,
            self.required_rows() > 8 ==> 0 <= c < self.num_advice_columns && self.required_rows()
                == self.advice_queries@.filter(
                |query: (AdviceColumn, Rotation)| query.0.index == c,
            ).len() + 5,
    {
        let queries = self.advice_queries@;
        let c = lemma_most_queries_of(queries, self.num_advice_columns as int);
        lemma_column_queries(queries, k);
        lemma_column_queries(queries, c);
        assert(0 <= k < self.num_advice_columns ==> column_queries(queries, k) <= most_queries(
            queries,
            self.num_advice_columns as int,
        ));
        c
    }

    /// A constraint system is satisfied exactly where every gate holds in every row, and every
    /// lookup finds in every usable row what it looks up.
    pub proof fn lemma_satisfied_in_rows(self, t: Table)
        ensures
            self.satisfied(t) <==> (forall|g: int, i: int|
                0 <= g < self.gates@.len() && 0 <= i < t.rows ==> #[trigger] self.gates@[g].holds(
                    t,
                    i,
                )) && (forall|l: int, i: int|
                0 <= l < self.lookups@.len() && 0 <= i < t.usable
                    ==> #[trigger] self.lookups@[l].finds(t, i)),
    {
        if self.satisfied(t) {
            assert forall|l: int, i: int|
                0 <= l < self.lookups@.len() && 0 <= i
                    < t.usable implies #[trigger] self.lookups@[l].finds(t, i) by {
                assert(self.lookups@[l].holds(t));
            }
        }
    }
}

impl<F: Field> Gate<F> {
    /// A gate holds in a row exactly where its expressions are all 0 there.
    pub proof fn lemma_holds(self, t: Table, i: int)
        ensures
            self.holds(t, i) <==> forall|k: int|
                0 <= k < self.constraints@.len() ==> #[trigger] self.constraints@[k].1.eval(t, i)
                    == 0,
    {
        assert forall|k: int| 0 <= k < self.constraints@.len() implies #[trigger] self.values(
            t,
            i,
        )[k] == self.constraints@[k].1.eval(t, i) by {}
        if self.holds(t, i) {
            assert forall|k: int|
                0 <= k < self.constraints@.len() implies #[trigger] self.constraints@[k].1.eval(
                t,
                i,
            ) == 0 by {
                assert(self.values(t, i)[k] == 0);
            }
        }
    }
}

impl<F: Field> Lookup<F> {
    /// A lookup finds in a row what it looks up exactly where some usable row has it, column by
    /// column: wherever row `j` has it, and only if some row has it, which is returned.
    pub proof fn lemma_finds(self, t: Table, i: int, j: int) -> (found: int)
        ensures
            0 <= j < t.usable && (forall|k: int|
                0 <= k < self.columns@.len() ==> (#[trigger] self.columns@[k]).0.eval(t, i)
                    == self.columns@[k].1.eval(t, j)) ==> self.finds(t, i),
            self.finds(t, i) ==> 0 <= found < t.usable && (forall|k: int|
                0 <= k < self.columns@.len() ==> (#[trigger] self.columns@[k]).0.eval(t, i)
                    == self.columns@[k].1.eval(t, found)),
    {
        if forall|k: int|
            0 <= k < self.columns@.len() ==> (#[trigger] self.columns@[k]).0.eval(t, i)
                == self.columns@[k].1.eval(t, j) {
            assert(self.inputs(t, i) =~= self.entry(t, j));
        }
        if self.finds(t, i) {
            let found = choose|found: int|
                0 <= found < t.usable && self.inputs(t, i) == #[trigger] self.entry(t, found);
            assert forall|k: int| 0 <= k < self.columns@.len() implies (
            #[trigger] self.columns@[k]).0.eval(t, i) == self.columns@[k].1.eval(t, found) by {
                assert(self.inputs(t, i)[k] == self.entry(t, found)[k]);
            }
            found
        } else {
            0
        }
    }
}

} // verus!

//! The number of rows that the circuit needs.

use crate::config::{at_cur, at_prev, Config};
use crate::constraint_system::{column_queries, most_queries, with_queries, ConstraintSystem};
use crate::expression::{AdviceColumn, Rotation};
use crate::field::Field;
use vstd::prelude::*;

verus! {

/// Whether queries are of columns before `columns`.
pub open spec fn queries_before(queries: Seq<(AdviceColumn, Rotation)>, columns: int) -> bool {
    forall|k: int| 0 <= k < queries.len() ==> (#[trigger] queries[k]).0.index < columns
}

/// Whether queries are of columns from `columns` on, in the current or the previous row.
spec fn queries_from(queries: Seq<(AdviceColumn, Rotation)>, columns: int) -> bool {
    forall|k: int|
        0 <= k < queries.len() ==> (#[trigger] queries[k]).0.index >= columns && (queries[k]
            == at_cur(queries[k].0) || queries[k] == at_prev(queries[k].0))
}

/// 1 where a query is among others.
spec fn presence(queries: Seq<(AdviceColumn, Rotation)>, query: (AdviceColumn, Rotation)) -> int {
    if queries.contains(query) {
        1
    } else {
        0
    }
}

/// One more query is among others and itself.
proof fn lemma_presence_push(
    queries: Seq<(AdviceColumn, Rotation)>,
    more: (AdviceColumn, Rotation),
    query: (AdviceColumn, Rotation),
)
    ensures
        queries.push(more).contains(query) <==> queries.contains(query) || query == more,
{
    let all = queries.push(more);
    if queries.contains(query) {
        let k = choose|k: int| 0 <= k < queries.len() && queries[k] == query;
        assert(all[k] == query);
    }
    if query == more {
        assert(all[queries.len() as int] == query);
    }
    if all.contains(query) && query != more {
        let k = choose|k: int| 0 <= k < all.len() && all[k] == query;
        assert(queries[k] == query);
    }
}

/// No queries of a column that comes after all queries.
proof fn lemma_no_queries(queries: Seq<(AdviceColumn, Rotation)>, columns: int, c: AdviceColumn)
    requires
        queries_before(queries, columns),
        c.index >= columns,
    ensures
        column_queries(queries, c.index as int) == 0,
        !queries.contains(at_cur(c)),
        !queries.contains(at_prev(c)),
    decreases queries.len(),
{
    if queries.len() > 0 {
        let fewer = queries.drop_last();
        assert forall|k: int| 0 <= k < fewer.len() implies (#[trigger] fewer[k]).0.index
            < columns by {
            assert(fewer[k] == queries[k]);
        }
        lemma_no_queries(fewer, columns, c);
    }
}

/// The queries of one column: those of the current and of the previous row.
proof fn lemma_new_column(
    base: Seq<(AdviceColumn, Rotation)>,
    list: Seq<(AdviceColumn, Rotation)>,
    columns: int,
    c: AdviceColumn,
)
    requires
        queries_before(base, columns),
        queries_from(list, columns),
        c.index >= columns,
    ensures
        column_queries(with_queries(base, list), c.index as int) == presence(
            with_queries(base, list),
            at_cur(c),
        ) + presence(with_queries(base, list), at_prev(c)),
    decreases list.len(),
{
    if list.len() == 0 {
        lemma_no_queries(base, columns, c);
    } else {
        let fewer = list.drop_last();
        assert forall|k: int| 0 <= k < fewer.len() implies (#[trigger] fewer[k]).0.index >= columns
            && (fewer[k] == at_cur(fewer[k].0) || fewer[k] == at_prev(fewer[k].0)) by {
            assert(fewer[k] == list[k]);
        }
        lemma_new_column(base, fewer, columns, c);
        let queries = with_queries(base, fewer);
        let query = list.last();
        assert(query == list[list.len() - 1]);
        if !queries.contains(query) {
            let all = queries.push(query);
            assert(all.drop_last() =~= queries);
            lemma_presence_push(queries, query, at_cur(c));
            lemma_presence_push(queries, query, at_prev(c));
        }
    }
}

/// Queries of new columns do not change the number of queries of the others.
proof fn lemma_old_column(
    base: Seq<(AdviceColumn, Rotation)>,
    list: Seq<(AdviceColumn, Rotation)>,
    columns: int,
    column: int,
)
    requires
        queries_from(list, columns),
        column < columns,
    ensures
        column_queries(with_queries(base, list), column) == column_queries(base, column),
    decreases list.len(),
{
    if list.len() > 0 {
        let fewer = list.drop_last();
        assert forall|k: int| 0 <= k < fewer.len() implies (#[trigger] fewer[k]).0.index >= columns
            && (fewer[k] == at_cur(fewer[k].0) || fewer[k] == at_prev(fewer[k].0)) by {
            assert(fewer[k] == list[k]);
        }
        lemma_old_column(base, fewer, columns, column);
        let queries = with_queries(base, fewer);
        let query = list.last();
        assert(query == list[list.len() - 1]);
        if !queries.contains(query) {
            assert(queries.push(query).drop_last() =~= queries);
        }
    }
}

/// The most queries of one column, with new columns that are queried at most twice each.
proof fn lemma_most_queries(
    base: Seq<(AdviceColumn, Rotation)>,
    list: Seq<(AdviceColumn, Rotation)>,
    columns: int,
    n: int,
)
    requires
        queries_before(base, columns),
        queries_from(list, columns),
        0 <= n <= usize::MAX,
        0 <= columns,
    ensures
        ({
            let all = most_queries(with_queries(base, list), n);
            if n <= columns {
                all == most_queries(base, n)
            } else {
                most_queries(base, columns) <= all && (all == most_queries(base, columns) || all
                    <= 2)
            }
        }),
    decreases n,
{
    if n > 0 {
        lemma_most_queries(base, list, columns, n - 1);
        if n - 1 < columns {
            lemma_old_column(base, list, columns, n - 1);
        } else {
            lemma_new_column(base, list, columns, AdviceColumn { index: (n - 1) as usize });
        }
    }
}

/// A list adds what is in it.
proof fn lemma_among_queries(
    base: Seq<(AdviceColumn, Rotation)>,
    list: Seq<(AdviceColumn, Rotation)>,
    query: (AdviceColumn, Rotation),
)
    ensures
        with_queries(base, list).contains(query) <==> base.contains(query) || list.contains(query),
        base.no_duplicates() ==> with_queries(base, list).no_duplicates(),
    decreases list.len(),
{
    if list.len() > 0 {
        let fewer = list.drop_last();
        lemma_among_queries(base, fewer, query);
        lemma_among_queries(base, fewer, list.last());
        assert(fewer.push(list.last()) =~= list);
        lemma_presence_push(fewer, list.last(), query);
        lemma_presence_push(with_queries(base, fewer), list.last(), query);
    }
}

/// Two lists hold what either holds.
proof fn lemma_among_both(
    list: Seq<(AdviceColumn, Rotation)>,
    more: Seq<(AdviceColumn, Rotation)>,
    query: (AdviceColumn, Rotation),
)
    ensures
        (list + more).contains(query) <==> list.contains(query) || more.contains(query),
{
    let all = list + more;
    if list.contains(query) {
        let k = choose|k: int| 0 <= k < list.len() && list[k] == query;
        assert(all[k] == query);
    }
    if more.contains(query) {
        let k = choose|k: int| 0 <= k < more.len() && more[k] == query;
        assert(all[list.len() + k] == query);
    }
}

/// A list with one more query holds that and what it held.
broadcast proof fn lemma_among_push(
    queries: Seq<(AdviceColumn, Rotation)>,
    more: (AdviceColumn, Rotation),
    query: (AdviceColumn, Rotation),
)
    ensures
        #[trigger] queries.push(more).contains(query) <==> queries.contains(query) || query == more,
{
    lemma_presence_push(queries, more, query);
}

impl<F: Field> Config<F> {
    /// The circuit queries the cells of these columns in a row and in the row before it, and
    /// no others, and adds no query twice.
    pub proof fn lemma_queried(
        self,
        before: ConstraintSystem<F>,
        after: ConstraintSystem<F>,
        c: AdviceColumn,
        at: Rotation,
    )
        requires
            self.extends(before, after),
        ensures
            after.advice_queries@.contains((c, at)) <==> {
                ||| before.advice_queries@.contains((c, at))
                ||| at.distance == 0 && (c == self.hash || c == self.index || c == self.is_code || c
                    == self.byte || c == self.push_rindex || c == self.hash_rlc || c
                    == self.hash_length || c == self.byte_push_size || c == self.is_final || c
                    == self.padding || c == self.push_rindex_inv || c == self.keccak_table[0] || c
                    == self.keccak_table[1] || c == self.keccak_table[2])
                ||| at.distance == -1 && (c == self.hash || c == self.index || c == self.push_rindex
                    || c == self.hash_rlc || c == self.hash_length || c == self.is_final || c
                    == self.padding)
            },
            before.advice_queries@.no_duplicates() ==> after.advice_queries@.no_duplicates(),
    {
        broadcast use lemma_among_push;

        let query = (c, at);
        lemma_among_queries(before.advice_queries@, self.queries(), query);
        let (a, b, d) = (self.is_zero_queries(), self.continue_queries(), self.start_queries());
        let (e, f, g) = (self.length_queries(), self.always_queries(), self.padding_queries());
        let (h, j, k) = (self.last_row_queries(), self.push_queries(), self.keccak_queries());
        lemma_among_both(a, b, query);
        lemma_among_both(a + b, d, query);
        lemma_among_both(a + b + d, e, query);
        lemma_among_both(a + b + d + e, f, query);
        lemma_among_both(a + b + d + e + f, g, query);
        lemma_among_both(a + b + d + e + f + g, h, query);
        lemma_among_both(a + b + d + e + f + g + h, j, query);
        lemma_among_both(a + b + d + e + f + g + h + j, k, query);
    }

    /// A constraint system needs no more rows with the circuit in it than without, when what was
    /// in it before queried its own columns.
    pub proof fn lemma_rows_needed(self, before: ConstraintSystem<F>, after: ConstraintSystem<F>)
        requires
            self.extends(before, after),
            queries_before(before.advice_queries@, before.num_advice_columns as int),
        ensures
            after.required_rows() == before.required_rows(),
    {
        let columns = before.num_advice_columns as int;
        assert(queries_from(self.queries(), columns));
        lemma_most_queries(
            before.advice_queries@,
            self.queries(),
            columns,
            after.num_advice_columns as int,
        );
    }
}

} // verus!

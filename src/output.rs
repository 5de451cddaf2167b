use crate::compiled::{
    compiled_filter, compiled_filters, compiled_projections, compiled_query, int_operand, last_index_of, projected,
    projections_fit, row_matches, text_operand, CompiledFilter, CompiledQuery,
};
use crate::query::{Expr, Filter, Query, QueryError};
use crate::table::{column_type_of, ColumnType, Rows};
use vstd::prelude::*;

verus! {

/// The output rows of a query over a sequence of rows: the projection of each
/// row that passes every filter, in row order.
pub open spec fn query_output(
    filters: Seq<CompiledFilter>,
    projections: Seq<(usize, String)>,
    rows: Seq<Seq<Seq<char>>>,
) -> Seq<Seq<Seq<char>>>
    decreases rows.len(),
{
    if rows.len() == 0 {
        Seq::empty()
    } else {
        let rest = query_output(filters, projections, rows.drop_first());
        if row_matches(filters, rows[0]) {
            seq![projected(projections, rows[0])] + rest
        } else {
            rest
        }
    }
}

/// A table held in memory: its column names and its rows.
pub struct LoadedCSV {
    pub column_names: Vec<String>,
    pub rows: Rows,
}

impl LoadedCSV {
    /// The rows are well formed and there is one type per column name.
    pub open spec fn wf(&self) -> bool {
        &&& self.rows.wf()
        &&& self.rows.types@.len() == self.column_names@.len()
    }

    /// Compiles the query against this table's schema, and on success returns
    /// the output of the query over every row, to be taken one row at a time.
    pub fn execute_query(&self, query: Query) -> (r: Result<QueryOutput<'_>, QueryError>)
        requires
            self.wf(),
        ensures
            match r {
                Ok(out) => {
                    &&& out.wf()
                    &&& compiled_query(query, self.rows.types@, self.column_names@)
                        == Ok::<_, QueryError>((out.compiled_query.projections@, out.compiled_query.filters@))
                    &&& out.remaining() == query_output(
                        out.compiled_query.filters@,
                        out.compiled_query.projections@,
                        self.rows.records(),
                    )
                    &&& out.headers@.len() == out.compiled_query.projections@.len()
                    &&& forall|j: int| 0 <= j < out.headers@.len()
                        ==> #[trigger] out.headers@[j] == out.compiled_query.projections@[j].1
                },
                Err(e) => compiled_query(query, self.rows.types@, self.column_names@)
                    == Err::<(Seq<(usize, String)>, Seq<CompiledFilter>), _>(e),
            },
    {
        let ghost q = query;
        let compiled_query = match query.compile(self.rows.types.as_slice(), self.column_names.as_slice()) {
            Ok(cq) => cq,
            Err(e) => return Err(e),
        };
        proof {
            lemma_projections_in_range(q.projections@, self.column_names@);
            let recs = self.rows.records();
            assert forall|r: int| 0 <= r < self.rows.rows@.len() implies projections_fit(
                compiled_query.projections@,
                #[trigger] self.rows.rows@[r]@.len() as int,
            ) by {
                assert(recs[r].len() == self.rows.types@.len());
            }
            assert(self.rows.rows.deep_view().subrange(0, self.rows.rows@.len() as int) =~= recs);
        }
        let headers = compiled_query.out_header();
        Ok(QueryOutput { compiled_query, headers, rows: &self.rows.rows, pos: 0 })
    }
}

proof fn lemma_projections_in_range(ps: Seq<String>, names: Seq<String>)
    ensures
        compiled_projections(ps, names) matches Ok(v) ==> projections_fit(v, names.len() as int),
    decreases ps.len(),
{
    if ps.len() > 0 {
        lemma_projections_in_range(ps.drop_last(), names);
        lemma_last_index_bounds(names, ps.last()@);
    }
}

proof fn lemma_last_index_bounds(names: Seq<String>, name: Seq<char>)
    ensures
        last_index_of(names, name) matches Some(i) ==> 0 <= i < names.len(),
    decreases names.len(),
{
    if names.len() > 0 {
        lemma_last_index_bounds(names.drop_last(), name);
    }
}

/// The rows that a query outputs, produced one at a time.
pub struct QueryOutput<'a> {
    pub compiled_query: CompiledQuery,
    /// The output column names.
    pub headers: Vec<String>,
    pub rows: &'a Vec<Vec<String>>,
    /// The index of the next row to test.
    pub pos: usize,
}

impl<'a> QueryOutput<'a> {
    pub open spec fn wf(&self) -> bool {
        &&& self.pos <= self.rows@.len()
        &&& forall|r: int| 0 <= r < self.rows@.len() ==> projections_fit(
            self.compiled_query.projections@,
            #[trigger] self.rows@[r]@.len() as int,
        )
    }

    /// The output rows not yet taken.
    pub open spec fn remaining(&self) -> Seq<Seq<Seq<char>>> {
        query_output(
            self.compiled_query.filters@,
            self.compiled_query.projections@,
            self.rows.deep_view().subrange(self.pos as int, self.rows@.len() as int),
        )
    }

    /// The next output row, or `None` once every row has been tested.
    pub fn next(&mut self) -> (r: Option<Vec<String>>)
        requires
            old(self).wf(),
        ensures
            final(self).wf(),
            final(self).compiled_query == old(self).compiled_query,
            final(self).rows == old(self).rows,
            final(self).headers == old(self).headers,
            match r {
                Some(out) => {
                    &&& old(self).remaining() == seq![out.deep_view()] + final(self).remaining()
                    &&& final(self).pos > old(self).pos
                },
                None => {
                    &&& old(self).remaining() == Seq::<Seq<Seq<char>>>::empty()
                    &&& final(self).remaining() == Seq::<Seq<Seq<char>>>::empty()
                },
            },
    {
        let ghost start = self.remaining();
        let ghost start_pos = self.pos;
        while self.pos < self.rows.len()
            invariant
                self.wf(),
                self.compiled_query == old(self).compiled_query,
                self.rows == old(self).rows,
                self.headers == old(self).headers,
                self.pos >= start_pos,
                start_pos == old(self).pos,
                start == old(self).remaining(),
                start == self.remaining(),
            decreases self.rows@.len() - self.pos,
        {
            let ghost all = self.rows.deep_view();
            let ghost tail = all.subrange(self.pos as int, all.len() as int);
            assert(tail.drop_first() =~= all.subrange(self.pos + 1, all.len() as int));
            assert(tail[0] == self.rows@[self.pos as int].deep_view());
            let ghost f = self.compiled_query.filters@;
            let ghost p = self.compiled_query.projections@;
            assert(query_output(f, p, tail) == if row_matches(f, tail[0]) {
                seq![projected(p, tail[0])] + query_output(f, p, tail.drop_first())
            } else {
                query_output(f, p, tail.drop_first())
            });
            let row = &self.rows[self.pos];
            let out = self.compiled_query.on_row(row);
            self.pos = self.pos + 1;
            if out.is_some() {
                assert(out->0.deep_view() == projected(p, tail[0]));
                return out;
            }
        }
        assert(self.rows.deep_view().subrange(self.pos as int, self.rows@.len() as int) =~= Seq::<Seq<Seq<char>>>::empty());
        None
    }

    /// Takes every remaining output row.
    pub fn collect_rows(&mut self) -> (r: Vec<Vec<String>>)
        requires
            old(self).wf(),
        ensures
            r.deep_view() == old(self).remaining(),
            final(self).remaining() == Seq::<Seq<Seq<char>>>::empty(),
    {
        let mut all: Vec<Vec<String>> = Vec::new();
        loop
            invariant
                self.wf(),
                all.deep_view() + self.remaining() == old(self).remaining(),
            decreases self.rows@.len() - self.pos,
        {
            let ghost before = all.deep_view();
            match self.next() {
                Some(out) => {
                    let ghost v = out.deep_view();
                    all.push(out);
                    assert(all.deep_view() =~= before.push(v));
                    assert(before + (seq![v] + self.remaining()) =~= before.push(v) + self.remaining());
                },
                None => {
                    assert(all.deep_view() + self.remaining() =~= all.deep_view());
                    return all;
                },
            }
        }
    }
}

/// A query with no filters outputs every row of the table, projected onto the
/// requested columns, in the table's order; this holds for any choice, order
/// and repetition of projected columns.
pub proof fn law_unfiltered_query_projects_every_row(query: Query, table: LoadedCSV)
    requires
        table.wf(),
        query.filters@.len() == 0,
        compiled_query(query, table.rows.types@, table.column_names@) is Ok,
    ensures
        ({
            let (projections, filters) = compiled_query(query, table.rows.types@, table.column_names@)->Ok_0;
            query_output(filters, projections, table.rows.records())
                == Seq::new(table.rows.records().len(), |i: int| projected(projections, table.rows.records()[i]))
        }),
{
    let (projections, filters) = compiled_query(query, table.rows.types@, table.column_names@)->Ok_0;
    assert(filters.len() == 0);
    lemma_unfiltered(filters, projections, table.rows.records());
}

proof fn lemma_unfiltered(filters: Seq<CompiledFilter>, projections: Seq<(usize, String)>, rows: Seq<Seq<Seq<char>>>)
    requires
        filters.len() == 0,
    ensures
        query_output(filters, projections, rows) == Seq::new(rows.len(), |i: int| projected(projections, rows[i])),
    decreases rows.len(),
{
    if rows.len() > 0 {
        lemma_unfiltered(filters, projections, rows.drop_first());
        assert(row_matches(filters, rows[0]));
        assert(query_output(filters, projections, rows) =~= Seq::new(rows.len(), |i: int| projected(projections, rows[i])));
    } else {
        assert(query_output(filters, projections, rows) =~= Seq::new(rows.len(), |i: int| projected(projections, rows[i])));
    }
}

/// Running the same compiled query over the same rows gives the same output
/// rows, in the same order, every time.
pub proof fn law_runs_are_identical(a: QueryOutput, b: QueryOutput)
    requires
        a.compiled_query == b.compiled_query,
        a.rows.deep_view() == b.rows.deep_view(),
        a.pos == 0,
        b.pos == 0,
    ensures
        a.remaining() == b.remaining(),
{
}

/// Both operands of the filter stand for values of the filter's type on the row.
pub open spec fn operands_defined(f: CompiledFilter, row: Seq<Seq<char>>) -> bool {
    match f.ty {
        ColumnType::Integer => int_operand(f.left, row) is Some && int_operand(f.right, row) is Some,
        ColumnType::String => text_operand(f.left, row) is Some && text_operand(f.right, row) is Some,
    }
}

/// A filter compiled against a table's schema never meets an operand of the
/// wrong kind on that table's rows: a column it reads exists in every row, and
/// where the filter compares integers, every field of that column is one.
pub proof fn law_compiled_filter_fits_table(table: LoadedCSV, f: Filter, r: int)
    requires
        table.wf(),
        compiled_filter(f, table.rows.types@, table.column_names@) is Ok,
        0 <= r < table.rows.records().len(),
    ensures
        operands_defined(compiled_filter(f, table.rows.types@, table.column_names@)->Ok_0, table.rows.records()[r]),
{
    let names = table.column_names@;
    let types = table.rows.types@;
    let recs = table.rows.records();
    let cf = compiled_filter(f, types, names)->Ok_0;
    assert(recs[r].len() == types.len());
    if let Expr::Var { column_idx } = f.left {
        lemma_last_index_bounds(names, column_idx@);
        let c = last_index_of(names, column_idx@)->0;
        assert(types[c] == column_type_of(recs, c));
    }
    if let Expr::Var { column_idx } = f.right {
        lemma_last_index_bounds(names, column_idx@);
        let c = last_index_of(names, column_idx@)->0;
        assert(types[c] == column_type_of(recs, c));
    }
}

proof fn lemma_compiled_filters_elementwise(fs: Seq<Filter>, types: Seq<ColumnType>, names: Seq<String>)
    requires
        compiled_filters(fs, types, names) is Ok,
    ensures
        compiled_filters(fs, types, names)->Ok_0.len() == fs.len(),
        forall|k: int| 0 <= k < fs.len() ==> (#[trigger] compiled_filter(fs[k], types, names) is Ok
            && compiled_filters(fs, types, names)->Ok_0[k] == compiled_filter(fs[k], types, names)->Ok_0),
    decreases fs.len(),
{
    if fs.len() > 0 {
        lemma_compiled_filters_elementwise(fs.drop_last(), types, names);
        assert forall|k: int| 0 <= k < fs.len() - 1 implies fs.drop_last()[k] == fs[k] by {}
    }
}

/// Every filter of a query compiled against a table's schema finds operands of
/// its own type on every row of that table, so evaluation never meets a
/// missing column or a field of the wrong kind.
pub proof fn law_compiled_query_fits_table(query: Query, table: LoadedCSV)
    requires
        table.wf(),
        compiled_query(query, table.rows.types@, table.column_names@) is Ok,
    ensures
        ({
            let filters = compiled_query(query, table.rows.types@, table.column_names@)->Ok_0.1;
            forall|k: int, r: int| 0 <= k < filters.len() && 0 <= r < table.rows.records().len()
                ==> operands_defined(#[trigger] filters[k], #[trigger] table.rows.records()[r])
        }),
{
    let types = table.rows.types@;
    let names = table.column_names@;
    let fs = query.filters@;
    lemma_compiled_filters_elementwise(fs, types, names);
    let filters = compiled_query(query, types, names)->Ok_0.1;
    assert forall|k: int, r: int| 0 <= k < filters.len() && 0 <= r < table.rows.records().len()
        implies operands_defined(#[trigger] filters[k], #[trigger] table.rows.records()[r]) by {
        assert(compiled_filter(fs[k], types, names) is Ok);
        law_compiled_filter_fits_table(table, fs[k], r);
    }
}

} // verus!

use crate::query::{int_test, text_test, Expr, Filter, Query, QueryError, Test};
use crate::table::{i64_of_text, parse_i64, ColumnType};
use vstd::prelude::*;

verus! {

/// An operand resolved against a schema.
#[derive(Debug)]
pub enum CompiledExpr {
    /// The field at this column index.
    Var { column_idx: usize },
    IntConst { val: i64 },
    StringConst { val: String },
}

/// A filter whose operands are resolved and whose comparison type is fixed.
#[derive(Debug)]
pub struct CompiledFilter {
    pub left: CompiledExpr,
    pub right: CompiledExpr,
    pub ty: ColumnType,
    pub test: Test,
}

/// A query checked against a schema and ready to run.
#[derive(Debug)]
pub struct CompiledQuery {
    /// Column index and output name of each projected field, in output order.
    pub projections: Vec<(usize, String)>,
    pub filters: Vec<CompiledFilter>,
}

/// The index of the last column called `name`, if there is one.
pub open spec fn last_index_of(names: Seq<String>, name: Seq<char>) -> Option<int>
    decreases names.len(),
{
    if names.len() == 0 {
        None
    } else if names.last()@ == name {
        Some(names.len() - 1)
    } else {
        last_index_of(names.drop_last(), name)
    }
}

/// Looks up the index of a column by name; where the name repeats, the last
/// column of that name is taken.
pub fn column_index(names: &[String], name: &String) -> (r: Option<usize>)
    ensures
        match r {
            Some(i) => last_index_of(names@, name@) == Some(i as int),
            None => last_index_of(names@, name@) is None,
        },
        r matches Some(i) ==> i < names@.len(),
{
    let mut i: usize = names.len();
    assert(names@.subrange(0, i as int) =~= names@);
    while i > 0
        invariant
            i <= names@.len(),
            last_index_of(names@, name@) == last_index_of(names@.subrange(0, i as int), name@),
        decreases i,
    {
        let ghost pre = names@.subrange(0, i as int);
        assert(pre.drop_last() =~= names@.subrange(0, i - 1));
        if names[i - 1] == *name {
            return Some(i - 1);
        }
        i = i - 1;
    }
    None
}

/// What resolving an operand gives: a column index for a known column, nothing
/// for a literal.
pub open spec fn resolved_column(e: Expr, names: Seq<String>) -> Result<Option<usize>, QueryError> {
    match e {
        Expr::Var { column_idx } => match last_index_of(names, column_idx@) {
            Some(i) => Ok(Some(i as usize)),
            None => Err(QueryError::UnknownColumn { name: column_idx }),
        },
        Expr::Const { .. } => Ok(None),
    }
}

/// A literal lowered to a constant of the given type.
pub open spec fn lowered_const(val: String, ty: ColumnType) -> Result<CompiledExpr, QueryError> {
    match ty {
        ColumnType::String => Ok(CompiledExpr::StringConst { val }),
        ColumnType::Integer => match i64_of_text(val@) {
            Some(v) => Ok(CompiledExpr::IntConst { val: v }),
            None => Err(QueryError::MalformedInteger { literal: val }),
        },
    }
}

/// An operand compiled under the filter type `ty`, given what it resolved to.
pub open spec fn compiled_operand(e: Expr, resolved: Option<usize>, ty: ColumnType) -> Result<CompiledExpr, QueryError> {
    match resolved {
        Some(i) => Ok(CompiledExpr::Var { column_idx: i }),
        None => match e {
            Expr::Const { val } => lowered_const(val, ty),
            Expr::Var { .. } => Err(QueryError::AmbiguousFilterType),
        },
    }
}

/// The result of compiling one filter against a schema.
pub open spec fn compiled_filter(f: Filter, types: Seq<ColumnType>, names: Seq<String>) -> Result<CompiledFilter, QueryError> {
    match resolved_column(f.left, names) {
        Err(e) => Err(e),
        Ok(lv) => match resolved_column(f.right, names) {
            Err(e) => Err(e),
            Ok(rv) => {
                if lv is None && rv is None {
                    Err(QueryError::AmbiguousFilterType)
                } else if lv is Some && rv is Some && types[lv->0 as int] != types[rv->0 as int] {
                    Err(QueryError::TypeMismatch { left: types[lv->0 as int], right: types[rv->0 as int] })
                } else {
                    let ty = if lv is Some { types[lv->0 as int] } else { types[rv->0 as int] };
                    match compiled_operand(f.left, lv, ty) {
                        Err(e) => Err(e),
                        Ok(l) => match compiled_operand(f.right, rv, ty) {
                            Err(e) => Err(e),
                            Ok(r) => Ok(CompiledFilter { left: l, right: r, ty, test: f.test }),
                        },
                    }
                }
            },
        },
    }
}

impl Expr {
    /// If the expression names a column, the index of that column; `None` for a
    /// literal.
    pub fn resolve_column(&self, names: &[String]) -> (r: Result<Option<usize>, QueryError>)
        ensures
            r == resolved_column(*self, names@),
            r matches Ok(Some(i)) ==> i < names@.len(),
    {
        match self {
            Expr::Var { column_idx } => match column_index(names, column_idx) {
                Some(i) => Ok(Some(i)),
                None => Err(QueryError::UnknownColumn { name: column_idx.clone() }),
            },
            Expr::Const { .. } => Ok(None),
        }
    }

    /// Lowers a literal to a constant of the given type; a column operand is
    /// no literal and is refused.
    pub fn resolve_const(&self, column_type: ColumnType) -> (r: Result<CompiledExpr, QueryError>)
        ensures
            self is Const ==> r == lowered_const(self->val, column_type),
            self is Var ==> r == Err::<CompiledExpr, _>(QueryError::AmbiguousFilterType),
    {
        match self {
            Expr::Var { .. } => Err(QueryError::AmbiguousFilterType),
            Expr::Const { val } => match column_type {
                ColumnType::String => Ok(CompiledExpr::StringConst { val: val.clone() }),
                ColumnType::Integer => match parse_i64(val.as_str()) {
                    Some(v) => Ok(CompiledExpr::IntConst { val: v }),
                    None => Err(QueryError::MalformedInteger { literal: val.clone() }),
                },
            },
        }
    }
}

impl Filter {
    /// Resolves both operands, fixes the comparison type from the columns
    /// involved, and lowers the literals to that type.
    pub fn compile(&self, column_types: &[ColumnType], names: &[String]) -> (r: Result<CompiledFilter, QueryError>)
        requires
            column_types@.len() == names@.len(),
        ensures
            r == compiled_filter(*self, column_types@, names@),
    {
        let left_var = match self.left.resolve_column(names) {
            Ok(v) => v,
            Err(e) => return Err(e),
        };
        let right_var = match self.right.resolve_column(names) {
            Ok(v) => v,
            Err(e) => return Err(e),
        };
        let ty = match (left_var, right_var) {
            (None, None) => {
                return Err(QueryError::AmbiguousFilterType);
            },
            (None, Some(t)) => column_types[t],
            (Some(t), None) => column_types[t],
            (Some(t1), Some(t2)) => {
                let ty1 = column_types[t1];
                let ty2 = column_types[t2];
                if ty1 == ty2 {
                    ty1
                } else {
                    return Err(QueryError::TypeMismatch { left: ty1, right: ty2 });
                }
            },
        };
        let left = match left_var {
            Some(column_idx) => CompiledExpr::Var { column_idx },
            None => match self.left.resolve_const(ty) {
                Ok(e) => e,
                Err(e) => return Err(e),
            },
        };
        let right = match right_var {
            Some(column_idx) => CompiledExpr::Var { column_idx },
            None => match self.right.resolve_const(ty) {
                Ok(e) => e,
                Err(e) => return Err(e),
            },
        };
        Ok(CompiledFilter { left, right, ty, test: self.test })
    }
}

/// The projections resolved in order; the first unknown name is the error.
pub open spec fn compiled_projections(ps: Seq<String>, names: Seq<String>) -> Result<Seq<(usize, String)>, QueryError>
    decreases ps.len(),
{
    if ps.len() == 0 {
        Ok(Seq::empty())
    } else {
        match compiled_projections(ps.drop_last(), names) {
            Err(e) => Err(e),
            Ok(v) => match last_index_of(names, ps.last()@) {
                Some(i) => Ok(v.push((i as usize, ps.last()))),
                None => Err(QueryError::UnknownColumn { name: ps.last() }),
            },
        }
    }
}

/// The filters compiled in order; the first failure is the error.
pub open spec fn compiled_filters(fs: Seq<Filter>, types: Seq<ColumnType>, names: Seq<String>) -> Result<Seq<CompiledFilter>, QueryError>
    decreases fs.len(),
{
    if fs.len() == 0 {
        Ok(Seq::empty())
    } else {
        match compiled_filters(fs.drop_last(), types, names) {
            Err(e) => Err(e),
            Ok(v) => match compiled_filter(fs.last(), types, names) {
                Ok(f) => Ok(v.push(f)),
                Err(e) => Err(e),
            },
        }
    }
}

/// The result of compiling a query against a schema: its projections and its
/// filters, or the first error met.
pub open spec fn compiled_query(q: Query, types: Seq<ColumnType>, names: Seq<String>) -> Result<(Seq<(usize, String)>, Seq<CompiledFilter>), QueryError> {
    if types.len() != names.len() {
        Err(QueryError::SchemaArityMismatch)
    } else {
        match compiled_projections(q.projections@, names) {
            Err(e) => Err(e),
            Ok(p) => match compiled_filters(q.filters@, types, names) {
                Err(e) => Err(e),
                Ok(f) => Ok((p, f)),
            },
        }
    }
}

proof fn lemma_projection_error_persists(ps: Seq<String>, names: Seq<String>, k: int, e: QueryError)
    requires
        0 <= k <= ps.len(),
        compiled_projections(ps.subrange(0, k), names) == Err::<Seq<(usize, String)>, _>(e),
    ensures
        compiled_projections(ps, names) == Err::<Seq<(usize, String)>, _>(e),
    decreases ps.len() - k,
{
    if k < ps.len() {
        assert(ps.subrange(0, k + 1).drop_last() =~= ps.subrange(0, k));
        lemma_projection_error_persists(ps, names, k + 1, e);
    } else {
        assert(ps.subrange(0, k) =~= ps);
    }
}

proof fn lemma_filter_error_persists(fs: Seq<Filter>, types: Seq<ColumnType>, names: Seq<String>, k: int, e: QueryError)
    requires
        0 <= k <= fs.len(),
        compiled_filters(fs.subrange(0, k), types, names) == Err::<Seq<CompiledFilter>, _>(e),
    ensures
        compiled_filters(fs, types, names) == Err::<Seq<CompiledFilter>, _>(e),
    decreases fs.len() - k,
{
    if k < fs.len() {
        assert(fs.subrange(0, k + 1).drop_last() =~= fs.subrange(0, k));
        lemma_filter_error_persists(fs, types, names, k + 1, e);
    } else {
        assert(fs.subrange(0, k) =~= fs);
    }
}

impl Query {
    /// Checks the query against a schema of column types and names, and lowers
    /// it to its executable form.
    pub fn compile(self, column_types: &[ColumnType], column_names: &[String]) -> (r: Result<CompiledQuery, QueryError>)
        ensures
            match r {
                Ok(cq) => compiled_query(self, column_types@, column_names@) == Ok::<_, QueryError>((cq.projections@, cq.filters@)),
                Err(e) => compiled_query(self, column_types@, column_names@) == Err::<(Seq<(usize, String)>, Seq<CompiledFilter>), _>(e),
            },
    {
        if column_names.len() != column_types.len() {
            return Err(QueryError::SchemaArityMismatch);
        }
        let mut projections: Vec<(usize, String)> = Vec::new();
        let mut i: usize = 0;
        while i < self.projections.len()
            invariant
                i <= self.projections@.len(),
                column_types@.len() == column_names@.len(),
                compiled_projections(self.projections@.subrange(0, i as int), column_names@) == Ok::<_, QueryError>(projections@),
            decreases self.projections@.len() - i,
        {
            let ghost pre = self.projections@.subrange(0, i as int + 1);
            assert(pre.drop_last() =~= self.projections@.subrange(0, i as int));
            let projection = &self.projections[i];
            match column_index(column_names, projection) {
                Some(idx) => projections.push((idx, projection.clone())),
                None => {
                    let e = QueryError::UnknownColumn { name: projection.clone() };
                    proof {
                        lemma_projection_error_persists(self.projections@, column_names@, i + 1, e);
                    }
                    return Err(e);
                },
            }
            i = i + 1;
        }
        assert(self.projections@.subrange(0, i as int) =~= self.projections@);
        let mut filters: Vec<CompiledFilter> = Vec::new();
        let mut k: usize = 0;
        while k < self.filters.len()
            invariant
                k <= self.filters@.len(),
                column_types@.len() == column_names@.len(),
                compiled_projections(self.projections@, column_names@) == Ok::<_, QueryError>(projections@),
                compiled_filters(self.filters@.subrange(0, k as int), column_types@, column_names@) == Ok::<_, QueryError>(filters@),
            decreases self.filters@.len() - k,
        {
            let ghost pre = self.filters@.subrange(0, k as int + 1);
            assert(pre.drop_last() =~= self.filters@.subrange(0, k as int));
            match self.filters[k].compile(column_types, column_names) {
                Ok(f) => filters.push(f),
                Err(e) => {
                    proof {
                        lemma_filter_error_persists(self.filters@, column_types@, column_names@, k + 1, e);
                    }
                    return Err(e);
                },
            }
            k = k + 1;
        }
        assert(self.filters@.subrange(0, k as int) =~= self.filters@);
        Ok(CompiledQuery { projections, filters })
    }
}

/// The integer an operand stands for on a row, if it stands for one.
pub open spec fn int_operand(e: CompiledExpr, row: Seq<Seq<char>>) -> Option<int> {
    match e {
        CompiledExpr::Var { column_idx } => if column_idx < row.len() {
            match i64_of_text(row[column_idx as int]) {
                Some(v) => Some(v as int),
                None => None,
            }
        } else {
            None
        },
        CompiledExpr::IntConst { val } => Some(val as int),
        CompiledExpr::StringConst { .. } => None,
    }
}

/// The text an operand stands for on a row, if it stands for one.
pub open spec fn text_operand(e: CompiledExpr, row: Seq<Seq<char>>) -> Option<Seq<char>> {
    match e {
        CompiledExpr::Var { column_idx } => if column_idx < row.len() {
            Some(row[column_idx as int])
        } else {
            None
        },
        CompiledExpr::IntConst { .. } => None,
        CompiledExpr::StringConst { val } => Some(val@),
    }
}

/// Whether a filter passes on a row. An operand that does not fit the filter's
/// type (or a column that the row lacks) makes the filter fail.
pub open spec fn filter_holds(f: CompiledFilter, row: Seq<Seq<char>>) -> bool {
    match f.ty {
        ColumnType::Integer => match (int_operand(f.left, row), int_operand(f.right, row)) {
            (Some(l), Some(r)) => int_test(f.test, l, r),
            _ => false,
        },
        ColumnType::String => match (text_operand(f.left, row), text_operand(f.right, row)) {
            (Some(l), Some(r)) => text_test(f.test, l, r),
            _ => false,
        },
    }
}

/// Whether a row passes every filter.
pub open spec fn row_matches(filters: Seq<CompiledFilter>, row: Seq<Seq<char>>) -> bool {
    forall|k: int| 0 <= k < filters.len() ==> filter_holds(#[trigger] filters[k], row)
}

/// The projected fields of a row, in projection order.
pub open spec fn projected(projections: Seq<(usize, String)>, row: Seq<Seq<char>>) -> Seq<Seq<char>> {
    Seq::new(projections.len(), |j: int| row[projections[j].0 as int])
}

/// Every projected column exists in rows of `width` fields.
pub open spec fn projections_fit(projections: Seq<(usize, String)>, width: int) -> bool {
    forall|j: int| 0 <= j < projections.len() ==> (#[trigger] projections[j]).0 < width
}

impl CompiledExpr {
    /// The integer value of the operand on a row; `None` where the operand is
    /// text or its field is not an integer.
    pub fn get_int(&self, row: &Vec<String>) -> (r: Option<i64>)
        ensures
            match r {
                Some(v) => int_operand(*self, row.deep_view()) == Some(v as int),
                None => int_operand(*self, row.deep_view()) is None,
            },
    {
        match self {
            CompiledExpr::Var { column_idx } => {
                if *column_idx < row.len() {
                    parse_i64(row[*column_idx].as_str())
                } else {
                    None
                }
            },
            CompiledExpr::IntConst { val } => Some(*val),
            CompiledExpr::StringConst { .. } => None,
        }
    }

    /// The text value of the operand on a row; `None` where the operand is an
    /// integer constant.
    pub fn get_str<'a>(&'a self, row: &'a Vec<String>) -> (r: Option<&'a str>)
        ensures
            match r {
                Some(s) => text_operand(*self, row.deep_view()) == Some(s@),
                None => text_operand(*self, row.deep_view()) is None,
            },
    {
        match self {
            CompiledExpr::Var { column_idx } => {
                if *column_idx < row.len() {
                    Some(row[*column_idx].as_str())
                } else {
                    None
                }
            },
            CompiledExpr::IntConst { .. } => None,
            CompiledExpr::StringConst { val } => Some(val.as_str()),
        }
    }
}

impl CompiledFilter {
    /// Whether the row passes this filter.
    pub fn check_record(&self, row: &Vec<String>) -> (r: bool)
        ensures
            r == filter_holds(*self, row.deep_view()),
    {
        match self.ty {
            ColumnType::String => match (self.left.get_str(row), self.right.get_str(row)) {
                (Some(l), Some(r)) => self.test.test_text(l, r),
                _ => false,
            },
            ColumnType::Integer => match (self.left.get_int(row), self.right.get_int(row)) {
                (Some(l), Some(r)) => self.test.test(l, r),
                _ => false,
            },
        }
    }
}

impl CompiledQuery {
    /// The projected fields of the row if it passes every filter, else `None`.
    pub fn on_row(&self, record: &Vec<String>) -> (r: Option<Vec<String>>)
        requires
            projections_fit(self.projections@, record@.len() as int),
        ensures
            match r {
                Some(out) => row_matches(self.filters@, record.deep_view()) && out.deep_view()
                    == projected(self.projections@, record.deep_view()),
                None => !row_matches(self.filters@, record.deep_view()),
            },
    {
        let mut k: usize = 0;
        while k < self.filters.len()
            invariant
                k <= self.filters@.len(),
                forall|m: int| 0 <= m < k ==> filter_holds(#[trigger] self.filters@[m], record.deep_view()),
            decreases self.filters@.len() - k,
        {
            if !self.filters[k].check_record(record) {
                return None;
            }
            k = k + 1;
        }
        let mut out: Vec<String> = Vec::new();
        let mut j: usize = 0;
        while j < self.projections.len()
            invariant
                j <= self.projections@.len(),
                projections_fit(self.projections@, record@.len() as int),
                out.deep_view() =~= projected(self.projections@, record.deep_view()).subrange(0, j as int),
            decreases self.projections@.len() - j,
        {
            let idx = self.projections[j].0;
            let ghost before = out.deep_view();
            let field = record[idx].clone();
            out.push(field);
            assert(out.deep_view() =~= before.push(record@[idx as int]@));
            assert(projected(self.projections@, record.deep_view()).subrange(0, j as int + 1)
                =~= projected(self.projections@, record.deep_view()).subrange(0, j as int).push(record@[idx as int]@));
            j = j + 1;
        }
        assert(out.deep_view() =~= projected(self.projections@, record.deep_view()));
        Some(out)
    }

    /// The output column names, in projection order.
    pub fn out_header(&self) -> (r: Vec<String>)
        ensures
            r@.len() == self.projections@.len(),
            forall|j: int| 0 <= j < r@.len() ==> #[trigger] r@[j] == self.projections@[j].1,
    {
        let mut out: Vec<String> = Vec::new();
        let mut j: usize = 0;
        while j < self.projections.len()
            invariant
                j <= self.projections@.len(),
                out@.len() == j,
                forall|m: int| 0 <= m < j ==> #[trigger] out@[m] == self.projections@[m].1,
            decreases self.projections@.len() - j,
        {
            out.push(self.projections[j].1.clone());
            j = j + 1;
        }
        out
    }
}

proof fn lemma_failing_filter_fails_all(fs: Seq<Filter>, types: Seq<ColumnType>, names: Seq<String>, k: int)
    requires
        0 <= k < fs.len(),
        compiled_filter(fs[k], types, names) is Err,
    ensures
        compiled_filters(fs, types, names) is Err,
    decreases fs.len(),
{
    if k < fs.len() - 1 {
        assert(fs.drop_last()[k] == fs[k]);
        lemma_failing_filter_fails_all(fs.drop_last(), types, names, k);
    }
}

/// A query with a filter that names a column absent from the schema does not
/// compile; where that filter is the first to fail, the error is that unknown
/// column.
pub proof fn law_unknown_filter_column_rejected(
    query: Query,
    types: Seq<ColumnType>,
    names: Seq<String>,
    k: int,
    name: String,
)
    requires
        0 <= k < query.filters@.len(),
        query.filters@[k].left == (Expr::Var { column_idx: name }) || query.filters@[k].right == (Expr::Var {
            column_idx: name,
        }),
        last_index_of(names, name@) is None,
    ensures
        compiled_query(query, types, names) is Err,
        (types.len() == names.len() && compiled_projections(query.projections@, names) is Ok
            && compiled_filters(query.filters@.subrange(0, k), types, names) is Ok
            && query.filters@[k].left == (Expr::Var { column_idx: name }))
            ==> compiled_query(query, types, names) == Err::<(Seq<(usize, String)>, Seq<CompiledFilter>), _>(
            QueryError::UnknownColumn { name },
        ),
{
    let fs = query.filters@;
    assert(compiled_filter(fs[k], types, names) is Err);
    lemma_failing_filter_fails_all(fs, types, names, k);
    if types.len() == names.len() && compiled_projections(query.projections@, names) is Ok
        && compiled_filters(fs.subrange(0, k), types, names) is Ok && fs[k].left == (Expr::Var {
        column_idx: name,
    }) {
        assert(fs.subrange(0, k + 1).drop_last() =~= fs.subrange(0, k));
        lemma_filter_error_persists(fs, types, names, k + 1, QueryError::UnknownColumn { name });
    }
}

} // verus!

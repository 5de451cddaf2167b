use crate::query::{chars_of, Expected, Expr, Filter, Query, QueryError, Test};
use vstd::prelude::*;

verus! {

/// What an operand says, as text.
pub enum ExprModel {
    Var(Seq<char>),
    Const(Seq<char>),
}

/// What a filter says: its operands and its comparison.
pub struct FilterModel {
    pub left: ExprModel,
    pub test: Test,
    pub right: ExprModel,
}

impl View for Expr {
    type V = ExprModel;

    open spec fn view(&self) -> ExprModel {
        match self {
            Expr::Var { column_idx } => ExprModel::Var(column_idx@),
            Expr::Const { val } => ExprModel::Const(val@),
        }
    }
}

impl View for Filter {
    type V = FilterModel;

    open spec fn view(&self) -> FilterModel {
        FilterModel { left: self.left@, test: self.test, right: self.right@ }
    }
}

/// Space, tab, carriage return or line feed.
pub open spec fn is_ws(c: char) -> bool {
    c == ' ' || c == '\t' || c == '\r' || c == '\n'
}

/// An ASCII letter.
pub open spec fn is_alpha(c: char) -> bool {
    ('a' <= c && c <= 'z') || ('A' <= c && c <= 'Z')
}

/// An ASCII letter or digit.
pub open spec fn is_alnum(c: char) -> bool {
    is_alpha(c) || ('0' <= c && c <= '9')
}

/// The first position at or after `i` that does not hold whitespace.
pub open spec fn skip_ws(s: Seq<char>, i: int) -> int
    decreases s.len() - i,
{
    if 0 <= i < s.len() && is_ws(s[i]) {
        skip_ws(s, i + 1)
    } else {
        i
    }
}

/// The end of the run of letters (or, with `digits`, letters and digits) that
/// starts at `i`.
pub open spec fn word_end(s: Seq<char>, i: int, digits: bool) -> int
    decreases s.len() - i,
{
    if 0 <= i < s.len() && (if digits { is_alnum(s[i]) } else { is_alpha(s[i]) }) {
        word_end(s, i + 1, digits)
    } else {
        i
    }
}

/// Whether the keyword `w` stands in `s` at `i`.
pub open spec fn keyword_at(s: Seq<char>, i: int, w: Seq<char>) -> bool {
    0 <= i && i + w.len() <= s.len() && s.subrange(i, i + w.len()) == w
}

pub open spec fn project_keyword() -> Seq<char> {
    seq!['P', 'R', 'O', 'J', 'E', 'C', 'T']
}

pub open spec fn filter_keyword() -> Seq<char> {
    seq!['F', 'I', 'L', 'T', 'E', 'R']
}

/// An operand at `i`: a double-quoted run of letters and digits, or a run of
/// letters; with the position after it.
pub open spec fn expr_at(s: Seq<char>, i: int) -> Option<(ExprModel, int)> {
    if 0 <= i < s.len() && s[i] == '"' {
        let e = word_end(s, i + 1, true);
        if e > i + 1 && e < s.len() && s[e] == '"' {
            Some((ExprModel::Const(s.subrange(i + 1, e)), e + 1))
        } else {
            None
        }
    } else {
        let e = word_end(s, i, false);
        if e > i {
            Some((ExprModel::Var(s.subrange(i, e)), e))
        } else {
            None
        }
    }
}

/// A comparison operator at `i`, the longer `>=` before `>`.
pub open spec fn operator_at(s: Seq<char>, i: int) -> Option<(Test, int)> {
    if 0 <= i < s.len() && s[i] == '=' {
        Some((Test::Equal, i + 1))
    } else if 0 <= i < s.len() && s[i] == '>' {
        if i + 1 < s.len() && s[i + 1] == '=' {
            Some((Test::GreaterOrEqual, i + 2))
        } else {
            Some((Test::Greater, i + 1))
        }
    } else {
        None
    }
}

/// A filter at `i`: operand, operator, operand, with optional whitespace between.
pub open spec fn filter_at(s: Seq<char>, i: int) -> Option<(FilterModel, int)> {
    match expr_at(s, i) {
        None => None,
        Some((l, a)) => match operator_at(s, skip_ws(s, a)) {
            None => None,
            Some((t, b)) => match expr_at(s, skip_ws(s, b)) {
                None => None,
                Some((r, c)) => Some((FilterModel { left: l, test: t, right: r }, c)),
            },
        },
    }
}

proof fn lemma_skip_ws_bounds(s: Seq<char>, i: int)
    ensures
        i <= skip_ws(s, i),
        i <= s.len() ==> skip_ws(s, i) <= s.len(),
        0 <= skip_ws(s, i) < s.len() ==> !is_ws(s[skip_ws(s, i)]),
    decreases s.len() - i,
{
    if 0 <= i < s.len() && is_ws(s[i]) {
        lemma_skip_ws_bounds(s, i + 1);
    }
}

#[via_fn]
proof fn names_at_decreases(s: Seq<char>, i: int) {
    let e = word_end(s, i, false);
    if !(e <= i || e > s.len()) {
        let j = skip_ws(s, e);
        lemma_skip_ws_bounds(s, e);
        lemma_skip_ws_bounds(s, j + 1);
    }
}

#[via_fn]
proof fn filters_at_decreases(s: Seq<char>, i: int) {
    if let Some((f, e)) = filter_at(s, i) {
        if !(e <= i || e > s.len()) {
            let j = skip_ws(s, e);
            lemma_skip_ws_bounds(s, e);
            lemma_skip_ws_bounds(s, j + 1);
        }
    }
}

/// A comma-separated list of one or more column names (runs of letters) at
/// `i`, and the position after the last one.
pub open spec fn names_at(s: Seq<char>, i: int) -> Option<(Seq<Seq<char>>, int)>
    decreases s.len() - i via names_at_decreases
{
    let e = word_end(s, i, false);
    if e <= i || e > s.len() {
        None
    } else {
        let j = skip_ws(s, e);
        if j < s.len() && s[j] == ',' {
            match names_at(s, skip_ws(s, j + 1)) {
                Some((rest, end)) => Some((seq![s.subrange(i, e)] + rest, end)),
                None => None,
            }
        } else {
            Some((seq![s.subrange(i, e)], e))
        }
    }
}

/// A comma-separated list of one or more filters at `i`, and the position after
/// the last one.
pub open spec fn filters_at(s: Seq<char>, i: int) -> Option<(Seq<FilterModel>, int)>
    decreases s.len() - i via filters_at_decreases
{
    match filter_at(s, i) {
        None => None,
        Some((f, e)) => if e <= i || e > s.len() {
            None
        } else {
            let j = skip_ws(s, e);
            if j < s.len() && s[j] == ',' {
                match filters_at(s, skip_ws(s, j + 1)) {
                    Some((rest, end)) => Some((seq![f] + rest, end)),
                    None => None,
                }
            } else {
                Some((seq![f], e))
            }
        },
    }
}

/// The query that the text `s` spells, if it follows the grammar
/// `PROJECT names [FILTER filters]`, with whitespace after each keyword and
/// nothing but whitespace after the end.
pub open spec fn parsed_query(s: Seq<char>) -> Option<(Seq<Seq<char>>, Seq<FilterModel>)> {
    let a = project_keyword().len() as int;
    if !keyword_at(s, 0, project_keyword()) || skip_ws(s, a) == a {
        None
    } else {
        match names_at(s, skip_ws(s, a)) {
            None => None,
            Some((names, e)) => {
                let j = skip_ws(s, e);
                if j == s.len() {
                    Some((names, Seq::empty()))
                } else if !keyword_at(s, j, filter_keyword()) {
                    None
                } else {
                    let k = j + filter_keyword().len();
                    if skip_ws(s, k) == k {
                        None
                    } else {
                        match filters_at(s, skip_ws(s, k)) {
                            None => None,
                            Some((filters, e2)) => if skip_ws(s, e2) == s.len() {
                                Some((names, filters))
                            } else {
                                None
                            },
                        }
                    }
                }
            },
        }
    }
}

/// Relies on `String`'s `FromIterator<char>`: the text of the characters from
/// `start` up to `end`.
#[verifier::external_body]
fn text_between(cs: &Vec<char>, start: usize, end: usize) -> (r: String)
    requires
        start <= end <= cs@.len(),
    ensures
        r@ == cs@.subrange(start as int, end as int),
{
    cs[start..end].iter().collect()
}

fn skip_ws_at(cs: &Vec<char>, i: usize) -> (r: usize)
    requires
        i <= cs@.len(),
    ensures
        r == skip_ws(cs@, i as int),
        i <= r <= cs@.len(),
{
    let mut j: usize = i;
    while j < cs.len() && (cs[j] == ' ' || cs[j] == '\t' || cs[j] == '\r' || cs[j] == '\n')
        invariant
            i <= j <= cs@.len(),
            skip_ws(cs@, i as int) == skip_ws(cs@, j as int),
        decreases cs@.len() - j,
    {
        j = j + 1;
    }
    j
}

fn word_end_at(cs: &Vec<char>, i: usize, digits: bool) -> (r: usize)
    requires
        i <= cs@.len(),
    ensures
        r == word_end(cs@, i as int, digits),
        i <= r <= cs@.len(),
{
    let mut j: usize = i;
    while j < cs.len() && (('a' <= cs[j] && cs[j] <= 'z') || ('A' <= cs[j] && cs[j] <= 'Z') || (digits
        && '0' <= cs[j] && cs[j] <= '9'))
        invariant
            i <= j <= cs@.len(),
            word_end(cs@, i as int, digits) == word_end(cs@, j as int, digits),
        decreases cs@.len() - j,
    {
        j = j + 1;
    }
    j
}

fn keyword_at_exec(cs: &Vec<char>, i: usize, w: &Vec<char>) -> (r: bool)
    requires
        i <= cs@.len(),
    ensures
        r == keyword_at(cs@, i as int, w@),
{
    if w.len() > cs.len() - i {
        return false;
    }
    let n = cs.len();
    let mut k: usize = 0;
    while k < w.len()
        invariant
            k <= w@.len(),
            n == cs@.len(),
            i + w@.len() <= n,
            forall|m: int| 0 <= m < k ==> cs@[i + m] == w@[m],
        decreases w@.len() - k,
    {
        if cs[i + k] != w[k] {
            assert(cs@.subrange(i as int, i + w@.len())[k as int] != w@[k as int]);
            return false;
        }
        k = k + 1;
    }
    assert(cs@.subrange(i as int, i + w@.len()) =~= w@);
    true
}

fn parse_expr(cs: &Vec<char>, i: usize) -> (r: Option<(Expr, usize)>)
    requires
        i <= cs@.len(),
    ensures
        match r {
            Some((e, k)) => expr_at(cs@, i as int) == Some((e@, k as int)) && k <= cs@.len(),
            None => expr_at(cs@, i as int) is None,
        },
{
    if i < cs.len() && cs[i] == '"' {
        let e = word_end_at(cs, i + 1, true);
        if e > i + 1 && e < cs.len() && cs[e] == '"' {
            Some((Expr::Const { val: text_between(cs, i + 1, e) }, e + 1))
        } else {
            None
        }
    } else {
        let e = word_end_at(cs, i, false);
        if e > i {
            Some((Expr::Var { column_idx: text_between(cs, i, e) }, e))
        } else {
            None
        }
    }
}

fn parse_filter(cs: &Vec<char>, i: usize) -> (r: Option<(Filter, usize)>)
    requires
        i <= cs@.len(),
    ensures
        match r {
            Some((f, k)) => filter_at(cs@, i as int) == Some((f@, k as int)) && k <= cs@.len(),
            None => filter_at(cs@, i as int) is None,
        },
{
    let (left, a) = match parse_expr(cs, i) {
        Some(p) => p,
        None => return None,
    };
    let b = skip_ws_at(cs, a);
    let (test, c) = if b < cs.len() && cs[b] == '=' {
        (Test::Equal, b + 1)
    } else if b < cs.len() && cs[b] == '>' {
        if b + 1 < cs.len() && cs[b + 1] == '=' {
            (Test::GreaterOrEqual, b + 2)
        } else {
            (Test::Greater, b + 1)
        }
    } else {
        return None;
    };
    let d = skip_ws_at(cs, c);
    let (right, e) = match parse_expr(cs, d) {
        Some(p) => p,
        None => return None,
    };
    Some((Filter { left, right, test }, e))
}

fn parse_names(cs: &Vec<char>, i: usize) -> (r: Option<(Vec<String>, usize)>)
    requires
        i <= cs@.len(),
    ensures
        match r {
            Some((v, k)) => names_at(cs@, i as int) == Some((v.deep_view(), k as int)) && k <= cs@.len(),
            None => names_at(cs@, i as int) is None,
        },
    decreases cs@.len() - i,
{
    let e = word_end_at(cs, i, false);
    if e <= i {
        return None;
    }
    let name = text_between(cs, i, e);
    let j = skip_ws_at(cs, e);
    if j < cs.len() && cs[j] == ',' {
        let k = skip_ws_at(cs, j + 1);
        match parse_names(cs, k) {
            Some((rest, end)) => {
                let ghost tail = rest.deep_view();
                let ghost first = name@;
                let mut all = rest;
                all.insert(0, name);
                assert(all.deep_view() =~= seq![first] + tail);
                Some((all, end))
            },
            None => None,
        }
    } else {
        let ghost first = name@;
        let all = vec![name];
        assert(all.deep_view() =~= seq![first]);
        Some((all, e))
    }
}

fn parse_filters(cs: &Vec<char>, i: usize) -> (r: Option<(Vec<Filter>, usize)>)
    requires
        i <= cs@.len(),
    ensures
        match r {
            Some((v, k)) => filters_at(cs@, i as int) == Some((v@.map_values(|f: Filter| f@), k as int)) && k <= cs@.len(),
            None => filters_at(cs@, i as int) is None,
        },
    decreases cs@.len() - i,
{
    let (f, e) = match parse_filter(cs, i) {
        Some(p) => p,
        None => return None,
    };
    if e <= i {
        return None;
    }
    let j = skip_ws_at(cs, e);
    if j < cs.len() && cs[j] == ',' {
        let k = skip_ws_at(cs, j + 1);
        match parse_filters(cs, k) {
            Some((rest, end)) => {
                let ghost tail = rest@.map_values(|f: Filter| f@);
                let ghost first = f@;
                let mut all = rest;
                all.insert(0, f);
                assert(all@.map_values(|f: Filter| f@) =~= seq![first] + tail);
                Some((all, end))
            },
            None => None,
        }
    } else {
        let ghost first = f@;
        let all = vec![f];
        assert(all@.map_values(|f: Filter| f@) =~= seq![first]);
        Some((all, e))
    }
}

/// Parses query text of the form `PROJECT a, b FILTER a > "3", b = c`.
pub fn parse_query(ii: &str) -> (r: Result<Query, QueryError>)
    ensures
        match r {
            Ok(q) => parsed_query(ii@) == Some((q.projections.deep_view(), q.filters@.map_values(|f: Filter| f@))),
            Err(e) => parsed_query(ii@) is None && e is Syntax,
        },
{
    let cs = chars_of(ii);
    let project = vec!['P', 'R', 'O', 'J', 'E', 'C', 'T'];
    assert(project@ =~= project_keyword());
    if !keyword_at_exec(&cs, 0, &project) {
        return Err(QueryError::Syntax { position: 0, expected: Expected::Project });
    }
    let a = project.len();
    let b = skip_ws_at(&cs, a);
    if b == a {
        return Err(QueryError::Syntax { position: a, expected: Expected::Whitespace });
    }
    let (projections, e) = match parse_names(&cs, b) {
        Some(p) => p,
        None => return Err(QueryError::Syntax { position: b, expected: Expected::ColumnName }),
    };
    let j = skip_ws_at(&cs, e);
    if j == cs.len() {
        let filters: Vec<Filter> = Vec::new();
        assert(filters@.map_values(|f: Filter| f@) =~= Seq::<FilterModel>::empty());
        return Ok(Query { projections, filters });
    }
    let filter = vec!['F', 'I', 'L', 'T', 'E', 'R'];
    assert(filter@ =~= filter_keyword());
    if !keyword_at_exec(&cs, j, &filter) {
        return Err(QueryError::Syntax { position: j, expected: Expected::FilterOrEnd });
    }
    let k = j + filter.len();
    let m = skip_ws_at(&cs, k);
    if m == k {
        return Err(QueryError::Syntax { position: k, expected: Expected::Whitespace });
    }
    let (filters, e2) = match parse_filters(&cs, m) {
        Some(p) => p,
        None => return Err(QueryError::Syntax { position: m, expected: Expected::Filter }),
    };
    let end = skip_ws_at(&cs, e2);
    if end != cs.len() {
        return Err(QueryError::Syntax { position: end, expected: Expected::End });
    }
    Ok(Query { projections, filters })
}

} // verus!

use crate::table::ColumnType;
use vstd::prelude::*;
use vstd::std_specs::iter::IteratorSpec;

verus! {

/// The comparison a filter makes.
#[derive(Debug, Clone, Copy, PartialEq, Eq, Structural)]
pub enum Test {
    Equal,
    Greater,
    GreaterOrEqual,
}

/// One operand of a filter, before it is resolved against a schema.
#[derive(Debug, PartialEq, Eq)]
pub enum Expr {
    /// A column, by name.
    Var { column_idx: String },
    /// A quoted literal, kept as text until compilation.
    Const { val: String },
}

/// A single comparison between two operands.
#[derive(Debug, PartialEq, Eq)]
pub struct Filter {
    pub left: Expr,
    pub right: Expr,
    pub test: Test,
}

/// A parsed query, not yet resolved against a schema.
#[derive(Debug)]
pub struct Query {
    pub projections: Vec<String>,
    pub filters: Vec<Filter>,
}

/// What the query parser wanted where the text went wrong.
#[derive(Debug, Clone, Copy, PartialEq, Eq, Structural)]
pub enum Expected {
    /// The keyword `PROJECT` at the start.
    Project,
    /// Whitespace after a keyword.
    Whitespace,
    /// A list of column names.
    ColumnName,
    /// The keyword `FILTER`, or the end of the text.
    FilterOrEnd,
    /// A list of filters: operand, operator, operand.
    Filter,
    /// The end of the text.
    End,
}

impl Expected {
    /// A short description of what was wanted.
    pub fn describe(self) -> (r: &'static str) {
        match self {
            Expected::Project => "the keyword PROJECT",
            Expected::Whitespace => "whitespace",
            Expected::ColumnName => "a column name",
            Expected::FilterOrEnd => "the keyword FILTER or the end of the query",
            Expected::Filter => "a filter such as a > \"3\"",
            Expected::End => "the end of the query",
        }
    }
}

/// Why a query was rejected.
#[derive(Debug)]
pub enum QueryError {
    /// The query text does not follow the grammar; `position` is the character
    /// index at which parsing stopped and `expected` what was wanted there.
    Syntax { position: usize, expected: Expected },
    /// A projection or an operand names a column that the schema lacks.
    UnknownColumn { name: String },
    /// A filter compares two columns of different types.
    TypeMismatch { left: ColumnType, right: ColumnType },
    /// A filter compares two literals, so nothing fixes its type.
    AmbiguousFilterType,
    /// A literal compared with an integer column is not a 64-bit integer.
    MalformedInteger { literal: String },
    /// The schema has a different number of column names and column types.
    SchemaArityMismatch,
}

/// Whether `t` holds between two integers.
pub open spec fn int_test(t: Test, l: int, r: int) -> bool {
    match t {
        Test::Equal => l == r,
        Test::Greater => l > r,
        Test::GreaterOrEqual => l >= r,
    }
}

/// Lexicographic order of texts, by character.
pub open spec fn text_less(a: Seq<char>, b: Seq<char>) -> bool
    decreases a.len(),
{
    if a.len() == 0 {
        b.len() > 0
    } else if b.len() == 0 {
        false
    } else if a[0] != b[0] {
        (a[0] as u32) < (b[0] as u32)
    } else {
        text_less(a.drop_first(), b.drop_first())
    }
}

/// Whether `t` holds between two texts.
pub open spec fn text_test(t: Test, l: Seq<char>, r: Seq<char>) -> bool {
    match t {
        Test::Equal => l == r,
        Test::Greater => text_less(r, l),
        Test::GreaterOrEqual => l == r || text_less(r, l),
    }
}

/// The characters of the text, in order.
pub(crate) fn chars_of(s: &str) -> (r: Vec<char>)
    ensures
        r@ == s@,
{
    broadcast use vstd::string::group_string_axioms;

    let mut it = s.chars();
    let mut out: Vec<char> = Vec::new();
    loop
        invariant
            out@ + it.remaining() == s@,
            it.decrease() is Some,
        decreases it.decrease()->0,
    {
        match it.next() {
            Some(c) => {
                out.push(c);
                assert(out@ + it.remaining() =~= s@);
            },
            None => {
                assert(out@ =~= s@);
                return out;
            },
        }
    }
}

/// Whether `a` comes before `b` in lexicographic order.
fn chars_less(a: &Vec<char>, b: &Vec<char>) -> (r: bool)
    ensures
        r == text_less(a@, b@),
{
    let mut i: usize = 0;
    assert(a@.subrange(0, a@.len() as int) =~= a@);
    assert(b@.subrange(0, b@.len() as int) =~= b@);
    while i < a.len() && i < b.len() && a[i] == b[i]
        invariant
            i <= a@.len(),
            i <= b@.len(),
            text_less(a@, b@) == text_less(a@.subrange(i as int, a@.len() as int), b@.subrange(i as int, b@.len() as int)),
        decreases a@.len() - i,
    {
        let ghost sa = a@.subrange(i as int, a@.len() as int);
        let ghost sb = b@.subrange(i as int, b@.len() as int);
        assert(sa.drop_first() =~= a@.subrange(i + 1, a@.len() as int));
        assert(sb.drop_first() =~= b@.subrange(i + 1, b@.len() as int));
        i = i + 1;
    }
    let ghost sa = a@.subrange(i as int, a@.len() as int);
    let ghost sb = b@.subrange(i as int, b@.len() as int);
    if i == a.len() {
        i < b.len()
    } else if i == b.len() {
        false
    } else {
        assert(sa[0] == a@[i as int] && sb[0] == b@[i as int]);
        (a[i] as u32) < (b[i] as u32)
    }
}

/// Whether two texts hold the same characters.
fn chars_equal(a: &Vec<char>, b: &Vec<char>) -> (r: bool)
    ensures
        r == (a@ == b@),
{
    if a.len() != b.len() {
        return false;
    }
    let mut i: usize = 0;
    while i < a.len()
        invariant
            a@.len() == b@.len(),
            i <= a@.len(),
            forall|j: int| 0 <= j < i ==> a@[j] == b@[j],
        decreases a@.len() - i,
    {
        if a[i] != b[i] {
            return false;
        }
        i = i + 1;
    }
    assert(a@ =~= b@);
    true
}

impl Test {
    /// Applies the comparison to two integers.
    pub fn test(self, left: i64, right: i64) -> (r: bool)
        ensures
            r == int_test(self, left as int, right as int),
    {
        match self {
            Test::Equal => left == right,
            Test::Greater => left > right,
            Test::GreaterOrEqual => left >= right,
        }
    }

    /// Applies the comparison to two texts, ordered lexicographically.
    pub fn test_text(self, left: &str, right: &str) -> (r: bool)
        ensures
            r == text_test(self, left@, right@),
    {
        let l = chars_of(left);
        let r = chars_of(right);
        match self {
            Test::Equal => chars_equal(&l, &r),
            Test::Greater => chars_less(&r, &l),
            Test::GreaterOrEqual => chars_equal(&l, &r) || chars_less(&r, &l),
        }
    }
}

} // verus!

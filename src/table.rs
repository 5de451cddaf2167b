use vstd::prelude::*;

verus! {

/// The kind of value a column holds.
#[derive(Debug, Clone, Copy, PartialEq, Eq, Structural)]
pub enum ColumnType {
    String,
    /// A 64-bit signed integer.
    Integer,
}

pub open spec fn is_digit(c: char) -> bool {
    '0' <= c && c <= '9'
}

/// A non-empty run of decimal digits.
pub open spec fn all_digits(s: Seq<char>) -> bool {
    s.len() > 0 && forall|i: int| 0 <= i < s.len() ==> is_digit(#[trigger] s[i])
}

/// The value of a run of decimal digits, most significant first.
pub open spec fn digits_value(s: Seq<char>) -> int
    decreases s.len(),
{
    if s.len() == 0 {
        0
    } else {
        10 * digits_value(s.drop_last()) + ((s.last() as u32) as int - ('0' as u32) as int)
    }
}

/// The integer written by `s`: an optional `+` or `-`, then at least one
/// decimal digit and nothing else. Empty text, a lone sign and any other
/// character (whitespace, `_`) give `None`.
pub open spec fn int_text_value(s: Seq<char>) -> Option<int> {
    if s.len() > 0 && (s[0] == '-' || s[0] == '+') {
        if all_digits(s.drop_first()) {
            if s[0] == '-' {
                Some(-digits_value(s.drop_first()))
            } else {
                Some(digits_value(s.drop_first()))
            }
        } else {
            None
        }
    } else if all_digits(s) {
        Some(digits_value(s))
    } else {
        None
    }
}

/// The 64-bit integer that `s` reads as, if it is integer text whose value fits.
pub open spec fn i64_of_text(s: Seq<char>) -> Option<i64> {
    match int_text_value(s) {
        Some(v) => if i64::MIN <= v && v <= i64::MAX {
            Some(v as i64)
        } else {
            None
        },
        None => None,
    }
}

/// Relies on `str::parse::<i64>`: it accepts exactly an optional sign followed by
/// decimal digits (no whitespace) whose value lies in the range of `i64`.
#[verifier::external_body]
pub(crate) fn parse_i64(s: &str) -> (r: Option<i64>)
    ensures
        r == i64_of_text(s@),
{
    s.parse::<i64>().ok()
}

/// One step of the column type fold: a column stays `Integer` only while every
/// value seen in it reads as an integer.
pub open spec fn next_type(current: ColumnType, value: Seq<char>) -> ColumnType {
    if current == ColumnType::Integer && i64_of_text(value) is Some {
        ColumnType::Integer
    } else {
        ColumnType::String
    }
}

/// The type of column `col` over the given rows: `Integer` iff every field of the
/// column reads as a 64-bit integer.
pub open spec fn column_type_of(rows: Seq<Seq<Seq<char>>>, col: int) -> ColumnType {
    if forall|r: int| 0 <= r < rows.len() ==> (i64_of_text(#[trigger] rows[r][col]) is Some) {
        ColumnType::Integer
    } else {
        ColumnType::String
    }
}

/// Folds one observed value into a column's type.
pub fn infer_or_keep(current: ColumnType, value: &str) -> (r: ColumnType)
    ensures
        r == next_type(current, value@),
{
    match current {
        ColumnType::Integer => {
            if parse_i64(value).is_some() {
                ColumnType::Integer
            } else {
                ColumnType::String
            }
        },
        ColumnType::String => ColumnType::String,
    }
}

/// The rows of a table together with the type inferred for each column.
#[derive(Debug)]
pub struct Rows {
    pub types: Vec<ColumnType>,
    pub rows: Vec<Vec<String>>,
}

impl Rows {
    /// The fields of every row, in order.
    pub open spec fn records(&self) -> Seq<Seq<Seq<char>>> {
        self.rows.deep_view()
    }

    /// Every row has one field per column, and each column's type is the one
    /// that its fields determine.
    pub open spec fn wf(&self) -> bool {
        &&& forall|r: int| 0 <= r < self.records().len() ==> #[trigger] self.records()[r].len() == self.types@.len()
        &&& forall|c: int| 0 <= c < self.types@.len() ==> #[trigger] self.types@[c] == column_type_of(self.records(), c)
    }

    pub fn empty(num_columns: usize) -> (r: Self)
        ensures
            r.wf(),
            r.types@.len() == num_columns,
            r.records() == Seq::<Seq<Seq<char>>>::empty(),
            forall|c: int| 0 <= c < num_columns ==> #[trigger] r.types@[c] == ColumnType::Integer,
    {
        let r = Rows { rows: Vec::new(), types: vec![ColumnType::Integer; num_columns] };
        assert(r.rows.deep_view() =~= Seq::<Seq<Seq<char>>>::empty());
        r
    }

    /// Appends a row and folds its fields into the column types.
    pub fn push(&mut self, row: Vec<String>)
        requires
            old(self).wf(),
            row@.len() == old(self).types@.len(),
        ensures
            final(self).wf(),
            final(self).records() == old(self).records().push(row.deep_view()),
            final(self).types@.len() == old(self).types@.len(),
            forall|c: int| 0 <= c < final(self).types@.len() ==> #[trigger] final(self).types@[c]
                == next_type(old(self).types@[c], row@[c]@),
    {
        let ghost old_records = self.records();
        let n = self.types.len();
        let mut i: usize = 0;
        while i < n
            invariant
                n == self.types@.len(),
                n == old(self).types@.len(),
                0 <= i <= n,
                row@.len() == n,
                self.rows == old(self).rows,
                forall|c: int| 0 <= c < i ==> #[trigger] self.types@[c] == next_type(old(self).types@[c], row@[c]@),
                forall|c: int| i <= c < n ==> #[trigger] self.types@[c] == old(self).types@[c],
            decreases n - i,
        {
            let t = infer_or_keep(self.types[i], row[i].as_str());
            self.types.set(i, t);
            i = i + 1;
        }
        let ghost new_row = row.deep_view();
        self.rows.push(row);
        assert(self.records() =~= old_records.push(new_row));
        assert forall|c: int| 0 <= c < self.types@.len() implies #[trigger] self.types@[c]
            == column_type_of(self.records(), c) by {
            let recs = self.records();
            assert(old(self).types@[c] == column_type_of(old_records, c));
            assert(recs[recs.len() - 1] == new_row);
            assert(new_row[c] == row@[c]@);
            if self.types@[c] == ColumnType::Integer {
                assert forall|r: int| 0 <= r < recs.len() implies (i64_of_text(#[trigger] recs[r][c]) is Some) by {
                    if r < old_records.len() {
                        assert(recs[r] == old_records[r]);
                    }
                }
            } else {
                if old(self).types@[c] == ColumnType::Integer {
                    assert(!(i64_of_text(recs[recs.len() - 1][c]) is Some));
                } else {
                    let w = choose|r: int| 0 <= r < old_records.len() && !(i64_of_text(#[trigger] old_records[r][c]) is Some);
                    assert(recs[w] == old_records[w]);
                }
            }
        }
    }
}

/// A column's type is `Integer` exactly when every field of that column reads as
/// a 64-bit signed integer; one field that does not makes the whole column text,
/// wherever it stands.
pub proof fn law_column_type_inference(rows: &Rows, col: int)
    requires
        rows.wf(),
        0 <= col < rows.types@.len(),
    ensures
        (rows.types@[col] == ColumnType::Integer) <==> (forall|r: int|
            0 <= r < rows.records().len() ==> (i64_of_text(#[trigger] rows.records()[r][col]) is Some)),
{
}

} // verus!

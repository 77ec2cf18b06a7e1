//! The rows that the store sends back.

use crate::decimal::{Decimal, Number};
use crate::sequences::{lemma_first_at, lemma_first_nowhere};
use vstd::prelude::*;

verus! {

/// One value of a row, as a mathematical value.
pub enum ValueView {
    Null,
    Boolean(bool),
    Integer(int),
    Real(Number),
    Text(Seq<char>),
    Other,
}

/// One value of a row.
#[derive(Debug, Clone, PartialEq, Eq)]
pub enum Value {
    /// No value.
    Null,
    /// A truth value.
    Boolean(bool),
    /// A whole number.
    Integer(i64),
    /// A number written with a point.
    Real(Decimal),
    /// A text.
    Text(String),
    /// Any other value: a list, a map, a node, or a number that no
    /// [`Decimal`] holds. What it holds is not kept.
    Other,
}

impl View for Value {
    type V = ValueView;

    open spec fn view(&self) -> ValueView {
        match self {
            Value::Null => ValueView::Null,
            Value::Boolean(b) => ValueView::Boolean(*b),
            Value::Integer(i) => ValueView::Integer(*i as int),
            Value::Real(d) => ValueView::Real(d@),
            Value::Text(s) => ValueView::Text(s@),
            Value::Other => ValueView::Other,
        }
    }
}

impl DeepView for Value {
    type V = ValueView;

    open spec fn deep_view(&self) -> ValueView {
        self@
    }
}

/// What the store sent back for one statement, as a mathematical value.
pub struct QueryResultView {
    pub columns: Seq<Seq<char>>,
    pub rows: Seq<Seq<ValueView>>,
}

/// What the store sent back for one statement: the names of the columns, and
/// the rows in the order in which they came. A row holds its values in the
/// order of the columns.
#[derive(Debug, Clone, PartialEq, Eq)]
pub struct QueryResult {
    pub columns: Vec<String>,
    pub rows: Vec<Vec<Value>>,
}

impl View for QueryResult {
    type V = QueryResultView;

    open spec fn view(&self) -> QueryResultView {
        QueryResultView { columns: self.columns.deep_view(), rows: self.rows.deep_view() }
    }
}

/// The value that a row holds in the column of the given name: that at the
/// first place at which the name stands among the columns, if the row reaches
/// so far.
pub open spec fn cell(columns: Seq<Seq<char>>, row: Seq<ValueView>, name: Seq<char>) -> Option<
    ValueView,
> {
    match columns.index_of_first(name) {
        Some(i) => if i < row.len() {
            Some(row[i])
        } else {
            None
        },
        None => None,
    }
}

/// A value as the text of an attribute: only a text is one.
pub open spec fn as_text(value: Option<ValueView>) -> Option<Seq<char>> {
    match value {
        Some(ValueView::Text(s)) => Some(s),
        _ => None,
    }
}

/// A value as a whole-number attribute: only a whole number of 32 bits is
/// one.
pub open spec fn as_integer(value: Option<ValueView>) -> Option<int> {
    match value {
        Some(ValueView::Integer(i)) => if i32::MIN <= i <= i32::MAX {
            Some(i)
        } else {
            None
        },
        _ => None,
    }
}

/// A value as a numeric attribute: a number written with a point is one, and
/// so is a whole number.
pub open spec fn as_number(value: Option<ValueView>) -> Option<Number> {
    match value {
        Some(ValueView::Integer(i)) => Some(Number::integer(i)),
        Some(ValueView::Real(n)) => Some(n),
        _ => None,
    }
}

/// The first place at which `name` stands among `columns`.
pub fn find_column(columns: &Vec<String>, name: &str) -> (r: Option<usize>)
    ensures
        match r {
            Some(i) => columns.deep_view().index_of_first(name@) == Some(i as int),
            None => columns.deep_view().index_of_first(name@) is None,
        },
{
    let needle = name.to_owned();
    let mut i: usize = 0;
    while i < columns.len()
        invariant
            i <= columns@.len(),
            needle@ == name@,
            forall|j: int| 0 <= j < i ==> columns.deep_view()[j] != name@,
        decreases columns@.len() - i,
    {
        if columns[i] == needle {
            proof {
                lemma_first_at(columns.deep_view(), name@, i as int);
            }
            return Some(i);
        }
        i += 1;
    }
    proof {
        lemma_first_nowhere(columns.deep_view(), name@);
    }
    None
}

/// The value that `row` holds in the column of the given name.
pub fn find_cell<'a>(columns: &Vec<String>, row: &'a Vec<Value>, name: &str) -> (r: Option<
    &'a Value,
>)
    ensures
        match r {
            Some(value) => cell(columns.deep_view(), row.deep_view(), name@) == Some(value@),
            None => cell(columns.deep_view(), row.deep_view(), name@) is None,
        },
{
    match find_column(columns, name) {
        Some(i) => if i < row.len() {
            Some(&row[i])
        } else {
            None
        },
        None => None,
    }
}

/// Reads a text attribute from a value.
pub fn text_of(value: Option<&Value>) -> (r: Option<String>)
    ensures
        match r {
            Some(s) => as_text(option_view(value)) == Some(s@),
            None => as_text(option_view(value)) is None,
        },
{
    match value {
        Some(Value::Text(s)) => Some(s.clone()),
        _ => None,
    }
}

/// Reads a whole-number attribute from a value.
pub fn integer_of(value: Option<&Value>) -> (r: Option<i32>)
    ensures
        match r {
            Some(i) => as_integer(option_view(value)) == Some(i as int),
            None => as_integer(option_view(value)) is None,
        },
{
    match value {
        Some(Value::Integer(i)) => if -2147483648 <= *i && *i <= 2147483647 {
            Some(*i as i32)
        } else {
            None
        },
        _ => None,
    }
}

/// Reads a numeric attribute from a value.
pub fn number_of(value: Option<&Value>) -> (r: Option<Decimal>)
    ensures
        match r {
            Some(d) => as_number(option_view(value)) == Some(d@),
            None => as_number(option_view(value)) is None,
        },
{
    match value {
        Some(Value::Integer(i)) => Some(Decimal::from_integer(*i)),
        Some(Value::Real(d)) => Some(*d),
        _ => None,
    }
}

/// The mathematical value of a value that may be missing.
pub open spec fn option_view(value: Option<&Value>) -> Option<ValueView> {
    match value {
        Some(v) => Some(v@),
        None => None,
    }
}

} // verus!

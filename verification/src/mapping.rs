//! Rows into styles, and styles into rows.

use crate::error::{RepositoryError, RepositoryErrorView};
use crate::sequences::lemma_first_at;
use crate::style::{Style, StyleView};
use crate::value::{
    as_integer, as_number, as_text, cell, find_cell, integer_of, number_of, text_of, QueryResult,
    QueryResultView, Value, ValueView,
};
use vstd::prelude::*;

verus! {

/// The column that holds a style's name.
pub const NAME: &'static str = "s.name";

/// The column that holds the lower end of the range of alcohol by volume.
pub const ABV_LOW: &'static str = "s.abvLow";

/// The column that holds the upper end of the range of alcohol by volume.
pub const ABV_HIGH: &'static str = "s.abvHigh";

/// The column that holds the lower end of the range of bitterness units.
pub const IBU_LOW: &'static str = "s.ibuLow";

/// The column that holds the upper end of the range of bitterness units.
pub const IBU_HIGH: &'static str = "s.ibuHigh";

/// The column that holds the lower end of the range of colour.
pub const SRM_LOW: &'static str = "s.srmLow";

/// The column that holds the upper end of the range of colour.
pub const SRM_HIGH: &'static str = "s.srmHigh";

/// The column that holds the lower end of the range of original gravity.
pub const ORIGINAL_GRAVITY_LOW: &'static str = "s.originalGravityLow";

/// The column that holds the upper end of the range of original gravity.
pub const ORIGINAL_GRAVITY_HIGH: &'static str = "s.originalGravityHigh";

/// The column that holds the lower end of the range of final gravity.
pub const FINAL_GRAVITY_LOW: &'static str = "s.finalGravityLow";

/// The column that holds the upper end of the range of final gravity.
pub const FINAL_GRAVITY_HIGH: &'static str = "s.finalGravityHigh";

/// The column that holds the number of records deleted.
pub const COUNT: &'static str = "count(s)";

/// The style that a row holds, if it holds one: each of the eleven attributes
/// stands in the column of its name and is of the attribute's type.
pub open spec fn style_of_row(columns: Seq<Seq<char>>, row: Seq<ValueView>) -> Option<StyleView> {
    let name = as_text(cell(columns, row, NAME@));
    let abv_low = as_number(cell(columns, row, ABV_LOW@));
    let abv_high = as_number(cell(columns, row, ABV_HIGH@));
    let ibu_low = as_integer(cell(columns, row, IBU_LOW@));
    let ibu_high = as_integer(cell(columns, row, IBU_HIGH@));
    let srm_low = as_number(cell(columns, row, SRM_LOW@));
    let srm_high = as_number(cell(columns, row, SRM_HIGH@));
    let original_gravity_low = as_number(cell(columns, row, ORIGINAL_GRAVITY_LOW@));
    let original_gravity_high = as_number(cell(columns, row, ORIGINAL_GRAVITY_HIGH@));
    let final_gravity_low = as_number(cell(columns, row, FINAL_GRAVITY_LOW@));
    let final_gravity_high = as_number(cell(columns, row, FINAL_GRAVITY_HIGH@));
    if name is Some && abv_low is Some && abv_high is Some && ibu_low is Some && ibu_high is Some
        && srm_low is Some && srm_high is Some && original_gravity_low is Some
        && original_gravity_high is Some && final_gravity_low is Some && final_gravity_high
        is Some {
        Some(
            StyleView {
                name: name->0,
                abv_low: abv_low->0,
                abv_high: abv_high->0,
                ibu_low: ibu_low->0,
                ibu_high: ibu_high->0,
                srm_low: srm_low->0,
                srm_high: srm_high->0,
                original_gravity_low: original_gravity_low->0,
                original_gravity_high: original_gravity_high->0,
                final_gravity_low: final_gravity_low->0,
                final_gravity_high: final_gravity_high->0,
            },
        )
    } else {
        None
    }
}

/// The one style that a reply stands for.
///
/// A reply without rows stands for none: the record was not found. A reply in
/// which any row holds no style is malformed as a whole. Of several rows, each
/// holding a style, the last one counts.
pub open spec fn style_of_result(result: QueryResultView) -> Result<
    StyleView,
    RepositoryErrorView,
> {
    if result.rows.len() == 0 {
        Err(RepositoryErrorView::NotFound)
    } else if exists|i: int|
        0 <= i < result.rows.len() && style_of_row(result.columns, #[trigger] result.rows[i])
            is None {
        Err(RepositoryErrorView::MalformedRow)
    } else {
        Ok(style_of_row(result.columns, result.rows.last())->0)
    }
}

/// The style that a row holds, if it holds one.
pub fn style_from_row(columns: &Vec<String>, row: &Vec<Value>) -> (r: Option<Style>)
    ensures
        match r {
            Some(style) => style_of_row(columns.deep_view(), row.deep_view()) == Some(style@),
            None => style_of_row(columns.deep_view(), row.deep_view()) is None,
        },
{
    let name = match text_of(find_cell(columns, row, NAME)) {
        Some(v) => v,
        None => {
            return None;
        },
    };
    let abv_low = match number_of(find_cell(columns, row, ABV_LOW)) {
        Some(v) => v,
        None => {
            return None;
        },
    };
    let abv_high = match number_of(find_cell(columns, row, ABV_HIGH)) {
        Some(v) => v,
        None => {
            return None;
        },
    };
    let ibu_low = match integer_of(find_cell(columns, row, IBU_LOW)) {
        Some(v) => v,
        None => {
            return None;
        },
    };
    let ibu_high = match integer_of(find_cell(columns, row, IBU_HIGH)) {
        Some(v) => v,
        None => {
            return None;
        },
    };
    let srm_low = match number_of(find_cell(columns, row, SRM_LOW)) {
        Some(v) => v,
        None => {
            return None;
        },
    };
    let srm_high = match number_of(find_cell(columns, row, SRM_HIGH)) {
        Some(v) => v,
        None => {
            return None;
        },
    };
    let original_gravity_low = match number_of(find_cell(columns, row, ORIGINAL_GRAVITY_LOW)) {
        Some(v) => v,
        None => {
            return None;
        },
    };
    let original_gravity_high = match number_of(find_cell(columns, row, ORIGINAL_GRAVITY_HIGH)) {
        Some(v) => v,
        None => {
            return None;
        },
    };
    let final_gravity_low = match number_of(find_cell(columns, row, FINAL_GRAVITY_LOW)) {
        Some(v) => v,
        None => {
            return None;
        },
    };
    let final_gravity_high = match number_of(find_cell(columns, row, FINAL_GRAVITY_HIGH)) {
        Some(v) => v,
        None => {
            return None;
        },
    };
    Some(
        Style::new(
            name,
            abv_low,
            abv_high,
            ibu_low,
            ibu_high,
            srm_low,
            srm_high,
            original_gravity_low,
            original_gravity_high,
            final_gravity_low,
            final_gravity_high,
        ),
    )
}

/// The number of deleted records that a row holds, if it holds one: a whole
/// number in the column of the count.
pub open spec fn count_of_row(columns: Seq<Seq<char>>, row: Seq<ValueView>) -> Option<int> {
    match cell(columns, row, COUNT@) {
        Some(ValueView::Integer(count)) => Some(count),
        _ => None,
    }
}

/// The number of deleted records that a row holds, if it holds one.
pub fn count_from_row(columns: &Vec<String>, row: &Vec<Value>) -> (r: Option<i64>)
    ensures
        match r {
            Some(count) => count_of_row(columns.deep_view(), row.deep_view()) == Some(
                count as int,
            ),
            None => count_of_row(columns.deep_view(), row.deep_view()) is None,
        },
{
    match find_cell(columns, row, COUNT) {
        Some(Value::Integer(count)) => Some(*count),
        _ => None,
    }
}

/// The columns of a row that holds a style, in their order.
pub open spec fn style_columns() -> Seq<Seq<char>> {
    seq![
        NAME@,
        ABV_LOW@,
        ABV_HIGH@,
        IBU_LOW@,
        IBU_HIGH@,
        SRM_LOW@,
        SRM_HIGH@,
        ORIGINAL_GRAVITY_LOW@,
        ORIGINAL_GRAVITY_HIGH@,
        FINAL_GRAVITY_LOW@,
        FINAL_GRAVITY_HIGH@,
    ]
}

/// The row that holds a style, its values in the order of [`style_columns`]:
/// the name as a text, the bitterness units as whole numbers, and the other
/// attributes as numbers written with a point.
pub open spec fn row_of_style(style: StyleView) -> Seq<ValueView> {
    seq![
        ValueView::Text(style.name),
        ValueView::Real(style.abv_low),
        ValueView::Real(style.abv_high),
        ValueView::Integer(style.ibu_low),
        ValueView::Integer(style.ibu_high),
        ValueView::Real(style.srm_low),
        ValueView::Real(style.srm_high),
        ValueView::Real(style.original_gravity_low),
        ValueView::Real(style.original_gravity_high),
        ValueView::Real(style.final_gravity_low),
        ValueView::Real(style.final_gravity_high),
    ]
}

/// The columns of a row that holds a style.
pub fn columns_of_style() -> (columns: Vec<String>)
    ensures
        columns.deep_view() == style_columns(),
{
    let mut columns: Vec<String> = Vec::new();
    columns.push(NAME.to_owned());
    columns.push(ABV_LOW.to_owned());
    columns.push(ABV_HIGH.to_owned());
    columns.push(IBU_LOW.to_owned());
    columns.push(IBU_HIGH.to_owned());
    columns.push(SRM_LOW.to_owned());
    columns.push(SRM_HIGH.to_owned());
    columns.push(ORIGINAL_GRAVITY_LOW.to_owned());
    columns.push(ORIGINAL_GRAVITY_HIGH.to_owned());
    columns.push(FINAL_GRAVITY_LOW.to_owned());
    columns.push(FINAL_GRAVITY_HIGH.to_owned());
    assert(columns.deep_view() =~= style_columns());
    columns
}

/// The row that holds `style`.
pub fn row_from_style(style: &Style) -> (row: Vec<Value>)
    ensures
        row.deep_view() == row_of_style(style@),
{
    let mut row: Vec<Value> = Vec::new();
    row.push(Value::Text(style.get_name().clone()));
    row.push(Value::Real(*style.get_abv_low()));
    row.push(Value::Real(*style.get_abv_high()));
    row.push(Value::Integer(*style.get_ibu_low() as i64));
    row.push(Value::Integer(*style.get_ibu_high() as i64));
    row.push(Value::Real(*style.get_srm_low()));
    row.push(Value::Real(*style.get_srm_high()));
    row.push(Value::Real(*style.get_original_gravity_low()));
    row.push(Value::Real(*style.get_original_gravity_high()));
    row.push(Value::Real(*style.get_final_gravity_low()));
    row.push(Value::Real(*style.get_final_gravity_high()));
    assert(row.deep_view() =~= row_of_style(style@));
    row
}

/// No two of the eleven columns of a style have the same name, so each name
/// first stands at its own place.
pub proof fn lemma_style_columns_differ()
    ensures
        style_columns().index_of_first(NAME@) == Some(0int),
        style_columns().index_of_first(ABV_LOW@) == Some(1int),
        style_columns().index_of_first(ABV_HIGH@) == Some(2int),
        style_columns().index_of_first(IBU_LOW@) == Some(3int),
        style_columns().index_of_first(IBU_HIGH@) == Some(4int),
        style_columns().index_of_first(SRM_LOW@) == Some(5int),
        style_columns().index_of_first(SRM_HIGH@) == Some(6int),
        style_columns().index_of_first(ORIGINAL_GRAVITY_LOW@) == Some(7int),
        style_columns().index_of_first(ORIGINAL_GRAVITY_HIGH@) == Some(8int),
        style_columns().index_of_first(FINAL_GRAVITY_LOW@) == Some(9int),
        style_columns().index_of_first(FINAL_GRAVITY_HIGH@) == Some(10int),
{
    reveal_strlit("s.name");
    reveal_strlit("s.abvLow");
    reveal_strlit("s.abvHigh");
    reveal_strlit("s.ibuLow");
    reveal_strlit("s.ibuHigh");
    reveal_strlit("s.srmLow");
    reveal_strlit("s.srmHigh");
    reveal_strlit("s.originalGravityLow");
    reveal_strlit("s.originalGravityHigh");
    reveal_strlit("s.finalGravityLow");
    reveal_strlit("s.finalGravityHigh");
    let columns = style_columns();
    // Each name is told from the others by its length or by one character.
    assert(NAME@.len() == 6 && ABV_LOW@.len() == 8 && ABV_HIGH@.len() == 9);
    assert(IBU_LOW@.len() == 8 && IBU_HIGH@.len() == 9);
    assert(SRM_LOW@.len() == 8 && SRM_HIGH@.len() == 9);
    assert(ORIGINAL_GRAVITY_LOW@.len() == 20 && ORIGINAL_GRAVITY_HIGH@.len() == 21);
    assert(FINAL_GRAVITY_LOW@.len() == 17 && FINAL_GRAVITY_HIGH@.len() == 18);
    assert(ABV_LOW@[2] == 'a' && IBU_LOW@[2] == 'i' && SRM_LOW@[2] == 's');
    assert(ABV_HIGH@[2] == 'a' && IBU_HIGH@[2] == 'i' && SRM_HIGH@[2] == 's');
    lemma_first_at(columns, NAME@, 0);
    lemma_first_at(columns, ABV_LOW@, 1);
    lemma_first_at(columns, ABV_HIGH@, 2);
    lemma_first_at(columns, IBU_LOW@, 3);
    lemma_first_at(columns, IBU_HIGH@, 4);
    lemma_first_at(columns, SRM_LOW@, 5);
    lemma_first_at(columns, SRM_HIGH@, 6);
    lemma_first_at(columns, ORIGINAL_GRAVITY_LOW@, 7);
    lemma_first_at(columns, ORIGINAL_GRAVITY_HIGH@, 8);
    lemma_first_at(columns, FINAL_GRAVITY_LOW@, 9);
    lemma_first_at(columns, FINAL_GRAVITY_HIGH@, 10);
}

/// A style written into a row and read from it again is the style it was: no
/// attribute changes on the way, the whole numbers stay whole numbers and the
/// others keep every digit.
pub proof fn lemma_row_round_trip(style: StyleView)
    requires
        style.valid(),
    ensures
        style_of_row(style_columns(), row_of_style(style)) == Some(style),
{
    lemma_style_columns_differ();
}

/// The one style that a reply stands for: that of its last row.
///
/// Fails with `NotFound` where the reply has no row, and with `MalformedRow`
/// where any of its rows holds no style.
pub fn build_style_from_result(result: &QueryResult) -> (r: Result<Style, RepositoryError>)
    ensures
        match r {
            Ok(style) => style_of_result(result@) == Ok::<StyleView, RepositoryErrorView>(style@),
            Err(error) => style_of_result(result@) == Err::<StyleView, RepositoryErrorView>(
                error@,
            ),
        },
{
    let mut last: Option<Style> = None;
    let mut i: usize = 0;
    while i < result.rows.len()
        invariant
            i <= result.rows@.len(),
            forall|j: int|
                0 <= j < i ==> style_of_row(result@.columns, #[trigger] result@.rows[j]) is Some,
            i == 0 ==> last is None,
            i > 0 ==> (last matches Some(style) && style_of_row(
                result@.columns,
                result@.rows[i - 1],
            ) == Some(style@)),
        decreases result.rows@.len() - i,
    {
        match style_from_row(&result.columns, &result.rows[i]) {
            Some(style) => {
                last = Some(style);
            },
            None => {
                assert(style_of_row(result@.columns, result@.rows[i as int]) is None);
                return Err(RepositoryError::MalformedRow);
            },
        }
        i += 1;
    }
    match last {
        Some(style) => Ok(style),
        None => Err(RepositoryError::NotFound),
    }
}

} // verus!

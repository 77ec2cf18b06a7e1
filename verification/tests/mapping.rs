use beer_styles::decimal::Decimal;
use beer_styles::error::RepositoryError;
use beer_styles::mapping::{
    build_style_from_result, columns_of_style, count_from_row, row_from_style, style_from_row,
};
use beer_styles::repository::{
    create_beer_style, delete_beer_style, get_beer_style, update_beer_style,
};
use beer_styles::style::Style;
use beer_styles::value::{find_cell, find_column, integer_of, number_of, text_of, QueryResult, Value};

fn decimal(text: &str) -> Decimal {
    Decimal::parse(text).unwrap()
}

fn porter() -> Style {
    Style::new(
        String::from("Porter"),
        decimal("4.8"),
        decimal("6.5"),
        18,
        35,
        decimal("20"),
        decimal("30"),
        decimal("1.04"),
        decimal("1.052"),
        decimal("1.008"),
        decimal("1.014"),
    )
}

fn stout() -> Style {
    Style::new(
        String::from("Porter"),
        decimal("5.5"),
        decimal("8"),
        25,
        50,
        decimal("30"),
        decimal("40"),
        decimal("1.05"),
        decimal("1.075"),
        decimal("1.01"),
        decimal("1.022"),
    )
}

fn result_of(rows: Vec<Vec<Value>>) -> QueryResult {
    QueryResult { columns: columns_of_style(), rows }
}

fn count_result(rows: Vec<Vec<Value>>) -> QueryResult {
    QueryResult { columns: vec![String::from("count(s)")], rows }
}

#[test]
fn a_style_has_its_eleven_attributes() {
    let style = porter();
    assert_eq!(style.get_name(), "Porter");
    assert_eq!(*style.get_abv_low(), decimal("4.8"));
    assert_eq!(*style.get_abv_high(), decimal("6.5"));
    assert_eq!(*style.get_ibu_low(), 18);
    assert_eq!(*style.get_ibu_high(), 35);
    assert_eq!(*style.get_srm_low(), decimal("20"));
    assert_eq!(*style.get_srm_high(), decimal("30"));
    assert_eq!(*style.get_original_gravity_low(), decimal("1.04"));
    assert_eq!(*style.get_original_gravity_high(), decimal("1.052"));
    assert_eq!(*style.get_final_gravity_low(), decimal("1.008"));
    assert_eq!(*style.get_final_gravity_high(), decimal("1.014"));
}

#[test]
fn styles_are_equal_where_all_attributes_are() {
    assert_eq!(porter(), porter());
    assert_eq!(porter(), porter().clone());
    assert_ne!(porter(), stout());
    let rows = row_from_style(&porter());
    for i in 0..11 {
        let mut changed = rows.clone();
        changed[i] = match &rows[i] {
            Value::Text(_) => Value::Text(String::from("porter")),
            Value::Integer(n) => Value::Integer(n + 1),
            Value::Real(_) => Value::Real(decimal("99.5")),
            other => other.clone(),
        };
        let other = style_from_row(&columns_of_style(), &changed).unwrap();
        assert_ne!(other, porter(), "attribute {}", i);
    }
}

#[test]
fn a_range_may_have_its_low_end_above_its_high_end() {
    let style = Style::new(
        String::from("Upside Down"),
        decimal("9"),
        decimal("1"),
        70,
        10,
        decimal("40"),
        decimal("2"),
        decimal("1.1"),
        decimal("1.0"),
        decimal("1.02"),
        decimal("1.0"),
    );
    let row = row_from_style(&style);
    assert_eq!(style_from_row(&columns_of_style(), &row), Some(style));
}

#[test]
fn a_row_holds_the_attributes_in_the_order_of_the_columns() {
    assert_eq!(
        columns_of_style(),
        vec![
            "s.name", "s.abvLow", "s.abvHigh", "s.ibuLow", "s.ibuHigh", "s.srmLow", "s.srmHigh",
            "s.originalGravityLow", "s.originalGravityHigh", "s.finalGravityLow",
            "s.finalGravityHigh",
        ]
    );
    assert_eq!(
        row_from_style(&porter()),
        vec![
            Value::Text(String::from("Porter")),
            Value::Real(decimal("4.8")),
            Value::Real(decimal("6.5")),
            Value::Integer(18),
            Value::Integer(35),
            Value::Real(decimal("20")),
            Value::Real(decimal("30")),
            Value::Real(decimal("1.04")),
            Value::Real(decimal("1.052")),
            Value::Real(decimal("1.008")),
            Value::Real(decimal("1.014")),
        ]
    );
}

#[test]
fn a_row_is_read_back_as_the_style_it_was_written_from() {
    for style in [porter(), stout()] {
        let row = row_from_style(&style);
        assert_eq!(style_from_row(&columns_of_style(), &row), Some(style));
    }
    let extreme = Style::new(
        String::from("it's \\ odd\n"),
        Decimal::from_integer(i64::MAX),
        Decimal::from_integer(i64::MIN),
        i32::MIN,
        i32::MAX,
        decimal("0.0000000001"),
        decimal("-0.5"),
        decimal("0"),
        decimal("1"),
        decimal("2"),
        decimal("3"),
    );
    let row = row_from_style(&extreme);
    assert_eq!(style_from_row(&columns_of_style(), &row), Some(extreme));
}

#[test]
fn columns_are_found_by_name_whatever_their_order() {
    let mut columns = columns_of_style();
    let mut row = row_from_style(&porter());
    columns.reverse();
    row.reverse();
    columns.insert(3, String::from("extra"));
    row.insert(3, Value::Null);
    assert_eq!(style_from_row(&columns, &row), Some(porter()));
    assert_eq!(find_column(&columns, "extra"), Some(3));
    assert_eq!(find_column(&columns, "s.name"), Some(11));
    assert_eq!(find_column(&columns, "s.Name"), None);
}

#[test]
fn the_first_column_of_a_name_counts() {
    let columns = vec![String::from("a"), String::from("b"), String::from("a")];
    let row = vec![Value::Integer(1), Value::Integer(2), Value::Integer(3)];
    assert_eq!(find_column(&columns, "a"), Some(0));
    assert_eq!(find_cell(&columns, &row, "a"), Some(&Value::Integer(1)));
    assert_eq!(find_cell(&columns, &row, "b"), Some(&Value::Integer(2)));
    assert_eq!(find_cell(&columns, &row, "c"), None);
    let short = vec![Value::Integer(1)];
    assert_eq!(find_cell(&columns, &short, "b"), None);
}

#[test]
fn values_are_read_by_the_type_of_the_attribute() {
    let text = Value::Text(String::from("x"));
    let whole = Value::Integer(40);
    let real = Value::Real(decimal("7.5"));
    assert_eq!(text_of(Some(&text)), Some(String::from("x")));
    assert_eq!(text_of(Some(&whole)), None);
    assert_eq!(text_of(Some(&Value::Null)), None);
    assert_eq!(text_of(None), None);

    assert_eq!(integer_of(Some(&whole)), Some(40));
    assert_eq!(integer_of(Some(&Value::Integer(2147483647))), Some(i32::MAX));
    assert_eq!(integer_of(Some(&Value::Integer(-2147483648))), Some(i32::MIN));
    assert_eq!(integer_of(Some(&Value::Integer(2147483648))), None);
    assert_eq!(integer_of(Some(&Value::Integer(-2147483649))), None);
    assert_eq!(integer_of(Some(&Value::Real(decimal("40")))), None);
    assert_eq!(integer_of(Some(&text)), None);
    assert_eq!(integer_of(None), None);

    assert_eq!(number_of(Some(&real)), Some(decimal("7.5")));
    assert_eq!(number_of(Some(&whole)), Some(decimal("40")));
    assert_eq!(number_of(Some(&Value::Integer(i64::MIN))), Some(Decimal::from_integer(i64::MIN)));
    assert_eq!(number_of(Some(&Value::Boolean(true))), None);
    assert_eq!(number_of(Some(&Value::Other)), None);
    assert_eq!(number_of(Some(&text)), None);
    assert_eq!(number_of(None), None);
}

#[test]
fn whole_numbers_are_taken_for_numeric_attributes() {
    let mut row = row_from_style(&porter());
    row[5] = Value::Integer(20);
    row[6] = Value::Integer(30);
    assert_eq!(style_from_row(&columns_of_style(), &row), Some(porter()));
}

#[test]
fn no_rows_mean_not_found() {
    assert_eq!(build_style_from_result(&result_of(vec![])), Err(RepositoryError::NotFound));
    let no_columns = QueryResult { columns: vec![], rows: vec![] };
    assert_eq!(build_style_from_result(&no_columns), Err(RepositoryError::NotFound));
}

#[test]
fn the_last_row_counts() {
    let rows = vec![row_from_style(&porter()), row_from_style(&stout())];
    assert_eq!(build_style_from_result(&result_of(rows)), Ok(stout()));
    let rows = vec![row_from_style(&stout()), row_from_style(&porter())];
    assert_eq!(build_style_from_result(&result_of(rows)), Ok(porter()));
    let rows = vec![row_from_style(&porter())];
    assert_eq!(build_style_from_result(&result_of(rows)), Ok(porter()));
}

#[test]
fn a_row_that_is_no_style_spoils_the_reply() {
    for i in 0..11 {
        let mut row = row_from_style(&porter());
        row[i] = Value::Null;
        assert_eq!(
            build_style_from_result(&result_of(vec![row.clone()])),
            Err(RepositoryError::MalformedRow),
            "attribute {}",
            i
        );
        assert_eq!(
            build_style_from_result(&result_of(vec![row.clone(), row_from_style(&porter())])),
            Err(RepositoryError::MalformedRow)
        );
        assert_eq!(
            build_style_from_result(&result_of(vec![row_from_style(&porter()), row])),
            Err(RepositoryError::MalformedRow)
        );
    }
}

#[test]
fn a_value_of_the_wrong_type_spoils_the_row() {
    let columns = columns_of_style();
    let good = row_from_style(&porter());

    let mut row = good.clone();
    row[0] = Value::Integer(1);
    assert_eq!(style_from_row(&columns, &row), None);

    let mut row = good.clone();
    row[3] = Value::Real(decimal("18"));
    assert_eq!(style_from_row(&columns, &row), None);

    let mut row = good.clone();
    row[4] = Value::Integer(2147483648);
    assert_eq!(style_from_row(&columns, &row), None);

    let mut row = good.clone();
    row[1] = Value::Text(String::from("4.8"));
    assert_eq!(style_from_row(&columns, &row), None);

    let mut row = good.clone();
    row[10] = Value::Other;
    assert_eq!(style_from_row(&columns, &row), None);

    let mut row = good.clone();
    row[7] = Value::Boolean(false);
    assert_eq!(style_from_row(&columns, &row), None);
}

#[test]
fn a_missing_column_or_a_short_row_spoils_the_row() {
    let good = row_from_style(&porter());
    for i in 0..11 {
        let mut columns = columns_of_style();
        columns[i] = String::from("other");
        assert_eq!(style_from_row(&columns, &good), None, "column {}", i);
    }
    let mut short = good.clone();
    short.pop();
    assert_eq!(style_from_row(&columns_of_style(), &short), None);
    assert_eq!(style_from_row(&columns_of_style(), &vec![]), None);
    assert_eq!(style_from_row(&vec![], &good), None);
}

#[test]
fn a_failed_statement_fails_every_operation() {
    let cause = || Err(String::from("connection refused"));
    let error = RepositoryError::Execution(String::from("connection refused"));
    assert_eq!(create_beer_style(&porter(), cause()), Err(error.clone()));
    assert_eq!(get_beer_style(cause()), Err(error.clone()));
    assert_eq!(update_beer_style(cause()), Err(error.clone()));
    assert_eq!(delete_beer_style(cause()), Err(error));
}

#[test]
fn create_returns_the_name_whatever_rows_came_back() {
    assert_eq!(create_beer_style(&porter(), Ok(result_of(vec![]))), Ok(String::from("Porter")));
    let node = QueryResult { columns: vec![String::from("s")], rows: vec![vec![Value::Other]] };
    assert_eq!(create_beer_style(&porter(), Ok(node)), Ok(String::from("Porter")));
}

#[test]
fn get_and_update_return_the_style_of_the_reply() {
    let rows = vec![row_from_style(&porter()), row_from_style(&stout())];
    assert_eq!(get_beer_style(Ok(result_of(rows.clone()))), Ok(stout()));
    assert_eq!(update_beer_style(Ok(result_of(rows))), Ok(stout()));
    assert_eq!(get_beer_style(Ok(result_of(vec![]))), Err(RepositoryError::NotFound));
    assert_eq!(update_beer_style(Ok(result_of(vec![]))), Err(RepositoryError::NotFound));
    let bad = vec![vec![Value::Null]];
    assert_eq!(get_beer_style(Ok(result_of(bad.clone()))), Err(RepositoryError::MalformedRow));
    assert_eq!(update_beer_style(Ok(result_of(bad))), Err(RepositoryError::MalformedRow));
}

#[test]
fn delete_reports_a_count_above_zero() {
    assert_eq!(delete_beer_style(Ok(count_result(vec![vec![Value::Integer(0)]]))), Ok(false));
    assert_eq!(delete_beer_style(Ok(count_result(vec![vec![Value::Integer(1)]]))), Ok(true));
    assert_eq!(delete_beer_style(Ok(count_result(vec![vec![Value::Integer(3)]]))), Ok(true));
    assert_eq!(delete_beer_style(Ok(count_result(vec![vec![Value::Integer(-1)]]))), Ok(false));
    assert_eq!(
        delete_beer_style(Ok(count_result(vec![vec![Value::Integer(i64::MAX)]]))),
        Ok(true)
    );
    assert_eq!(delete_beer_style(Ok(count_result(vec![]))), Ok(false));
}

#[test]
fn delete_goes_by_the_last_row() {
    let rows = vec![vec![Value::Integer(2)], vec![Value::Integer(0)]];
    assert_eq!(delete_beer_style(Ok(count_result(rows))), Ok(false));
    let rows = vec![vec![Value::Integer(0)], vec![Value::Integer(2)]];
    assert_eq!(delete_beer_style(Ok(count_result(rows))), Ok(true));
}

#[test]
fn delete_fails_on_a_row_without_a_count() {
    for bad in [
        vec![Value::Null],
        vec![Value::Text(String::from("1"))],
        vec![Value::Real(Decimal::from_integer(1))],
        vec![],
    ] {
        assert_eq!(
            delete_beer_style(Ok(count_result(vec![bad.clone()]))),
            Err(RepositoryError::MalformedRow)
        );
        assert_eq!(
            delete_beer_style(Ok(count_result(vec![bad, vec![Value::Integer(1)]]))),
            Err(RepositoryError::MalformedRow)
        );
    }
    let other = QueryResult { columns: vec![String::from("count")], rows: vec![vec![Value::Integer(1)]] };
    assert_eq!(delete_beer_style(Ok(other)), Err(RepositoryError::MalformedRow));
    assert_eq!(count_from_row(&vec![String::from("count(s)")], &vec![Value::Integer(7)]), Some(7));
}

use beer_styles::decimal::Decimal;
use beer_styles::error::RepositoryError;
use beer_styles::graph::Graph;
use beer_styles::repository::{
    create_beer_style, delete_beer_style, get_beer_style, update_beer_style,
};
use beer_styles::statement::Statement;
use beer_styles::style::Style;

fn decimal(value: f64) -> Decimal {
    Decimal::parse(&format!("{}", value)).unwrap()
}

fn create(graph: &mut Graph, style: &Style) -> Result<String, RepositoryError> {
    let reply = graph.execute(&Statement::Create(style.clone()));
    create_beer_style(style, Ok(reply))
}

fn get(graph: &mut Graph, name: &String) -> Result<Style, RepositoryError> {
    let reply = graph.execute(&Statement::Match(name.clone()));
    get_beer_style(Ok(reply))
}

fn update(graph: &mut Graph, style: &Style) -> Result<Style, RepositoryError> {
    let reply = graph.execute(&Statement::Merge(style.clone()));
    update_beer_style(Ok(reply))
}

fn delete(graph: &mut Graph, name: &String) -> Result<bool, RepositoryError> {
    let reply = graph.execute(&Statement::Delete(name.clone()));
    delete_beer_style(Ok(reply))
}

#[test]
fn get_style_successful_test() {
    let mut graph = Graph::new();
    let name = String::from("Test Style For Get");
    let abv_low = 6.0;
    let abv_high = 7.6;
    let ibu_low = 15;
    let ibu_high = 25;

    let srm_low = 10.0;
    let srm_high = 17.0;
    let original_gravity_low = 1.062;
    let original_gravity_high = 1.075;
    let final_gravity_low = 1.008;
    let final_gravity_high = 1.018;

    let style = Style::new(name, decimal(abv_low), decimal(abv_high), ibu_low,
                           ibu_high, decimal(srm_low), decimal(srm_high), decimal(original_gravity_low),
                           decimal(original_gravity_high), decimal(final_gravity_low), decimal(final_gravity_high));

    let _ = create(&mut graph, &style);

    match get(&mut graph, style.get_name()) {
        Ok(actual) => {
            let expected = style;

            let _ = delete(&mut graph, actual.get_name());

            assert_eq!(actual, expected)
        }
        Err(err) => panic!("Error: something bad happened with get: {0}", err.message())
    }

}

#[test]
fn create_style_successful_test() {
    let mut graph = Graph::new();
    let name = String::from("Test Style For Create");
    let abv_low = 4.4;
    let abv_high = 5.8;
    let ibu_low = 20;
    let ibu_high = 35;
    let srm_low = 10.0;
    let srm_high = 16.0;
    let original_gravity_low = 1.044;
    let original_gravity_high = 1.060;
    let final_gravity_low = 1.013;
    let final_gravity_high = 1.017;

    let style = Style::new(name, decimal(abv_low), decimal(abv_high), ibu_low, ibu_high, decimal(srm_low), decimal(srm_high), decimal(original_gravity_low), decimal(original_gravity_high), decimal(final_gravity_low), decimal(final_gravity_high));

    match create(&mut graph, &style) {
        Ok(actual) => {
            let expected = style.get_name().clone();

            let _ = delete(&mut graph, &actual);

            assert_eq!(actual, expected);
        }
        Err(err) => panic!("Error: something bad happened with create: {0}", err.message())
    }
}

#[test]
fn update_style_successful_test() {
    let mut graph = Graph::new();

    let name = String::from("Test Style For Update");
    let abv_low = 0.0;
    let abv_high = 0.0;
    let ibu_low = 0;
    let ibu_high = 0;
    let srm_low = 0.0;
    let srm_high = 0.0;
    let original_gravity_low = 0.0;
    let original_gravity_high = 0.0;
    let final_gravity_low = 0.0;
    let final_gravity_high = 0.0;

    let original_style = Style::new(name, decimal(abv_low), decimal(abv_high), ibu_low, ibu_high, decimal(srm_low), decimal(srm_high), decimal(original_gravity_low), decimal(original_gravity_high), decimal(final_gravity_low), decimal(final_gravity_high));

    let _ = create(&mut graph, &original_style);


    let name = String::from("Test Style For Update");
    let abv_low = 4.2;
    let abv_high = 5.8;
    let ibu_low = 30;
    let ibu_high = 45;
    let srm_low = 3.5;
    let srm_high = 6.0;
    let original_gravity_low = 1.044;
    let original_gravity_high = 1.060;
    let final_gravity_low = 1.013;
    let final_gravity_high = 1.017;
    let edited_style = Style::new(name, decimal(abv_low), decimal(abv_high), ibu_low, ibu_high, decimal(srm_low), decimal(srm_high), decimal(original_gravity_low), decimal(original_gravity_high), decimal(final_gravity_low), decimal(final_gravity_high));

    match update(&mut graph, &edited_style) {
        Ok(updated_style) => {
            let _ = delete(&mut graph, updated_style.get_name());
            assert_ne!(updated_style, original_style);
        }
        Err(err) => panic!("Error: something bad happened with update: {0}", err.message())
    }
}

#[test]
fn delete_style_not_found_successful_test() {
    let mut graph = Graph::new();
    let name = String::from("Test Style That Does Not Exist!");
    match delete(&mut graph, &name) {
        Ok(actual) => {
            let expected = false;
            assert_eq!(actual, expected)
        }
        Err(err) => panic!("Error: something bad happened with delete: {0}", err.message())
    }
}

#[test]
fn delete_style_successful_test() {
    let mut graph = Graph::new();
    let name = String::from("Test Style That Does Exist");
    let abv_low = 4.2;
    let abv_high = 5.8;
    let ibu_low = 30;
    let ibu_high = 45;
    let srm_low = 3.5;
    let srm_high = 6.0;
    let original_gravity_low = 1.044;
    let original_gravity_high = 1.060;
    let final_gravity_low = 1.013;
    let final_gravity_high = 1.017;
    let style = Style::new(name, decimal(abv_low), decimal(abv_high), ibu_low, ibu_high, decimal(srm_low), decimal(srm_high), decimal(original_gravity_low), decimal(original_gravity_high), decimal(final_gravity_low), decimal(final_gravity_high));

    let _ = create(&mut graph, &style);

    match delete(&mut graph, style.get_name()) {
        Ok(actual) => {
            let expected = true;
            assert_eq!(actual, expected)
        }
        Err(err) => panic!("Error: something bad happened with delete: {0}", err.message())
    }
}

fn ipa() -> Style {
    Style::new(String::from("Test IPA"), decimal(6.0), decimal(7.5), 40, 70, decimal(6.0),
               decimal(9.0), decimal(1.056), decimal(1.075), decimal(1.008), decimal(1.018))
}

fn strong_ipa() -> Style {
    Style::new(String::from("Test IPA"), decimal(7.5), decimal(10.0), 60, 120, decimal(8.0),
               decimal(15.0), decimal(1.07), decimal(1.09), decimal(1.01), decimal(1.02))
}

fn lager() -> Style {
    Style::new(String::from("Test Lager"), decimal(4.2), decimal(5.3), 8, 18, decimal(2.0),
               decimal(4.0), decimal(1.04), decimal(1.05), decimal(1.004), decimal(1.01))
}

#[test]
fn style_is_created_read_and_deleted() {
    let mut graph = Graph::new();
    let style = ipa();
    assert_eq!(create(&mut graph, &style), Ok(String::from("Test IPA")));
    let read = get(&mut graph, &String::from("Test IPA")).unwrap();
    assert_eq!(read, style);
    assert_eq!(read.get_name(), "Test IPA");
    assert_eq!(read.get_abv_low().text(), "6.0");
    assert_eq!(read.get_abv_high().text(), "7.5");
    assert_eq!(*read.get_ibu_low(), 40);
    assert_eq!(*read.get_ibu_high(), 70);
    assert_eq!(read.get_srm_low().text(), "6.0");
    assert_eq!(read.get_srm_high().text(), "9.0");
    assert_eq!(read.get_original_gravity_low().text(), "1.056");
    assert_eq!(read.get_original_gravity_high().text(), "1.075");
    assert_eq!(read.get_final_gravity_low().text(), "1.008");
    assert_eq!(read.get_final_gravity_high().text(), "1.018");
    assert_eq!(delete(&mut graph, &String::from("Test IPA")), Ok(true));
    assert_eq!(get(&mut graph, &String::from("Test IPA")), Err(RepositoryError::NotFound));
}

#[test]
fn read_yields_what_was_created() {
    let mut graph = Graph::new();
    for style in [lager(), ipa()] {
        let name = create(&mut graph, &style).unwrap();
        assert_eq!(get(&mut graph, &name), Ok(style));
    }
    assert_eq!(get(&mut graph, &String::from("Test Lager")), Ok(lager()));
    assert_eq!(graph.len(), 2);
}

#[test]
fn read_of_an_unknown_name_is_not_found() {
    let mut graph = Graph::new();
    assert_eq!(get(&mut graph, &String::from("Test IPA")), Err(RepositoryError::NotFound));
    let _ = create(&mut graph, &lager());
    assert_eq!(get(&mut graph, &String::from("Test IPA")), Err(RepositoryError::NotFound));
    assert_eq!(get(&mut graph, &String::from("test lager")), Err(RepositoryError::NotFound));
}

#[test]
fn create_twice_keeps_two_records() {
    let mut graph = Graph::new();
    assert_eq!(create(&mut graph, &ipa()), Ok(String::from("Test IPA")));
    assert_eq!(create(&mut graph, &ipa()), Ok(String::from("Test IPA")));
    assert_eq!(graph.len(), 2);
}

#[test]
fn read_of_a_name_held_twice_yields_the_later_record() {
    let mut graph = Graph::new();
    let _ = create(&mut graph, &ipa());
    let _ = create(&mut graph, &lager());
    let _ = create(&mut graph, &strong_ipa());
    for _ in 0..3 {
        assert_eq!(get(&mut graph, &String::from("Test IPA")), Ok(strong_ipa()));
    }

    let mut other = Graph::new();
    let _ = create(&mut other, &strong_ipa());
    let _ = create(&mut other, &ipa());
    assert_eq!(get(&mut other, &String::from("Test IPA")), Ok(ipa()));
}

#[test]
fn update_of_an_unknown_name_creates_the_record() {
    let mut graph = Graph::new();
    let _ = create(&mut graph, &lager());
    assert_eq!(update(&mut graph, &ipa()), Ok(ipa()));
    assert_eq!(graph.len(), 2);
    assert_eq!(get(&mut graph, &String::from("Test IPA")), Ok(ipa()));
    assert_eq!(get(&mut graph, &String::from("Test Lager")), Ok(lager()));
}

#[test]
fn update_of_a_known_name_changes_the_record() {
    let mut graph = Graph::new();
    let _ = create(&mut graph, &ipa());
    let _ = create(&mut graph, &lager());
    assert_eq!(update(&mut graph, &strong_ipa()), Ok(strong_ipa()));
    assert_eq!(graph.len(), 2);
    assert_eq!(get(&mut graph, &String::from("Test IPA")), Ok(strong_ipa()));
    assert_eq!(get(&mut graph, &String::from("Test Lager")), Ok(lager()));
    assert_eq!(update(&mut graph, &strong_ipa()), Ok(strong_ipa()));
    assert_eq!(graph.len(), 2);
}

#[test]
fn update_changes_every_record_of_the_name() {
    let mut graph = Graph::new();
    let _ = create(&mut graph, &ipa());
    let _ = create(&mut graph, &ipa());
    assert_eq!(update(&mut graph, &strong_ipa()), Ok(strong_ipa()));
    assert_eq!(graph.len(), 2);
    let reply = graph.execute(&Statement::Match(String::from("Test IPA")));
    assert_eq!(reply.rows.len(), 2);
    assert_eq!(reply.rows[0], reply.rows[1]);
    assert_eq!(get_beer_style(Ok(reply)), Ok(strong_ipa()));
}

#[test]
fn delete_takes_every_record_of_the_name() {
    let mut graph = Graph::new();
    let _ = create(&mut graph, &ipa());
    let _ = create(&mut graph, &lager());
    let _ = create(&mut graph, &strong_ipa());
    assert_eq!(delete(&mut graph, &String::from("Test IPA")), Ok(true));
    assert_eq!(graph.len(), 1);
    assert_eq!(get(&mut graph, &String::from("Test IPA")), Err(RepositoryError::NotFound));
    assert_eq!(get(&mut graph, &String::from("Test Lager")), Ok(lager()));
    assert_eq!(delete(&mut graph, &String::from("Test IPA")), Ok(false));
    assert_eq!(graph.len(), 1);
}

#[test]
fn the_graph_answers_with_named_columns() {
    let mut graph = Graph::new();
    let created = graph.execute(&Statement::Create(ipa()));
    assert_eq!(created.columns, vec!["s"]);
    assert_eq!(created.rows.len(), 1);
    let _ = graph.execute(&Statement::Create(strong_ipa()));
    let deleted = graph.execute(&Statement::Delete(String::from("Test IPA")));
    assert_eq!(deleted.columns, vec!["count(s)"]);
    assert_eq!(deleted.rows, vec![vec![beer_styles::value::Value::Integer(2)]]);
    let read = graph.execute(&Statement::Match(String::from("Test IPA")));
    assert_eq!(read.columns.len(), 11);
    assert_eq!(read.rows.len(), 0);
}

#[test]
fn names_with_quotes_are_kept_as_they_are() {
    let mut graph = Graph::new();
    let style = Style::new(String::from("Brewer's \\ \"Best\"\n"), decimal(5.0), decimal(6.0), 1, 2,
                           decimal(3.0), decimal(4.0), decimal(1.0), decimal(1.1), decimal(1.0), decimal(1.01));
    assert_eq!(create(&mut graph, &style), Ok(String::from("Brewer's \\ \"Best\"\n")));
    assert_eq!(get(&mut graph, style.get_name()), Ok(style.clone()));
    assert_eq!(delete(&mut graph, style.get_name()), Ok(true));
}

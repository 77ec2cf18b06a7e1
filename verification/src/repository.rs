//! The four operations of the repository.
//!
//! Each operation is one round trip: a [`Statement`](crate::statement::Statement)
//! goes to the store, and a reply comes back. Sending is left to the caller.
//! The functions here take the reply and say what the operation returns for
//! it, so that the same rules hold whichever store has answered.

use crate::error::{RepositoryError, RepositoryErrorView};
use crate::graph::{
    as_row, count_in_row, graph_after, graph_reply, lemma_graph_stays_valid, named, not_named,
    records_of, valid_graph,
};
use crate::mapping::{
    build_style_from_result, count_from_row, count_of_row, lemma_row_round_trip, style_columns,
    style_of_result, style_of_row, COUNT,
};
use crate::sequences::{lemma_filter_asks, lemma_filter_keeps, lemma_first_at};
use crate::statement::StatementView;
use crate::style::{Style, StyleView};
use crate::value::{QueryResult, QueryResultView};
use vstd::prelude::*;

verus! {

/// What came back for a statement, as a mathematical value: the rows, or the
/// reason why the statement was not run.
pub open spec fn reply_view(reply: Result<QueryResult, String>) -> Result<
    QueryResultView,
    Seq<char>,
> {
    match reply {
        Ok(result) => Ok(result@),
        Err(cause) => Err(cause@),
    }
}

/// What an operation returns, as a mathematical value.
pub open spec fn outcome_view<T: View>(outcome: Result<T, RepositoryError>) -> Result<
    T::V,
    RepositoryErrorView,
> {
    match outcome {
        Ok(value) => Ok(value@),
        Err(error) => Err(error@),
    }
}

/// What creating `style` returns for a reply: the name of the style where the
/// statement was run, whatever rows came back.
pub open spec fn create_outcome(style: StyleView, reply: Result<QueryResultView, Seq<char>>)
    -> Result<Seq<char>, RepositoryErrorView> {
    match reply {
        Ok(_) => Ok(style.name),
        Err(cause) => Err(RepositoryErrorView::Execution(cause)),
    }
}

/// What reading or updating a style returns for a reply: the style that the
/// rows stand for.
pub open spec fn style_outcome(reply: Result<QueryResultView, Seq<char>>) -> Result<
    StyleView,
    RepositoryErrorView,
> {
    match reply {
        Ok(result) => style_of_result(result),
        Err(cause) => Err(RepositoryErrorView::Execution(cause)),
    }
}

/// Whether the rows of a reply report that a record was deleted.
///
/// A reply in which any row holds no count is malformed as a whole. Of
/// several rows the last one counts, and a reply without rows reports that
/// nothing was deleted.
pub open spec fn deleted_of_result(result: QueryResultView) -> Result<bool, RepositoryErrorView> {
    if exists|i: int|
        0 <= i < result.rows.len() && count_of_row(result.columns, #[trigger] result.rows[i])
            is None {
        Err(RepositoryErrorView::MalformedRow)
    } else if result.rows.len() == 0 {
        Ok(false)
    } else {
        Ok(count_of_row(result.columns, result.rows.last())->0 > 0)
    }
}

/// What deleting returns for a reply: whether any record was deleted.
pub open spec fn delete_outcome(reply: Result<QueryResultView, Seq<char>>) -> Result<
    bool,
    RepositoryErrorView,
> {
    match reply {
        Ok(result) => deleted_of_result(result),
        Err(cause) => Err(RepositoryErrorView::Execution(cause)),
    }
}

/// Ends the creation of `style`, for which a `Create` statement was sent:
/// returns the name of the style, or the reason why the statement was not run.
pub fn create_beer_style(style: &Style, reply: Result<QueryResult, String>) -> (outcome: Result<
    String,
    RepositoryError,
>)
    ensures
        outcome_view(outcome) == create_outcome(style@, reply_view(reply)),
{
    match reply {
        Ok(_) => Ok(style.get_name().clone()),
        Err(cause) => Err(RepositoryError::Execution(cause)),
    }
}

/// Ends the reading of a style, for which a `Match` statement was sent:
/// returns the style of the last row.
///
/// Fails with `NotFound` where no row came back, with `MalformedRow` where a
/// row holds no style, and with `Execution` where the statement was not run.
pub fn get_beer_style(reply: Result<QueryResult, String>) -> (outcome: Result<
    Style,
    RepositoryError,
>)
    ensures
        outcome_view(outcome) == style_outcome(reply_view(reply)),
{
    match reply {
        Ok(result) => build_style_from_result(&result),
        Err(cause) => Err(RepositoryError::Execution(cause)),
    }
}

/// Ends the update of a style, for which a `Merge` statement was sent:
/// returns the style as the store holds it now.
///
/// Fails as [`get_beer_style`] does.
pub fn update_beer_style(reply: Result<QueryResult, String>) -> (outcome: Result<
    Style,
    RepositoryError,
>)
    ensures
        outcome_view(outcome) == style_outcome(reply_view(reply)),
{
    match reply {
        Ok(result) => build_style_from_result(&result),
        Err(cause) => Err(RepositoryError::Execution(cause)),
    }
}

/// Ends the deletion of the records of a name, for which a `Delete`
/// statement was sent: returns whether the store reports a count above zero.
///
/// That no record was there is no error. Fails with `MalformedRow` where a row
/// holds no count, and with `Execution` where the statement was not run.
pub fn delete_beer_style(reply: Result<QueryResult, String>) -> (outcome: Result<
    bool,
    RepositoryError,
>)
    ensures
        outcome_view(outcome) == delete_outcome(reply_view(reply)),
{
    let result = match reply {
        Ok(result) => result,
        Err(cause) => {
            return Err(RepositoryError::Execution(cause));
        },
    };
    let mut query_result: bool = false;
    let mut i: usize = 0;
    while i < result.rows.len()
        invariant
            reply == Ok::<QueryResult, String>(result),
            i <= result.rows@.len(),
            forall|j: int|
                0 <= j < i ==> count_of_row(result@.columns, #[trigger] result@.rows[j]) is Some,
            i == 0 ==> !query_result,
            i > 0 ==> query_result == (count_of_row(result@.columns, result@.rows[i - 1])->0 > 0),
        decreases result.rows@.len() - i,
    {
        match count_from_row(&result.columns, &result.rows[i]) {
            Some(count) => {
                query_result = count > 0;
            },
            None => {
                assert(count_of_row(result@.columns, result@.rows[i as int]) is None);
                return Err(RepositoryError::MalformedRow);
            },
        }
        i += 1;
    }
    Ok(query_result)
}

/// The rows of valid records stand for the last of them, and for none where
/// there is no record.
proof fn lemma_rows_of_records(records: Seq<StyleView>)
    requires
        valid_graph(records),
    ensures
        style_of_result(
            QueryResultView { columns: style_columns(), rows: records.map_values(as_row()) },
        ) == if records.len() == 0 {
            Err::<StyleView, RepositoryErrorView>(RepositoryErrorView::NotFound)
        } else {
            Ok::<StyleView, RepositoryErrorView>(records.last())
        },
{
    let rows = records.map_values(as_row());
    assert forall|i: int| 0 <= i < rows.len() implies style_of_row(
        style_columns(),
        #[trigger] rows[i],
    ) == Some(records[i]) by {
        lemma_row_round_trip(records[i]);
    }
    if records.len() > 0 {
        assert(rows.last() == rows[rows.len() - 1]);
    }
}

/// The records of one name in a valid graph are valid.
proof fn lemma_records_valid(graph: Seq<StyleView>, name: Seq<char>)
    requires
        valid_graph(graph),
    ensures
        valid_graph(records_of(graph, name)),
{
    lemma_filter_keeps(graph, named(name), |style: StyleView| style.valid());
}

/// Reading a name yields the last record of that name in the graph, and
/// `NotFound` where the graph holds none: of several records of one name it is
/// always the one that stands last. Reading changes nothing, so reading again
/// yields the same.
pub proof fn lemma_read_takes_last(graph: Seq<StyleView>, name: Seq<char>)
    requires
        valid_graph(graph),
    ensures
        graph_after(graph, StatementView::Match(name)) == graph,
        style_outcome(Ok(graph_reply(graph, StatementView::Match(name)))) == if records_of(
            graph,
            name,
        ).len() == 0 {
            Err::<StyleView, RepositoryErrorView>(RepositoryErrorView::NotFound)
        } else {
            Ok::<StyleView, RepositoryErrorView>(records_of(graph, name).last())
        },
{
    lemma_records_valid(graph, name);
    lemma_rows_of_records(records_of(graph, name));
}

/// Creating a style returns its name, and reading that name afterwards yields
/// the style, equal in all eleven attributes.
pub proof fn lemma_read_after_create(graph: Seq<StyleView>, style: StyleView)
    requires
        valid_graph(graph),
        style.valid(),
    ensures
        create_outcome(style, Ok(graph_reply(graph, StatementView::Create(style)))) == Ok::<
            Seq<char>,
            RepositoryErrorView,
        >(style.name),
        style_outcome(
            Ok(
                graph_reply(
                    graph_after(graph, StatementView::Create(style)),
                    StatementView::Match(style.name),
                ),
            ),
        ) == Ok::<StyleView, RepositoryErrorView>(style),
{
    let after = graph_after(graph, StatementView::Create(style));
    graph.lemma_filter_push(style, named(style.name));
    lemma_read_takes_last(after, style.name);
}

/// Creating two styles of one name, one after the other, and reading the name
/// yields the second.
pub proof fn lemma_read_after_two_creates(
    graph: Seq<StyleView>,
    first: StyleView,
    second: StyleView,
)
    requires
        valid_graph(graph),
        first.valid(),
        second.valid(),
        first.name == second.name,
    ensures
        style_outcome(
            Ok(
                graph_reply(
                    graph_after(
                        graph_after(graph, StatementView::Create(first)),
                        StatementView::Create(second),
                    ),
                    StatementView::Match(second.name),
                ),
            ),
        ) == Ok::<StyleView, RepositoryErrorView>(second),
{
    lemma_read_after_create(graph_after(graph, StatementView::Create(first)), second);
}

/// After a merge the graph holds a record of the style's name, and each
/// record of that name is the style.
proof fn lemma_merged_records(graph: Seq<StyleView>, style: StyleView)
    ensures
        ({
            let records = records_of(
                graph_after(graph, StatementView::Merge(style)),
                style.name,
            );
            &&& records.len() > 0
            &&& forall|i: int| 0 <= i < records.len() ==> #[trigger] records[i] == style
        }),
{
    let after = graph_after(graph, StatementView::Merge(style));
    let records = records_of(after, style.name);
    lemma_filter_asks(graph, named(style.name));
    lemma_filter_asks(after, named(style.name));
    if records_of(graph, style.name).len() == 0 {
        assert(named(style.name)(after[graph.len() as int]));
    } else {
        let i = choose|i: int| 0 <= i < graph.len() && named(style.name)(#[trigger] graph[i]);
        assert(named(style.name)(after[i]));
    }
    lemma_filter_keeps(
        after,
        named(style.name),
        |record: StyleView| record.name == style.name ==> record == style,
    );
}

/// Updating a style returns the style, whether or not a record of its name
/// was there; where none was, the update adds it. Reading the name afterwards
/// yields the style.
pub proof fn lemma_read_after_update(graph: Seq<StyleView>, style: StyleView)
    requires
        valid_graph(graph),
        style.valid(),
    ensures
        records_of(graph, style.name).len() == 0 ==> graph_after(
            graph,
            StatementView::Merge(style),
        ) == graph.push(style),
        style_outcome(Ok(graph_reply(graph, StatementView::Merge(style)))) == Ok::<
            StyleView,
            RepositoryErrorView,
        >(style),
        style_outcome(
            Ok(
                graph_reply(
                    graph_after(graph, StatementView::Merge(style)),
                    StatementView::Match(style.name),
                ),
            ),
        ) == Ok::<StyleView, RepositoryErrorView>(style),
{
    let after = graph_after(graph, StatementView::Merge(style));
    lemma_merged_records(graph, style);
    lemma_graph_stays_valid(graph, StatementView::Merge(style));
    lemma_read_takes_last(after, style.name);
    let records = records_of(after, style.name);
    assert(records.last() == records[records.len() - 1]);
}

/// Deleting a name of which the graph holds no record returns `false`, and
/// deleting one of which it holds any returns `true`. Either way, reading the
/// name afterwards fails with `NotFound`.
pub proof fn lemma_delete_reports(graph: Seq<StyleView>, name: Seq<char>)
    requires
        valid_graph(graph),
    ensures
        delete_outcome(Ok(graph_reply(graph, StatementView::Delete(name)))) == Ok::<
            bool,
            RepositoryErrorView,
        >(records_of(graph, name).len() > 0),
        style_outcome(
            Ok(
                graph_reply(
                    graph_after(graph, StatementView::Delete(name)),
                    StatementView::Match(name),
                ),
            ),
        ) == Err::<StyleView, RepositoryErrorView>(RepositoryErrorView::NotFound),
{
    let reply = graph_reply(graph, StatementView::Delete(name));
    lemma_first_at(reply.columns, COUNT@, 0);
    assert(count_of_row(reply.columns, reply.rows[0]) == Some(
        count_in_row(records_of(graph, name).len()),
    ));
    assert(reply.rows.last() == reply.rows[0]);
    let after = graph_after(graph, StatementView::Delete(name));
    lemma_filter_asks(graph, not_named(name));
    lemma_filter_asks(after, named(name));
    lemma_graph_stays_valid(graph, StatementView::Delete(name));
    lemma_read_takes_last(after, name);
}

} // verus!

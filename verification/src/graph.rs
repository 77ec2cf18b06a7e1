//! A graph of style records in memory.
//!
//! The graph answers the four statements of the repository as the store is
//! expected to. It stands in for the store where none is at hand, and it is
//! what the laws of the repository are stated over.

use crate::sequences::lemma_filter_keeps;
use crate::mapping::{columns_of_style, row_from_style, row_of_style, style_columns, COUNT};
use crate::statement::{Statement, StatementView};
use crate::style::{Style, StyleView};
use crate::value::{QueryResult, QueryResultView, Value, ValueView};
use vstd::prelude::*;

verus! {

/// The records that have the given name.
pub open spec fn named(name: Seq<char>) -> spec_fn(StyleView) -> bool {
    |style: StyleView| style.name == name
}

/// The records that have another name than the given one.
pub open spec fn not_named(name: Seq<char>) -> spec_fn(StyleView) -> bool {
    |style: StyleView| style.name != name
}

/// Puts `style` in the place of each record of its name.
pub open spec fn replacing(style: StyleView) -> spec_fn(StyleView) -> StyleView {
    |record: StyleView|
        if record.name == style.name {
            style
        } else {
            record
        }
}

/// The row of a record.
pub open spec fn as_row() -> spec_fn(StyleView) -> Seq<ValueView> {
    |style: StyleView| row_of_style(style)
}

/// Every record of the graph is a valid style.
pub open spec fn valid_graph(graph: Seq<StyleView>) -> bool {
    forall|i: int| 0 <= i < graph.len() ==> (#[trigger] graph[i]).valid()
}

/// The records of the given name, in the order in which they stand in the
/// graph.
pub open spec fn records_of(graph: Seq<StyleView>, name: Seq<char>) -> Seq<StyleView> {
    graph.filter(named(name))
}

/// The number of records of a name as a row carries it: the number itself, or
/// the largest whole number of a row where it is larger still.
pub open spec fn count_in_row(count: nat) -> int {
    if count <= i64::MAX {
        count as int
    } else {
        i64::MAX as int
    }
}

/// The graph as a statement leaves it.
///
/// A new record goes behind those that are there. A merge changes the records
/// of the style's name where they stand, and adds one only where there is
/// none.
pub open spec fn graph_after(graph: Seq<StyleView>, statement: StatementView) -> Seq<StyleView> {
    match statement {
        StatementView::Create(style) => graph.push(style),
        StatementView::Match(name) => graph,
        StatementView::Merge(style) => if records_of(graph, style.name).len() == 0 {
            graph.push(style)
        } else {
            graph.map_values(replacing(style))
        },
        StatementView::Delete(name) => graph.filter(not_named(name)),
    }
}

/// What the graph answers to a statement.
pub open spec fn graph_reply(graph: Seq<StyleView>, statement: StatementView) -> QueryResultView {
    match statement {
        StatementView::Create(style) => QueryResultView {
            columns: seq!["s"@],
            rows: seq![seq![ValueView::Other]],
        },
        StatementView::Match(name) => QueryResultView {
            columns: style_columns(),
            rows: records_of(graph, name).map_values(as_row()),
        },
        StatementView::Merge(style) => QueryResultView {
            columns: style_columns(),
            rows: records_of(graph_after(graph, statement), style.name).map_values(as_row()),
        },
        StatementView::Delete(name) => QueryResultView {
            columns: seq![COUNT@],
            rows: seq![seq![ValueView::Integer(count_in_row(records_of(graph, name).len()))]],
        },
    }
}

/// A statement leaves a valid graph valid.
pub proof fn lemma_graph_stays_valid(graph: Seq<StyleView>, statement: StatementView)
    requires
        valid_graph(graph),
        match statement {
            StatementView::Create(style) => style.valid(),
            StatementView::Merge(style) => style.valid(),
            _ => true,
        },
    ensures
        valid_graph(graph_after(graph, statement)),
{
    match statement {
        StatementView::Delete(name) => {
            lemma_filter_keeps(graph, not_named(name), |style: StyleView| style.valid());
        },
        _ => {},
    }
}

/// A graph of style records, kept in the order in which they were added.
/// Nothing keeps two records from having the same name.
#[derive(Debug)]
pub struct Graph {
    records: Vec<Style>,
}

impl View for Graph {
    type V = Seq<StyleView>;

    closed spec fn view(&self) -> Seq<StyleView> {
        self.records.deep_view()
    }
}

/// The rows of the records of a name.
fn rows_of(records: &Vec<Style>, name: &String) -> (rows: Vec<Vec<Value>>)
    ensures
        rows.deep_view() == records_of(records.deep_view(), name@).map_values(as_row()),
{
    let ghost all = records.deep_view();
    let mut rows: Vec<Vec<Value>> = Vec::new();
    let mut i: usize = 0;
    proof {
        reveal(Seq::filter);
        assert(all.take(0) =~= Seq::<StyleView>::empty());
        assert(rows.deep_view() =~= records_of(all.take(0), name@).map_values(as_row()));
    }
    while i < records.len()
        invariant
            i <= records@.len(),
            all == records.deep_view(),
            rows.deep_view() == records_of(all.take(i as int), name@).map_values(as_row()),
        decreases records@.len() - i,
    {
        let ghost before = rows.deep_view();
        proof {
            assert(all.take(i + 1) =~= all.take(i as int).push(all[i as int]));
            all.take(i as int).lemma_filter_push(all[i as int], named(name@));
        }
        if *records[i].get_name() == *name {
            rows.push(row_from_style(&records[i]));
            assert(rows.deep_view() =~= before.push(row_of_style(all[i as int])));
            assert(rows.deep_view() =~= records_of(all.take(i + 1), name@).map_values(as_row()));
        }
        i += 1;
    }
    proof {
        assert(all.take(records@.len() as int) =~= all);
    }
    rows
}

/// The number of the records of a name, as a row carries it.
fn count_of(records: &Vec<Style>, name: &String) -> (count: i64)
    ensures
        count == count_in_row(records_of(records.deep_view(), name@).len()),
{
    let ghost all = records.deep_view();
    let mut count: i64 = 0;
    let mut i: usize = 0;
    proof {
        reveal(Seq::filter);
        assert(all.take(0) =~= Seq::<StyleView>::empty());
    }
    while i < records.len()
        invariant
            i <= records@.len(),
            all == records.deep_view(),
            count == count_in_row(records_of(all.take(i as int), name@).len()),
        decreases records@.len() - i,
    {
        proof {
            assert(all.take(i + 1) =~= all.take(i as int).push(all[i as int]));
            all.take(i as int).lemma_filter_push(all[i as int], named(name@));
        }
        if *records[i].get_name() == *name && count < i64::MAX {
            count += 1;
        }
        i += 1;
    }
    proof {
        assert(all.take(records@.len() as int) =~= all);
    }
    count
}

/// The records but those of a name.
fn without(records: &Vec<Style>, name: &String) -> (kept: Vec<Style>)
    ensures
        kept.deep_view() == records.deep_view().filter(not_named(name@)),
{
    let ghost all = records.deep_view();
    let mut kept: Vec<Style> = Vec::new();
    let mut i: usize = 0;
    proof {
        reveal(Seq::filter);
        assert(all.take(0) =~= Seq::<StyleView>::empty());
        assert(kept.deep_view() =~= all.take(0).filter(not_named(name@)));
    }
    while i < records.len()
        invariant
            i <= records@.len(),
            all == records.deep_view(),
            kept.deep_view() == all.take(i as int).filter(not_named(name@)),
        decreases records@.len() - i,
    {
        let ghost before = kept.deep_view();
        proof {
            assert(all.take(i + 1) =~= all.take(i as int).push(all[i as int]));
            all.take(i as int).lemma_filter_push(all[i as int], not_named(name@));
        }
        if *records[i].get_name() != *name {
            kept.push(records[i].clone());
            assert(kept.deep_view() =~= before.push(all[i as int]));
        }
        i += 1;
    }
    proof {
        assert(all.take(records@.len() as int) =~= all);
    }
    kept
}

/// The records with `style` in the place of each record of its name.
fn with_replaced(records: &Vec<Style>, style: &Style) -> (changed: Vec<Style>)
    ensures
        changed.deep_view() == records.deep_view().map_values(replacing(style@)),
{
    let ghost all = records.deep_view();
    let mut changed: Vec<Style> = Vec::new();
    let mut i: usize = 0;
    while i < records.len()
        invariant
            i <= records@.len(),
            all == records.deep_view(),
            changed.deep_view() == all.take(i as int).map_values(replacing(style@)),
        decreases records@.len() - i,
    {
        let ghost before = changed.deep_view();
        if *records[i].get_name() == *style.get_name() {
            changed.push(style.clone());
        } else {
            changed.push(records[i].clone());
        }
        proof {
            assert(changed.deep_view() =~= before.push(replacing(style@)(all[i as int])));
            assert(changed.deep_view() =~= all.take(i + 1).map_values(replacing(style@)));
        }
        i += 1;
    }
    proof {
        assert(all.take(records@.len() as int) =~= all);
    }
    changed
}

impl Graph {
    /// A graph without records.
    pub fn new() -> (graph: Graph)
        ensures
            graph@ == Seq::<StyleView>::empty(),
            valid_graph(graph@),
    {
        let graph = Graph { records: Vec::new() };
        assert(graph@ =~= Seq::<StyleView>::empty());
        graph
    }

    /// How many records the graph holds.
    pub fn len(&self) -> (n: usize)
        ensures
            n == self@.len(),
    {
        self.records.len()
    }

    /// Runs a statement: changes the graph as [`graph_after`] says and
    /// answers as [`graph_reply`] says. A graph of valid records stays one.
    pub fn execute(&mut self, statement: &Statement) -> (reply: QueryResult)
        ensures
            final(self)@ == graph_after(old(self)@, statement@),
            reply@ == graph_reply(old(self)@, statement@),
            valid_graph(old(self)@) ==> valid_graph(final(self)@),
    {
        proof {
            match statement {
                Statement::Create(style) => {
                    use_type_invariant(style);
                },
                Statement::Merge(style) => {
                    use_type_invariant(style);
                },
                _ => {},
            }
            if valid_graph(old(self)@) {
                lemma_graph_stays_valid(old(self)@, statement@);
            }
        }
        match statement {
            Statement::Create(style) => {
                self.records.push(style.clone());
                let mut columns: Vec<String> = Vec::new();
                columns.push("s".to_owned());
                let mut row: Vec<Value> = Vec::new();
                row.push(Value::Other);
                let mut rows: Vec<Vec<Value>> = Vec::new();
                rows.push(row);
                let reply = QueryResult { columns, rows };
                proof {
                    assert(self@ =~= old(self)@.push(style@));
                    assert(reply@.columns =~= seq!["s"@]);
                    assert(reply@.rows[0] =~= seq![ValueView::Other]);
                    assert(reply@.rows =~= seq![seq![ValueView::Other]]);
                }
                reply
            },
            Statement::Match(name) => {
                let rows = rows_of(&self.records, name);
                QueryResult { columns: columns_of_style(), rows }
            },
            Statement::Merge(style) => {
                if count_of(&self.records, style.get_name()) == 0 {
                    self.records.push(style.clone());
                    assert(self@ =~= old(self)@.push(style@));
                } else {
                    self.records = with_replaced(&self.records, style);
                }
                let rows = rows_of(&self.records, style.get_name());
                QueryResult { columns: columns_of_style(), rows }
            },
            Statement::Delete(name) => {
                let count = count_of(&self.records, name);
                self.records = without(&self.records, name);
                let mut columns: Vec<String> = Vec::new();
                columns.push(COUNT.to_owned());
                let mut row: Vec<Value> = Vec::new();
                row.push(Value::Integer(count));
                let mut rows: Vec<Vec<Value>> = Vec::new();
                rows.push(row);
                let reply = QueryResult { columns, rows };
                proof {
                    assert(reply@.columns =~= seq![COUNT@]);
                    assert(reply@.rows[0] =~= seq![ValueView::Integer(count as int)]);
                    assert(reply@.rows =~= seq![seq![ValueView::Integer(count as int)]]);
                }
                reply
            },
        }
    }
}

} // verus!

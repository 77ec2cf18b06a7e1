//! The four statements that the repository sends to the store.

use crate::decimal::text_of_number;
use crate::literal::{lemma_quoted_reads_back, push_quoted, quoted, read_literal};
use crate::style::{Style, StyleView};
use crate::text::{push_integer, text_of_integer};
use vstd::prelude::*;
use vstd::string::StringExecFns;

verus! {

/// A statement as a mathematical value.
pub enum StatementView {
    Create(StyleView),
    Match(Seq<char>),
    Merge(StyleView),
    Delete(Seq<char>),
}

/// One statement for the store.
#[derive(Debug, Clone, PartialEq, Eq)]
pub enum Statement {
    /// Adds a record with the attributes of the style, whether or not one of
    /// its name is there already.
    Create(Style),
    /// Asks for the records of the given name, each as a row of its eleven
    /// attributes.
    Match(String),
    /// Gives every record of the style's name the style's other attributes,
    /// adds the record where there is none of that name, and asks for the
    /// records of that name as the statement leaves them.
    Merge(Style),
    /// Deletes the records of the given name and asks how many they were.
    Delete(String),
}

impl View for Statement {
    type V = StatementView;

    open spec fn view(&self) -> StatementView {
        match self {
            Statement::Create(style) => StatementView::Create(style@),
            Statement::Match(name) => StatementView::Match(name@),
            Statement::Merge(style) => StatementView::Merge(style@),
            Statement::Delete(name) => StatementView::Delete(name@),
        }
    }
}

/// What a statement asks back of a record: its eleven attributes, each in the
/// column of its name.
pub open spec fn projection() -> Seq<char> {
    "RETURN s.name, s.abvLow, s.abvHigh, s.ibuLow, s.ibuHigh, s.srmLow, s.srmHigh, s.originalGravityLow, s.originalGravityHigh, s.finalGravityLow, s.finalGravityHigh"@
}

/// What stands before the name in the text of a statement.
pub open spec fn statement_head(statement: StatementView) -> Seq<char> {
    match statement {
        StatementView::Create(_) => "CREATE (s:Style {name: "@,
        StatementView::Match(_) => "MATCH (s:Style {name: "@,
        StatementView::Merge(_) => "MERGE (s:Style {name: "@,
        StatementView::Delete(_) => "MATCH (s:Style {name: "@,
    }
}

/// The name that a statement speaks of.
pub open spec fn statement_name(statement: StatementView) -> Seq<char> {
    match statement {
        StatementView::Create(style) => style.name,
        StatementView::Match(name) => name,
        StatementView::Merge(style) => style.name,
        StatementView::Delete(name) => name,
    }
}

/// What stands behind the name in the statement that adds a record: the ten
/// other attributes.
pub open spec fn create_tail(style: StyleView) -> Seq<char> {
    ", abvLow: "@ + text_of_number(style.abv_low) + ", abvHigh: "@ + text_of_number(
        style.abv_high,
    ) + ", ibuLow: "@ + text_of_integer(style.ibu_low) + ", ibuHigh: "@ + text_of_integer(
        style.ibu_high,
    ) + ", srmLow: "@ + text_of_number(style.srm_low) + ", srmHigh: "@ + text_of_number(
        style.srm_high,
    ) + ", originalGravityLow: "@ + text_of_number(style.original_gravity_low)
        + ", originalGravityHigh: "@ + text_of_number(style.original_gravity_high)
        + ", finalGravityLow: "@ + text_of_number(style.final_gravity_low)
        + ", finalGravityHigh: "@ + text_of_number(style.final_gravity_high) + " }) RETURN s"@
}

/// What stands behind the name in the statement that sets the attributes of
/// the records of a name: the ten other attributes, each set whether or not
/// the record was there before, and what is asked back.
pub open spec fn merge_tail(style: StyleView) -> Seq<char> {
    " }) SET s.abvLow = "@ + text_of_number(style.abv_low) + ", s.abvHigh = "@ + text_of_number(
        style.abv_high,
    ) + ", s.ibuLow = "@ + text_of_integer(style.ibu_low) + ", s.ibuHigh = "@ + text_of_integer(
        style.ibu_high,
    ) + ", s.srmLow = "@ + text_of_number(style.srm_low) + ", s.srmHigh = "@ + text_of_number(
        style.srm_high,
    ) + ", s.originalGravityLow = "@ + text_of_number(style.original_gravity_low)
        + ", s.originalGravityHigh = "@ + text_of_number(style.original_gravity_high)
        + ", s.finalGravityLow = "@ + text_of_number(style.final_gravity_low)
        + ", s.finalGravityHigh = "@ + text_of_number(style.final_gravity_high) + " "@
        + projection()
}

/// What stands behind the name in the text of a statement.
pub open spec fn statement_tail(statement: StatementView) -> Seq<char> {
    match statement {
        StatementView::Create(style) => create_tail(style),
        StatementView::Match(_) => " }) "@ + projection(),
        StatementView::Merge(style) => merge_tail(style),
        StatementView::Delete(_) => " }) DELETE s RETURN count(s)"@,
    }
}

/// The text of a statement, as the store reads it: the head, the name as a
/// literal, and the tail.
pub open spec fn statement_text(statement: StatementView) -> Seq<char> {
    statement_head(statement) + quoted(statement_name(statement)) + statement_tail(statement)
}

/// In the text of every statement the name stands as a literal behind the
/// statement's head, and a reader takes from that literal the name and nothing
/// else: whatever characters the name holds, the literal ends where the
/// library closed it.
pub proof fn lemma_name_is_a_literal(statement: StatementView)
    ensures
        read_literal(statement_text(statement), statement_head(statement).len() as int) == Some(
            (
                statement_name(statement),
                (statement_head(statement).len() + quoted(statement_name(statement)).len()) as int,
            ),
        ),
{
    lemma_quoted_reads_back(
        statement_head(statement),
        statement_name(statement),
        statement_tail(statement),
    );
}

/// What stands behind the name in the statement that adds a record of
/// `style`.
fn create_statement_tail(style: &Style) -> (out: String)
    ensures
        out@ == create_tail(style@),
{
    let mut out = String::from_str(", abvLow: ");
    out.append(style.get_abv_low().text().as_str());
    out.append(", abvHigh: ");
    out.append(style.get_abv_high().text().as_str());
    out.append(", ibuLow: ");
    push_integer(&mut out, *style.get_ibu_low());
    out.append(", ibuHigh: ");
    push_integer(&mut out, *style.get_ibu_high());
    out.append(", srmLow: ");
    out.append(style.get_srm_low().text().as_str());
    out.append(", srmHigh: ");
    out.append(style.get_srm_high().text().as_str());
    out.append(", originalGravityLow: ");
    out.append(style.get_original_gravity_low().text().as_str());
    out.append(", originalGravityHigh: ");
    out.append(style.get_original_gravity_high().text().as_str());
    out.append(", finalGravityLow: ");
    out.append(style.get_final_gravity_low().text().as_str());
    out.append(", finalGravityHigh: ");
    out.append(style.get_final_gravity_high().text().as_str());
    out.append(" }) RETURN s");
    out
}

/// What stands behind the name in the statement that sets the attributes of
/// the records of the name of `style`.
fn merge_statement_tail(style: &Style) -> (out: String)
    ensures
        out@ == merge_tail(style@),
{
    let mut out = String::from_str(" }) SET s.abvLow = ");
    out.append(style.get_abv_low().text().as_str());
    out.append(", s.abvHigh = ");
    out.append(style.get_abv_high().text().as_str());
    out.append(", s.ibuLow = ");
    push_integer(&mut out, *style.get_ibu_low());
    out.append(", s.ibuHigh = ");
    push_integer(&mut out, *style.get_ibu_high());
    out.append(", s.srmLow = ");
    out.append(style.get_srm_low().text().as_str());
    out.append(", s.srmHigh = ");
    out.append(style.get_srm_high().text().as_str());
    out.append(", s.originalGravityLow = ");
    out.append(style.get_original_gravity_low().text().as_str());
    out.append(", s.originalGravityHigh = ");
    out.append(style.get_original_gravity_high().text().as_str());
    out.append(", s.finalGravityLow = ");
    out.append(style.get_final_gravity_low().text().as_str());
    out.append(", s.finalGravityHigh = ");
    out.append(style.get_final_gravity_high().text().as_str());
    out.append(" ");
    out.append(
        "RETURN s.name, s.abvLow, s.abvHigh, s.ibuLow, s.ibuHigh, s.srmLow, s.srmHigh, s.originalGravityLow, s.originalGravityHigh, s.finalGravityLow, s.finalGravityHigh",
    );
    out
}

impl Statement {
    /// The name that the statement speaks of.
    pub fn name(&self) -> (name: &String)
        ensures
            name@ == statement_name(self@),
    {
        match self {
            Statement::Create(style) => style.get_name(),
            Statement::Match(name) => name,
            Statement::Merge(style) => style.get_name(),
            Statement::Delete(name) => name,
        }
    }

    /// The text of the statement, as the store reads it. The name goes in as
    /// a literal that the store reads as the name and nothing else.
    pub fn text(&self) -> (out: String)
        ensures
            out@ == statement_text(self@),
    {
        let mut out = match self {
            Statement::Create(_) => String::from_str("CREATE (s:Style {name: "),
            Statement::Match(_) => String::from_str("MATCH (s:Style {name: "),
            Statement::Merge(_) => String::from_str("MERGE (s:Style {name: "),
            Statement::Delete(_) => String::from_str("MATCH (s:Style {name: "),
        };
        push_quoted(&mut out, self.name().as_str());
        match self {
            Statement::Create(style) => {
                out.append(create_statement_tail(style).as_str());
            },
            Statement::Match(_) => {
                let mut tail = String::from_str(" }) ");
                tail.append(
                    "RETURN s.name, s.abvLow, s.abvHigh, s.ibuLow, s.ibuHigh, s.srmLow, s.srmHigh, s.originalGravityLow, s.originalGravityHigh, s.finalGravityLow, s.finalGravityHigh",
                );
                out.append(tail.as_str());
            },
            Statement::Merge(style) => {
                out.append(merge_statement_tail(style).as_str());
            },
            Statement::Delete(_) => {
                out.append(" }) DELETE s RETURN count(s)");
            },
        }
        out
    }
}

} // verus!

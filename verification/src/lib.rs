//! Beer styles kept in a graph store.
//!
//! A [`style::Style`] is a record of a beer style: its name and its ranges of
//! alcohol by volume, bitterness, colour and gravity. The repository creates,
//! reads, updates and deletes such records in a store that is reached with
//! statements in text and answers with rows.
//!
//! The library holds the rules and leaves the sending to its user. An
//! operation is one round trip: the user sends the text of a
//! [`statement::Statement`], and hands the reply to the function of
//! [`repository`] that says what the operation returns for it.
//! [`graph::Graph`] is a store in memory that answers the same statements.
//!
//! Numbers that are no whole numbers are held as exact decimals
//! ([`decimal::Decimal`]) and compared exactly, without a tolerance: a number
//! that is written into a statement or a row and read back is the number it
//! was.

pub mod connection;
pub mod decimal;
pub mod error;
pub mod graph;
pub mod literal;
pub mod mapping;
pub mod repository;
pub mod sequences;
pub mod statement;
pub mod style;
pub mod text;
pub mod value;

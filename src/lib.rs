//! A parser for a Cassandra-style query language: text in, typed statement out.
pub mod ast;
pub mod lexer;
pub mod grammar;
pub mod cql;
pub mod laws;

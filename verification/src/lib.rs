//! Core of a log-watching webhook reporter for a game server.
//!
//! The server appends one JSON record per line to a small set of log files:
//! chat messages, connection events (joins and leaves), and general events
//! (player deaths).  This crate holds everything that can be reasoned about:
//! the line grammar and its parser ([`json`]), the three record schemas and
//! their formatters ([`chat`], [`connection`], [`general`]), and the routing
//! of a changed file's newest line to the right schema ([`dispatch`]).
//!
//! Watching the files and posting the formatted text to the webhook are I/O
//! and stay outside; they hand lines in and take display text and request
//! bodies back out.

pub mod chat;
pub mod connection;
pub mod dispatch;
pub mod general;
pub mod json;

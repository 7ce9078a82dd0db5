//! Redirection of a program's output and failure reports to message-oriented
//! sinks: a writer that reassembles byte chunks into lines (`printer`), the
//! diagnostic line for an unrecoverable failure (`report`), and an owned
//! output configuration with a one-time setup (`streams`, `guard`).

pub mod guard;
pub mod printer;
pub mod report;
pub mod streams;

//! Layered configuration profiles for a Python tooling front end.
//!
//! A profile is a partial `pyproject.toml` that carries the `[tool.*]` settings of the
//! supported tools. It is checked against the list of supported tools and then merged with
//! the project's own `pyproject.toml`, whose settings take precedence. The merged document
//! is what the tools are run with.
//!
//! - [`table`]: the tables of the `toml` crate, and what is taken on trust about them.
//! - [`merge`]: the merge of two tables, and the laws it obeys.
//! - [`profile`]: loading and validating a profile, and writing out the merged document.
//! - [`commands`], [`args`]: the command lines of the subcommands.
//! - [`keys`], [`text`]: helpers.

pub mod args;
pub mod commands;
pub mod keys;
pub mod merge;
pub mod profile;
pub mod table;
pub mod text;

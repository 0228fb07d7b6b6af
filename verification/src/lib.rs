use vstd::prelude::*;

pub mod text;
pub mod json;
pub mod decimal;
pub mod status;
pub mod update;
pub mod config;
pub mod time;
pub mod paths;
pub mod session;
pub mod actions;
pub mod parser;
pub mod report;
pub mod names;
pub mod sorting;
pub mod groups;
pub mod detail;
pub mod summary;
pub mod dashboard;
pub mod filters;
pub mod query;
pub mod csv;
pub mod install;
pub mod ledger;

verus! {
}

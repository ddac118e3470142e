use vstd::prelude::*;

pub mod attempt;
pub mod ledger;
pub mod tracker;
pub mod analyzer;
pub mod insights_analyzer;
pub mod laws;
pub mod text;
pub mod ids;
pub mod assoc;
pub mod log;
pub mod collect;
pub mod steam_id;
pub mod steam_account;
pub mod summary;
pub mod breakdown;
pub mod rgl;
pub mod importer;
pub mod db;
pub mod demos;
pub mod cache;
pub mod urls;
pub mod maps;

use vstd::prelude::*;

pub mod adblock;
pub mod app;
pub mod browser;
pub mod config;
pub mod display;
pub mod dom;
pub mod keys;
pub mod purify;
pub mod renderer;
pub mod search_engine;
pub mod storage;
pub mod text;
pub mod ui;

verus! {
} // verus!

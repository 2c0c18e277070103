use vstd::prelude::*;

pub mod admin;
pub mod audit;
pub mod auth;
pub mod clock;
pub mod config;
pub mod conflicts;
pub mod devices;
pub mod error;
pub mod file;
pub mod html;
pub mod pages;
pub mod storage;
pub mod sync;
pub mod text;
pub mod trash;

verus! {

} // verus!

use vstd::prelude::*;

pub mod codegen;
pub mod data_source;
pub mod dispatch;
pub mod event;
pub mod foreign;
pub mod names;
pub mod parser;
pub mod pointer;
pub mod scale;
pub mod schema;
pub mod token;
pub mod wire;

verus! {

} // verus!

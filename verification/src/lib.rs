//! Small applications' logic, verified: a doubly linked list, request counters,
//! a calculator, symbol statistics, an equation tokenizer and an OAuth login flow.
use vstd::prelude::*;

pub mod linked_list;
pub mod linked_list_v2;
pub mod text;
pub mod equation;
pub mod counters;
pub mod wasm_counters;
pub mod content;
pub mod calculator;
pub mod symbols;
pub mod oauth;
pub mod delay;
pub mod guess;

verus! {

} // verus!

use vstd::prelude::*;

pub mod text;
pub mod types;
pub mod gate;
pub mod json;
pub mod slots;
pub mod extract;
pub mod order;
pub mod solve;
pub mod gold;
pub mod learn;
pub mod store;
pub mod budget;
pub mod classify;
pub mod topics;
pub mod route;
pub mod model_cli;

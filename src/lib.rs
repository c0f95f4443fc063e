use vstd::prelude::*;

pub mod arith;
pub mod principal;
pub mod stream;
pub mod payout;
pub mod vault;
pub mod governance;
pub mod registry;

use vstd::prelude::*;

pub mod state;
pub mod text;
pub mod status;
pub mod tray;
pub mod services;
pub mod health;

verus! {

} // verus!

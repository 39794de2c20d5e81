//! Air traffic control: the clearances ATC can grant and their state.
pub mod constraints;
pub mod controller;

//! glideslope: the verified core of a terminal IFR operations simulation.
pub mod atc;
pub mod checklist;
pub mod console;
pub mod crew;
pub mod panels;
pub mod parser;
pub mod sim;
pub mod sim_core;
pub mod text;

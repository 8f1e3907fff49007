//! What the parts of the library mean, said of their inputs and results alone.

pub mod amounts;
pub mod backend;
pub mod cells;
pub mod disks;
pub mod events;
pub mod filters;
pub mod keys;
pub mod layout;
pub mod lists;
pub mod looks;
pub mod places;
pub mod shown;
pub mod sorting;
pub mod states;
pub mod tables;
pub mod texts;
pub mod totals;

//! The model and logic of a terminal dashboard for Slurm clusters.

pub mod amount;
pub mod board;
pub mod book;
pub mod cells;
pub mod clock;
pub mod columns;
pub mod commands;
pub mod control;
pub mod cursor;
pub mod dashboard;
pub mod disks;
pub mod events;
pub mod filter;
pub mod frame;
pub mod gres;
pub mod grid;
pub mod keyed;
pub mod laws;
pub mod listing;
pub mod map;
pub mod model;
pub mod mouse;
pub mod number;
pub mod order;
pub mod panel;
pub mod panels;
pub mod paths;
pub mod popup;
pub mod rows;
pub mod screen;
pub mod settings;
pub mod shown;
pub mod slurm;
pub mod snapshot;
pub mod sorting;
pub mod stamp;
pub mod summary;
pub mod tables;
pub mod text;
pub mod theme;
pub mod units;
pub mod usage;
pub mod wording;

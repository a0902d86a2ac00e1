//! Task model and list logic of the Agenda task manager.
pub mod text;
pub mod model;
pub mod order;
pub mod lists;
pub mod dates;
pub mod format;
pub mod recurrence;
pub mod store;
pub mod workspace;
pub mod ids;
pub mod edits;
pub mod capture;
pub mod quick;
pub mod views;
pub mod keys;
pub mod seeds;
pub mod source_size;
pub mod assets;
pub mod startup;
pub mod laws;
pub mod stats;
pub mod engine;
pub mod doc;
pub mod calendar;
pub mod rows;
pub mod menus;
pub mod recur_editor;
pub mod heatmap;
pub mod mapping;
pub mod navigation;

//! The disktree treemap's web front end: the state machine, the pages it
//! renders and the HTTP answers it gives, as functions of plain values.

pub mod text;
pub mod paths;
pub mod single;
pub mod tree;
pub mod marks;
pub mod app;
pub mod palette;
pub mod keys;
pub mod navigation;
pub mod finding;
pub mod scanning;
pub mod removal;
pub mod codec;
pub mod input;
pub mod words;
pub mod json;
pub mod render;
pub mod mosaic;
pub mod explore;
pub mod panel;
pub mod review;
pub mod spelling;
pub mod spelled;
pub mod server;
pub mod args;
pub mod tasks;
pub mod laws;
pub mod promises;
pub mod bindings;
pub mod boundary;
pub mod duties;
pub mod pictures;
pub mod panel_laws;
pub mod explore_laws;
pub mod review_laws;

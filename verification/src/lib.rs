//! The editing engine of a small terminal text editor: a buffer of rows with
//! tab expansion and syntax highlighting, a cursor and viewport, incremental
//! search, and the composition of screen frames.

pub mod editor;
pub mod escape;
pub mod highlight;
pub mod input;
pub mod model;
pub mod row;
pub mod syntax;
pub mod text;

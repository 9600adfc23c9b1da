//! A small terminal text editor: a doubly linked list of byte lines kept in
//! an arena, the cursor logic that walks it, and the screen plan that shows it.

pub mod controller;
pub mod darea;
pub mod editor_laws;
pub mod data;
pub mod keys;
pub mod line;
pub mod list;
pub mod measure;
pub mod statics;
pub mod strings;
pub mod termop;

//! A small terminal text editor: rows of text, a cursor that moves over
//! display cells, prompts on the command line, and the frame drawn each tick.
//! All decisions are made here; reading keys, drawing and file access are
//! done by the caller, which feeds events in and carries actions out.
pub mod width;
pub mod text;
pub mod style;
pub mod row;
pub mod terminal;
pub mod document;
pub mod model;
pub mod editor;
pub mod frame;
pub mod laws;

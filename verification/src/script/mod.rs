//! The share of the script process: transactions as scripts see them, the objects for caches, and
//! the editor.
pub mod cache;
pub mod editor;
pub mod idbtransaction;
pub mod textinput;

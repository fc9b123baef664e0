//! Verified core of the HiveGUI prompt tools: the prompt debugger's editing,
//! history, comparison and request logic, the JSON difference view, the
//! prompt library panel, and the data-management (backup / restore) state
//! machine.

mod std_wrappers;
pub mod seqs;
pub mod text;
pub mod window_key;
pub mod message;
pub mod catalog;
pub mod flags;
pub mod debugger;
pub mod call;
pub mod search;
pub mod json;
pub mod settings;
pub mod compare;
pub mod request;
pub mod library;
pub mod detached;
pub mod panel;

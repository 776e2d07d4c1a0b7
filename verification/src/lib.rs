//! Finds the Python code blocks of a chat message, classifies what a style
//! checker printed for each of them, and assembles the reply.

pub mod check;
pub mod extract;
pub mod reply;
pub mod session;
pub mod structure;
pub mod text;

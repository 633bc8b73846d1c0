//! hypercore: a HyperCard-like document model and the HyperTalk front end (lexer and
//! parser), with the host-facing session logic, specified and verified with Verus.

pub mod model;
pub mod script;
pub mod session;
pub mod text;
pub mod view;

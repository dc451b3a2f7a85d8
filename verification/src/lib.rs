//! A terminal calculator client: the line editor behind its prompt, the
//! history of evaluated expressions, the reading of the server's replies and
//! the plain-value parts of its screen layout.

pub mod text;
pub mod std_text;
pub mod numbers;
pub mod history;
pub mod editor;
pub mod keys;
pub mod reply;
pub mod screen;
pub mod laws;
pub mod display_laws;

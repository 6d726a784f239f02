//! Fuzzy search over the shell history.
//!
//! Commands come from the shell or from a history file (`history`), are kept in an index as
//! documents (`schema`, `document`), are found by a search text (`search`) and are picked in a
//! menu on the terminal (`select`, `preselect`, `session`, `render`). `request` reads the command
//! line, `laws` holds what is true of several of these together.
pub mod document;
pub mod edit;
pub mod history;
pub mod laws;
pub mod preselect;
pub mod render;
pub mod request;
pub mod schema;
pub mod search;
pub mod select;
pub mod session;
pub mod text;

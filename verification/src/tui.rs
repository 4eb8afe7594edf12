//! What the terminal client keeps and decides: the documents it was told
//! of, the table it shows them in, and the order of its rows.

pub mod api_client;
pub mod app;
pub mod stateful_table;

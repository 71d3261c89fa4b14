pub mod bash;
pub mod bash_laws;
pub mod event_row;
pub mod event_store;
pub mod event_store_laws;
pub mod stream;
pub mod terminal;
pub mod terminal_laws;

//! Messages exchanged between the server and its workers.
pub mod fragment_request;

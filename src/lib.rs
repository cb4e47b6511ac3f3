pub mod connector;
pub mod protocol;
pub mod session;
pub mod shell;

pub mod history;
pub mod message;
pub mod response;
pub mod session;

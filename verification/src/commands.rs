pub mod connection;
pub mod message;
pub mod topic;

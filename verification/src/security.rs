pub mod credential;

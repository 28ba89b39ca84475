use vstd::prelude::*;

pub mod error;
pub mod ids;
pub mod text;
pub mod security;
pub mod kafka;
pub mod storage;
pub mod text_map;
pub mod commands;

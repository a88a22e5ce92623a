pub mod error;
pub mod hasher;
pub mod keyvalue;
pub mod request;
pub mod user;

pub mod keyvalue;
pub mod response;
pub mod user;

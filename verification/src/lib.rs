pub mod error;
pub mod id;
pub mod logs;
pub mod manager;
pub mod model;
pub mod query;
pub mod source;
pub mod strings;
pub mod time;

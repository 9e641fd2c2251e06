pub mod context;
pub mod error;
pub mod glob_pattern;
pub mod helpers;
pub mod path;
pub mod path_laws;
pub mod path_order;
pub mod path_resolver;
pub mod permissions;
pub mod text;
pub mod tools;

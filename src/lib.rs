pub mod error;
pub mod path;
pub mod configuration;
pub mod linker;
pub mod model;

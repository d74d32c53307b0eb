pub mod error;
pub mod format;
pub mod lemmas;
pub mod reader;
pub mod spec;
pub mod value;
pub mod writer;

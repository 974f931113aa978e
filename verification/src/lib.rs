pub mod error;
pub mod laws;
pub mod node;
pub mod rud_char;
pub mod source;
pub mod token;
pub mod translate;

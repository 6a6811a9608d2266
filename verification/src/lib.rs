pub mod address;
pub mod directory;
pub mod errors;
pub mod probe;
pub mod resolve;
pub mod text;
pub mod watch;

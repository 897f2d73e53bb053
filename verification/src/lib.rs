//! Looking into the memory of a running process: its heap and stack
//! regions, scans of their bytes for a value, the narrowing of the
//! candidates that a scan finds, and watches on single addresses.

pub mod codec;
pub mod discovery;
pub mod error;
pub mod maps;
pub mod memory;
pub mod process;
pub mod scan;
pub mod scripts;
pub mod text;
pub mod watch;
pub mod watch_keypress;

pub use error::ProcessError;
pub use process::Process;

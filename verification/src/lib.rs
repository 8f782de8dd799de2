//! Capture, buffering and filtering of Windows debug output.

pub mod capture;
pub mod dbgtest;
pub mod error;
pub mod filter;
pub mod json;
pub mod process;
pub mod ring_buffer;
pub mod rpc;
pub mod server;
pub mod session;
pub mod text;

pub use capture::DebugCapture;
pub use error::DbgViewError;
pub use filter::{CompiledFilters, FilterSet};
pub use process::{list_processes, ProcessInfo};
pub use ring_buffer::{DebugEntry, RingBuffer};
pub use server::SysinternalsMcpServer;
pub use session::{Session, SessionManager, SessionStatus};

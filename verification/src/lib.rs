//! A logger that hands every message to a background writer, which stamps it,
//! batches it with others, and says when to write and when to flush.
//!
//! `FLog` is the end at which messages are logged, `Writer` the end at which they
//! become lines of output. A channel runs between the two. The writer does no
//! output of its own: it is run turn by turn, and each turn says what to print.

pub mod batch;
pub mod channel;
pub mod clock;
pub mod config;
pub mod laws;
pub mod level;
pub mod logger;
pub mod message;
pub mod pool;
pub mod report;
pub mod scope;
pub mod state;
pub mod strings;
pub mod text;
pub mod writer;

pub use clock::{stamp_text, Clock, LocalTime, Stamp};
pub use config::{Interval, LoggerConfig};
pub use level::LogLevel;
pub use logger::FLog;
pub use message::{append_line, LogMsg, LoggerCommand};
pub use pool::StringPool;
pub use report::{report_panic, PanicLocation};
pub use scope::{
    flush_global, flush_local, global_log_with_level, init_global, init_global_with_config,
    init_local, init_local_with_config, local_log_with_level, on_panic, GlobalLogHelper, Started,
};
pub use state::Phase;
pub use text::append_decimal;
pub use writer::{Output, Writer, WriterSetup};

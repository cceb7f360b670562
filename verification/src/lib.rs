//! A fixed-capacity FIFO byte queue that keeps its unread bytes in one
//! contiguous window of its storage and slides that window back to the start
//! of the storage on the read side, instead of wrapping around.

pub mod buffer;
pub mod history;
pub mod window;

pub use buffer::ShuffleBuf;
pub use window::SHUFFLE_THRESHOLD;
pub use window::Window;

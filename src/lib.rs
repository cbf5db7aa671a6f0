// Adaptive HTTP streaming: playlist parsing, the state machine that feeds a
// playlist's segments into a media buffer, request routing and responses for
// the segment server, and the task queue behind its worker pool.

pub mod feeder;
pub mod playlist;
pub mod pool;
pub mod server;
pub mod text;

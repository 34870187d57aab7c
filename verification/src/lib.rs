//! Clipboard history core: content model, chunked payload codec,
//! duplicate suppression, bounded history and the polling state machine.

pub mod clock;
pub mod codec;
pub mod error;
pub mod history;
pub mod model;
pub mod poller;
pub mod storage;

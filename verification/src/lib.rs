//! Verified core of the MTGA stat assistant: the log segmenter and router,
//! the parsers for MTGA's JSON log blocks, the game-state tracker, the card
//! database lookups and the decisions of the event sink.

pub mod text;
pub mod json;
pub mod events;
pub mod parser;
pub mod segmenter;
pub mod router;
pub mod cards;
pub mod records;
pub mod event_sink;
pub mod settings;
pub mod tailer;
pub mod mtga_process;

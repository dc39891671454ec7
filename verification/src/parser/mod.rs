//! Parsers for the JSON blocks of MTGA's log.

pub mod match_state;
pub mod course_data;
pub mod gre_message;

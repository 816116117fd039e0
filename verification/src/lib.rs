//! Verified core of a local iMessage bridge server: time-base conversions,
//! message ordering and paging, record assembly from database rows, chat
//! statistics, request-parameter decisions and JSON response envelopes.

pub mod counts;
pub mod envelope;
pub mod image_size;
pub mod lookups;
pub mod ordering;
pub mod records;
pub mod request;
pub mod store;
pub mod text;
pub mod time;

//! Sequential visit tickets for a small service counter, with a verified
//! core: date-scoped sequence allocation, retention sweeping, receipt
//! encoding into a device control-code byte stream, candidate printer
//! resolution, and the first-success dispatch state machine.

pub mod api;
pub mod clock;
pub mod codes;
pub mod dispatch;
pub mod encoder;
pub mod resolver;
pub mod store;

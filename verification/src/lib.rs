//! GateDesk's local HTTP API, session bookkeeping, audit, recording upload and
//! tray decisions, verified with Verus.
pub mod text;
pub mod json;
pub mod url;
pub mod http_api;
pub mod audit;
pub mod event;
pub mod sessions;
pub mod handlers;
pub mod record_upload;
pub mod tray;
pub mod scbehavior;

//! The gateway adapter's verified side: turning OpenClaw payloads and local agent
//! metadata into the shared models.
pub mod openclaw;

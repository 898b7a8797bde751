//! Session and credential coordination core for a remote-desktop shell.
//!
//! The crate decides which operating mode a process instance runs in
//! ([`dispatch`]), owns the single active remote session ([`session`]),
//! manages temporary/permanent passwords and two-factor secrets
//! ([`credentials`]), and tracks named background jobs that callers observe
//! by polling ([`jobs`]).  The [`ui`] module wires the components together
//! and is the only surface a rendering boundary needs.

pub mod credentials;
pub mod dispatch;
pub mod encoding;
pub mod jobs;
pub mod session;
pub mod text;
pub mod ui;

//! Session bookkeeping for a screen-cast portal backend: a registry of
//! capture sessions, the negotiation steps run against it, and the
//! reconciliation of a finished stream start-up with a concurrent close.
pub mod lifecycle;
pub mod screencast;
pub mod session;

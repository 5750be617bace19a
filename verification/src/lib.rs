//! Orchestration of compute dispatches over a set of output surfaces.
//!
//! Each surface is a compute target with its own bind bundle, two pipeline
//! handles and a lifecycle state. The crate decides, frame by frame, which
//! pipeline to query, how a target's state moves on, and which dispatch is
//! issued for it. It owns no GPU object: the caller performs the device work
//! and hands plain values back.

pub mod bundle;
pub mod dispatch;
pub mod frame;
pub mod grid;
pub mod history;
pub mod layout;
pub mod lifecycle;
pub mod params;
pub mod prepare;
pub mod registry;
pub mod target;

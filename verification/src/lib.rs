//! An interactive commit picker: keyboard edges, a clamped selection, a
//! five-row viewport and full-height frames, with the session that ties
//! them together.

pub mod compositor;
pub mod keys;
pub mod record;
pub mod selection;
pub mod session;
pub mod text;
pub mod transport;
pub mod viewport;

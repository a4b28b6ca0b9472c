//! Removal notifications for an entity-component store.
//!
//! When an entity loses a component, whether the component was removed or the
//! entity was despawned, the store appends a notification to the feed of that
//! component type. Each feed keeps two generations of notifications; readers
//! walk a feed with cursors of their own.

pub mod entity;
pub mod event;
pub mod removal_detection;
pub mod laws;

//! A project item store over a persistent key-value substrate.
//!
//! Items (units of work) belong to numbered projects. The store keeps three
//! index families in the substrate: a per-project counter handing out item
//! identifiers, a per-project membership list of live identifiers, and one
//! record per (project, item) pair. The index-maintenance logic is verified:
//! identifier allocation is monotonic, the membership list tracks exactly the
//! records that exist, and reads preserve creation order.

pub mod item;
pub mod laws;
pub mod storage;
pub mod store;

pub use item::ProjectItem;
pub use store::ProjectManagement;

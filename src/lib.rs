//! A record store for administrative processes and the completion marks of
//! their pending actions, with every operation stated and proved in Verus.
pub mod codec;
mod fresh;
pub mod laws;
pub mod model;
pub mod order;
pub mod rows;
pub mod store;
pub mod update;

pub use model::{CompletedAction, Process, ProcessData, ProcessUpdates, StoreError};
pub use store::{ActionGroup, ProcessStore};
pub use update::{Assignment, Column, UpdateStatement};

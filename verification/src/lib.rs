//! An entity-component storage engine.
//!
//! An [`allocator::Allocator`] issues generational handles. Component tables
//! ([`storage::ComponentStorage`]) hold one value per entity in a dense array,
//! found through a sparse index ([`index::ComponentIndex`]). The join
//! ([`join::iterate`]) lists the entities that several storages have in common.
//!
//! Every function carries a contract over a mathematical model of its data, and
//! every contract is proved. Access to a table is arbitrated by ownership: a
//! read window borrows the table, the write and insert windows borrow it
//! exclusively, so conflicting windows on one table do not compile.

pub mod allocator;
pub mod handle;
pub mod index;
pub mod join;
pub mod math;
pub mod storage;
pub mod system;
pub mod terrain;

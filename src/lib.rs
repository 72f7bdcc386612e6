//! Supervision of the blocknet daemon and management of the wallet files it runs against.
pub mod api;
pub mod launch;
pub mod names;
pub mod store;
pub mod supervisor;

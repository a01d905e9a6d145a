//! CPU control primitives: decimal text for kernel attributes, per-core sysfs
//! attribute writes guarded by a permission window, and the discovery and
//! affinity pinning of a target process.

pub mod decimal;
pub mod sysfs;
pub mod migrate;

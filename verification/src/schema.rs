//! The register map and the two descriptions that are made of it.

pub mod attr;
pub mod base;
pub mod fidelity;
pub mod ipxact;
pub mod regvue;

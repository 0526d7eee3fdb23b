//! The descriptor cluster of a device: it answers reads of the four lists that
//! describe an endpoint (device types, server clusters, client clusters and
//! parts), gated by the data version of the cluster.
//!
//! Every executable function carries a contract that Verus proves against the
//! mathematical model of the node and of the output.

pub mod error;
pub mod tlv;
pub mod encoder;
pub mod dataver;
pub mod objects;
pub mod matcher;
pub mod lists;
pub mod descriptor;

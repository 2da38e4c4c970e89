//! Builds the agent policy of a confidential container sandbox from a
//! Kubernetes workload.

pub mod annotations;
pub mod containerd;
pub mod daemon_set;
pub mod deployment;
pub mod document;
pub mod encoding;
pub mod error;
pub mod infra;
pub mod job;
pub mod kubernetes;
pub mod list;
pub mod no_policy;
pub mod obj_meta;
pub mod oci;
pub mod pause_container;
pub mod pod;
pub mod pod_template;
pub mod policy;
pub mod registry;
pub mod replica_set;
pub mod replication_controller;
pub mod stateful_set;
pub mod text;
pub mod volume;
pub mod yaml;

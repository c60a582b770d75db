//! Process orchestration and key resolution for a container workload daemon.
//!
//! The library holds the decisions of the daemon and leaves the doing to
//! whoever calls it:
//!
//! - [`key`]: how the identity of a workload is derived from its namespace,
//!   its name and its kind, and which names and kind strings are accepted;
//! - [`process`]: the records of the containers that back a workload, and
//!   the status of a workload as the aggregate of its processes;
//! - [`labels`]: the labels by which the daemon finds its containers;
//! - [`lifecycle`]: create, start, stop and remove, each as a sequence of
//!   requests to the container runtime, the process store and the event
//!   notifier, in which the library says which request follows which reply;
//! - [`runs`]: what holds of whole runs of these operations;
//! - [`locks`]: mutual exclusion of the operations on one workload;
//! - [`serial`]: what holds of starts of one workload that run in turn;
//! - [`exec`]: the course of a command run inside a container;
//! - [`state`]: the documents in which a desired state is declared;
//! - [`error`]: the failures of the collaborators and the errors that
//!   operations end with.

pub mod error;
pub mod exec;
pub mod key;
pub mod labels;
pub mod lifecycle;
pub mod locks;
pub mod process;
pub mod runs;
pub mod serial;
pub mod state;
pub mod text;

//! Decision logic of a tunnel that forwards local TCP ports to ports of pods
//! in a Kubernetes cluster.
//!
//! Nothing in this crate touches a socket. Each long-running activity of the
//! tunnel is written as a state machine: the embedding program performs the
//! pending input or output of a machine and reports what happened, and the
//! machine decides what comes next.
//!
//! - [`config`]: the forwards.
//! - [`shutdown`]: the flag that stops everything.
//! - [`forwarding`]: the relay of bytes between a client and a pod.
//! - [`connection`]: one forwarded connection, around its relay.
//! - [`listener`]: the addresses of a forward and its accept loop.
//! - [`contexts`]: the cluster contexts that the forwards name.
//! - [`orchestrator`]: the start of all forwards, and the end.
//! - [`setup`]: what becomes of each forward, proved for every course of
//!   events.
//! - [`report`]: the lines that announce the forwards.

pub mod config;
pub mod connection;
pub mod contexts;
pub mod forwarding;
pub mod listener;
pub mod orchestrator;
pub mod report;
pub mod setup;
pub mod shutdown;

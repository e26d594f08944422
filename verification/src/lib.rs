//! Control plane of a small container orchestrator.
//!
//! A controller declares workloads, a scheduler places their instances on
//! worker nodes, and a node agent on each worker runs them.
//!
//! The heart of the crate is the scheduler. [`manager`] holds the registry of
//! workers and the subscriptions of controllers and takes one event at a
//! time; [`state_manager`] holds the desired workloads with the instances
//! observed for each and reconciles the two; [`laws`] states what follows for
//! every state. The scheduler decides over plain values: its caller owns the
//! sockets and queues, hands in events, and carries out the actions that
//! come back.
//!
//! [`controller`] and [`riklet`] hold the decisions of the controller and of
//! the node agent: the answers of the HTTP routes, the statements for the
//! store, the command lines of the programs that pull images and run
//! containers.

pub mod controller;
pub mod definition;
pub mod grpc;
pub mod laws;
pub mod manager;
pub mod naming;
pub mod node_metrics;
pub mod proto;
pub mod random;
pub mod riklet;
pub mod scheduler;
pub mod state_manager;
pub mod text;

//! Decision logic of a package builder service: the message router, the depot repair tool, the
//! origin channel calls and the job group promotion command.
//!
//! Every part that waits on the outside (a socket, a disk, a remote service) is a machine: it is
//! handed what happened and answers with what to do next. The machines and the rules inside them
//! are verified here; performing the answers is left to the program around the library.
pub mod api;
pub mod depot_tree;
pub mod doctor;
pub mod doctor_laws;
pub mod doctor_steps;
pub mod envelope;
pub mod net;
pub mod number;
pub mod path;
pub mod promote;
pub mod registry;
pub mod repair_model;
pub mod repair_proof;
pub mod report;
pub mod router_laws;
pub mod router_model;
pub mod router_steps;
pub mod server;

//! A small platform for running shell commands as supervised, long-running
//! applications: the records a control plane keeps, the decisions it takes,
//! and the supervision rules of the node agent.

pub mod agent;
pub mod app_handlers;
pub mod app_repo;
pub mod cli;
pub mod client;
pub mod ids;
pub mod init;
pub mod launch;
pub mod log_handlers;
pub mod log_laws;
pub mod log_repo;
pub mod model;
pub mod port_detect;
pub mod registry_laws;
pub mod seqs;
pub mod supervision_laws;
pub mod supervisor;
pub mod text;
pub mod wire;

//! The control plane of a distributed media-transcoding orchestrator.
//!
//! A controller admits batches of conversion plans, matches the jobs to
//! worker agents that can run them, and leases each job to one agent. The
//! agents run a transcoder and report back. This crate holds the decisions
//! of both sides, each with a contract that is proved:
//!
//! - [`ffmpeg`]: the transcoder's arguments, the output extension and the
//!   encoders a plan can use;
//! - [`state`]: the controller's registries and the pending queue;
//! - [`dispatch`]: the sweep that grants leases;
//! - [`session`]: what each message of a worker does to the state;
//! - [`manage`]: settings, pairing, scanning and admission;
//! - [`stream`]: access to a job's input and output, and byte ranges;
//! - [`worker`], [`executor`], [`wire`]: the worker's side, and the
//!   messages as JSON text;
//! - [`laws`]: what holds of every state the controller passes through.
//!
//! Nothing here reads a socket or a file: a program around the library
//! does that. The clock, the random identifiers and the other crates'
//! computations come in through the few calls of [`deps`].

pub mod agents;
pub mod config;
pub mod deps;
pub mod dispatch;
pub mod executor;
pub mod ffmpeg;
pub mod jobs;
pub mod laws;
pub mod manage;
pub mod session;
pub mod state;
pub mod stream;
pub mod text;
pub mod wire;
pub mod worker;

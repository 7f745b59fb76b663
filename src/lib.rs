//! Core of a judging worker: verdicts, isolator meta parsing, output
//! comparison, verdict aggregation and the per-job decision logic.

pub mod checker;
pub mod anigma;
pub mod compare;
pub mod compiler;
pub mod executer;
pub mod jobs;
pub mod judger;
pub mod languages;
pub mod meta;
pub mod playground;
pub mod runner;
pub mod sandbox;
pub mod text;
pub mod validator;
pub mod verdict;

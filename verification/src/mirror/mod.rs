pub mod ranking;
pub mod resolver;

pub use resolver::{Candidate, CandidateScore, Heartbeat, MirrorResolver};

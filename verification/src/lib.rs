//! Verified core logic of the Tem agent runtime: browser observation tiers,
//! the witness's verdicts and replies, heartbeat decisions, the initiative
//! cycle's guardrails, self-work steps, and Eigen-Tune status aggregation.
pub mod eigentune;
pub mod heartbeat;
pub mod observation;
pub mod perpetuum;
pub mod self_work;
pub mod text;
pub mod witness;

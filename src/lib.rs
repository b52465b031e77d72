//! Transport and session-security core of a client for a cloud-storage API:
//! the retry and proof-of-work state machine behind every API call, the
//! shared client state it reads, and the per-call decryption context.

mod client;
mod engine;
mod error;
mod hashcash;
mod json;
mod session;

pub use client::{decimal, ClientState};
pub use engine::{
    collect_responses, on_body, prepare_call, send_requests, AttemptPlan, BodyDecision, Reply, RetryState,
    StatusDecision, Transport,
};
pub use error::{Error, EAGAIN, OK};
pub use hashcash::{parse_challenge, proof_header, Challenge};
pub use session::{DecryptionContext, ShareKey, UserSession};

//! A rotating savings circle as a deterministic state machine.
//!
//! Members join a circle, contribute a fixed amount each round, and one member
//! per round receives the pooled contributions. Every payout anchors the state
//! it completed by a SHA-256 digest of its CBOR encoding.
//!
//! - [`model`]: the state and its parts, each with its mathematical view.
//! - [`lifecycle`]: creating a circle, admitting members, recording
//!   contributions, paying out.
//! - [`validation`]: the consistency of one state and the step from one state
//!   to the next.
//! - [`encoding`], [`decoding`]: the layout of a state as a CBOR item, and the
//!   way back; [`cbor`]: items to bytes and back, through `ciborium`.
//! - [`hashing`]: the digest of a state, through `sha2`.
//! - [`boundary`]: the operations on encoded states.
//! - [`ledger`]: the check on a transaction's outputs.
//! - [`coherence`], [`laws`]: what is proved of the operations together.
//!
//! Every operation reports a refusal as a value and then leaves the state as
//! it was. Timestamps are arguments: no operation reads a clock.

pub mod boundary;
pub mod cbor;
pub mod coherence;
pub mod decoding;
pub mod encoding;
pub mod error;
pub mod hashing;
pub mod history;
pub mod laws;
pub mod ledger;
pub mod lifecycle;
pub mod model;
pub mod validation;

pub use error::{ApplyError, DecodeError, OperationError, TransitionError, ValidationError};
pub use model::{
    CircleState, CircleView, ContributionRecord, Member, MemberView, PubKey, RecordView, Satoshis,
};

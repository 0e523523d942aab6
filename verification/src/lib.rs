//! A guardian-governed whitelist of contract accounts, grouped into projects.
//!
//! Every change to the whitelist is first stored as a proposal and only takes
//! effect once a fixed quorum of distinct guardians has voted for it. The state
//! is a plain value: the host supplies the caller, the attached payment and the
//! block time with every call, and carries out the refund that a vote may order.

pub mod contract;
pub mod laws;
pub mod metadata;
pub mod ordered_map;
pub mod rules;
pub mod string_set;
pub mod text;
pub mod types;

pub use contract::Contract;
pub use metadata::{EValueType, MetadataStructure, ProjectMetadata};
pub use ordered_map::OrderedMap;
pub use string_set::StringSet;
pub use types::{
    CallContext, EProposalKind, ErrorKind, OldContract, OldProjectInfo, OldProposalInfo,
    ProjectInfo, ProposalEffect, ProposalInfo, VoteReceipt, WhitelistError,
};

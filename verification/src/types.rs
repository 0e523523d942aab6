//! The records that the registry stores and the values that its calls exchange
//! with the host.

use vstd::prelude::*;
use crate::ordered_map::OrderedMap;
use crate::string_set::StringSet;

verus! {

/// One whole unit of the native token, in its smallest units.
pub const YOCTO_PER_NEAR: u128 = 1_000_000_000_000_000_000_000_000;

/// The number of distinct guardian votes at which a proposal is carried out.
pub const QUORUM: usize = 3;

/// What the host tells the registry about the call that it is serving.
#[derive(Debug)]
pub struct CallContext {
    /// The account that made the call.
    pub predecessor: String,
    /// The account that the registry itself runs under; its calls are privileged.
    pub current_account: String,
    /// The payment attached to the call, in the smallest units of the native token.
    pub attached_deposit: u128,
    /// The time of the current block, in nanoseconds.
    pub block_timestamp: u64,
}

/// Whether a proposal asks for a new project or for a change to an approved one.
#[allow(non_camel_case_types)]
#[derive(Clone, Copy, Debug, PartialEq, Eq, Structural)]
pub enum EProposalKind {
    NEW,
    UPDATE,
}

/// A project: a named group of contract accounts with its metadata.
#[derive(Debug)]
pub struct ProjectInfo {
    pub contract_ids: StringSet,
    pub metadata: String,
    pub pending_proposals: StringSet,
    pub project_id: String,
}

/// A project as plain values.
pub ghost struct ProjectInfoView {
    pub contract_ids: Seq<Seq<char>>,
    pub metadata: Seq<char>,
    pub pending_proposals: Seq<Seq<char>>,
    pub project_id: Seq<char>,
}

impl View for ProjectInfo {
    type V = ProjectInfoView;

    open spec fn view(&self) -> ProjectInfoView {
        ProjectInfoView {
            contract_ids: self.contract_ids@,
            metadata: self.metadata@,
            pending_proposals: self.pending_proposals@,
            project_id: self.project_id@,
        }
    }
}

/// Neither set of a project lists a member twice.
pub open spec fn project_wf(p: ProjectInfoView) -> bool {
    p.contract_ids.no_duplicates() && p.pending_proposals.no_duplicates()
}

impl ProjectInfo {
    /// Neither set of the project lists a member twice.
    pub open spec fn wf(&self) -> bool {
        project_wf(self@)
    }
}

/// A proposal that waits for the guardians' votes.
#[derive(Debug)]
pub struct ProposalInfo {
    pub project_info: ProjectInfo,
    pub kind: EProposalKind,
    /// The project to change; absent in a proposal for a new project.
    pub project_id: Option<String>,
    pub votes: StringSet,
    pub proposed_by: String,
}

/// A proposal as plain values.
pub ghost struct ProposalInfoView {
    pub project_info: ProjectInfoView,
    pub kind: EProposalKind,
    pub project_id: Option<Seq<char>>,
    pub votes: Seq<Seq<char>>,
    pub proposed_by: Seq<char>,
}

impl View for ProposalInfo {
    type V = ProposalInfoView;

    open spec fn view(&self) -> ProposalInfoView {
        ProposalInfoView {
            project_info: self.project_info@,
            kind: self.kind,
            project_id: match self.project_id {
                Some(id) => Some(id@),
                None => None,
            },
            votes: self.votes@,
            proposed_by: self.proposed_by@,
        }
    }
}

/// The proposal's project is well formed and no guardian is listed twice among its votes.
pub open spec fn proposal_wf(p: ProposalInfoView) -> bool {
    project_wf(p.project_info) && p.votes.no_duplicates()
}

impl ProposalInfo {
    /// The proposal's project is well formed and no guardian is listed twice among its votes.
    pub open spec fn wf(&self) -> bool {
        proposal_wf(self@)
    }
}

/// A project as an earlier layout of the state stored it.
#[derive(Debug)]
pub struct OldProjectInfo {
    pub contract_ids: StringSet,
    pub metadata: String,
    pub pending_proposals: StringSet,
}

impl View for OldProjectInfo {
    type V = (Seq<Seq<char>>, Seq<char>, Seq<Seq<char>>);

    open spec fn view(&self) -> (Seq<Seq<char>>, Seq<char>, Seq<Seq<char>>) {
        (self.contract_ids@, self.metadata@, self.pending_proposals@)
    }
}

/// A proposal as an earlier layout of the state stored it.
#[derive(Debug)]
pub struct OldProposalInfo {
    pub project_info: OldProjectInfo,
    pub kind: EProposalKind,
    pub project_id: Option<String>,
    pub votes: StringSet,
    pub proposed_by: String,
}

impl View for OldProposalInfo {
    type V = ((Seq<Seq<char>>, Seq<char>, Seq<Seq<char>>), EProposalKind, Option<Seq<char>>, Seq<Seq<char>>, Seq<char>);

    open spec fn view(&self) -> (
        (Seq<Seq<char>>, Seq<char>, Seq<Seq<char>>),
        EProposalKind,
        Option<Seq<char>>,
        Seq<Seq<char>>,
        Seq<char>,
    ) {
        (
            self.project_info@,
            self.kind,
            match self.project_id {
                Some(id) => Some(id@),
                None => None,
            },
            self.votes@,
            self.proposed_by@,
        )
    }
}

/// The state in its earlier layout, as a migration receives it.
pub struct OldContract {
    pub guardians: StringSet,
    pub contract_project_index: OrderedMap<String>,
    pub proposals: OrderedMap<OldProposalInfo>,
    pub approved_projects: OrderedMap<OldProjectInfo>,
    pub running_id: u32,
}

/// Why a call was turned down. A call that is turned down changes nothing.
#[derive(Debug, PartialEq, Eq)]
pub enum WhitelistError {
    /// The caller may not make this call.
    Unauthorized,
    /// The attached payment is not exactly one whole token.
    InvalidDeposit,
    /// The project identifier is empty.
    EmptyProjectId,
    /// The project identifier holds a character that is neither letter nor digit.
    ProjectIdNotAlphanumeric,
    /// The metadata does not decode.
    InvalidMetadata,
    /// An approved project has the identifier already.
    ProjectIdOccupied,
    /// A contract of the proposal belongs to an approved project already.
    ContractClaimed { contract_id: String, project_id: String },
    /// The identifier made for the proposal is in use.
    IdCollision,
    /// The running counter cannot be advanced any further.
    CounterExhausted,
    /// No approved project has the identifier.
    ProjectNotFound,
    /// No pending proposal has the identifier.
    ProposalNotFound,
    /// The guardian has no vote on the proposal to withdraw.
    VoteNotFound,
}

/// An error as plain values.
pub ghost enum WhitelistErrorView {
    Unauthorized,
    InvalidDeposit,
    EmptyProjectId,
    ProjectIdNotAlphanumeric,
    InvalidMetadata,
    ProjectIdOccupied,
    ContractClaimed { contract_id: Seq<char>, project_id: Seq<char> },
    IdCollision,
    CounterExhausted,
    ProjectNotFound,
    ProposalNotFound,
    VoteNotFound,
}

impl View for WhitelistError {
    type V = WhitelistErrorView;

    open spec fn view(&self) -> WhitelistErrorView {
        match self {
            WhitelistError::Unauthorized => WhitelistErrorView::Unauthorized,
            WhitelistError::InvalidDeposit => WhitelistErrorView::InvalidDeposit,
            WhitelistError::EmptyProjectId => WhitelistErrorView::EmptyProjectId,
            WhitelistError::ProjectIdNotAlphanumeric => WhitelistErrorView::ProjectIdNotAlphanumeric,
            WhitelistError::InvalidMetadata => WhitelistErrorView::InvalidMetadata,
            WhitelistError::ProjectIdOccupied => WhitelistErrorView::ProjectIdOccupied,
            WhitelistError::ContractClaimed { contract_id, project_id } => WhitelistErrorView::ContractClaimed {
                contract_id: contract_id@,
                project_id: project_id@,
            },
            WhitelistError::IdCollision => WhitelistErrorView::IdCollision,
            WhitelistError::CounterExhausted => WhitelistErrorView::CounterExhausted,
            WhitelistError::ProjectNotFound => WhitelistErrorView::ProjectNotFound,
            WhitelistError::ProposalNotFound => WhitelistErrorView::ProposalNotFound,
            WhitelistError::VoteNotFound => WhitelistErrorView::VoteNotFound,
        }
    }
}

/// The classes of failure that callers tell apart.
#[derive(Clone, Copy, Debug, PartialEq, Eq, Structural)]
pub enum ErrorKind {
    Unauthorized,
    InvalidDeposit,
    InvalidInput,
    NotFound,
    Conflict,
    VoteNotFound,
    Exhausted,
}

/// The class of an error.
pub open spec fn kind_of(e: WhitelistErrorView) -> ErrorKind {
    match e {
        WhitelistErrorView::Unauthorized => ErrorKind::Unauthorized,
        WhitelistErrorView::InvalidDeposit => ErrorKind::InvalidDeposit,
        WhitelistErrorView::EmptyProjectId => ErrorKind::InvalidInput,
        WhitelistErrorView::ProjectIdNotAlphanumeric => ErrorKind::InvalidInput,
        WhitelistErrorView::InvalidMetadata => ErrorKind::InvalidInput,
        WhitelistErrorView::ProjectIdOccupied => ErrorKind::Conflict,
        WhitelistErrorView::ContractClaimed { .. } => ErrorKind::Conflict,
        WhitelistErrorView::IdCollision => ErrorKind::Conflict,
        WhitelistErrorView::CounterExhausted => ErrorKind::Exhausted,
        WhitelistErrorView::ProjectNotFound => ErrorKind::NotFound,
        WhitelistErrorView::ProposalNotFound => ErrorKind::NotFound,
        WhitelistErrorView::VoteNotFound => ErrorKind::VoteNotFound,
    }
}

impl WhitelistError {
    /// The class of the error.
    pub fn kind(&self) -> (r: ErrorKind)
        ensures
            r == kind_of(self@),
    {
        match self {
            WhitelistError::Unauthorized => ErrorKind::Unauthorized,
            WhitelistError::InvalidDeposit => ErrorKind::InvalidDeposit,
            WhitelistError::EmptyProjectId => ErrorKind::InvalidInput,
            WhitelistError::ProjectIdNotAlphanumeric => ErrorKind::InvalidInput,
            WhitelistError::InvalidMetadata => ErrorKind::InvalidInput,
            WhitelistError::ProjectIdOccupied => ErrorKind::Conflict,
            WhitelistError::ContractClaimed { .. } => ErrorKind::Conflict,
            WhitelistError::IdCollision => ErrorKind::Conflict,
            WhitelistError::CounterExhausted => ErrorKind::Exhausted,
            WhitelistError::ProjectNotFound => ErrorKind::NotFound,
            WhitelistError::ProposalNotFound => ErrorKind::NotFound,
            WhitelistError::VoteNotFound => ErrorKind::VoteNotFound,
        }
    }
}

/// What a vote that reached the quorum did to the approved projects.
#[derive(Clone, Copy, Debug, PartialEq, Eq, Structural)]
pub enum ProposalEffect {
    /// The quorum is not reached: the proposal stays pending.
    Pending,
    /// The new project was approved.
    ProjectAdded,
    /// Nothing was added: an approved project has the identifier already.
    ProjectIdOccupied,
    /// The project was replaced by the proposed content.
    ProjectUpdated,
    /// Nothing was changed: the proposal names no project.
    TargetMissing,
    /// Nothing was changed: the project named is not approved any more.
    TargetNotFound,
}

/// What a successful vote asks of the host and reports to it.
#[derive(Debug)]
pub struct VoteReceipt {
    /// The proposer who gets the deposit back, where the vote reached the quorum.
    pub refund_to: Option<String>,
    /// The amount to hand back, in the smallest units of the native token.
    pub refund_amount: u128,
    /// What the vote did.
    pub effect: ProposalEffect,
    /// The contracts that the project did not get because another project
    /// has them, each with that project's identifier.
    pub passed_over: Vec<(String, String)>,
}

/// A receipt as plain values.
pub ghost struct VoteReceiptView {
    pub refund_to: Option<Seq<char>>,
    pub refund_amount: u128,
    pub effect: ProposalEffect,
    pub passed_over: Seq<(Seq<char>, Seq<char>)>,
}

/// The texts of a sequence of pairs of strings.
pub open spec fn pair_texts(v: Seq<(String, String)>) -> Seq<(Seq<char>, Seq<char>)> {
    Seq::new(v.len(), |i: int| (v[i].0@, v[i].1@))
}

impl View for VoteReceipt {
    type V = VoteReceiptView;

    open spec fn view(&self) -> VoteReceiptView {
        VoteReceiptView {
            refund_to: match self.refund_to {
                Some(a) => Some(a@),
                None => None,
            },
            refund_amount: self.refund_amount,
            effect: self.effect,
            passed_over: pair_texts(self.passed_over@),
        }
    }
}

} // verus!

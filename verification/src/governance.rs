//! Proposals and votes in the shape of the Cosmos SDK's governance queries.

use crate::chain::{
    estimate_time, estimated_time, get_block_time, is_usable_sample, sample_failure, sampled_rate,
    BlockHeader, BlockTime, ChainHead, SAMPLE_WINDOW,
};
use crate::codec::{timestamp_text, utc_timestamp};
use crate::decimal::{append_decimal, decimal, decimal_text};
use crate::error::{
    error_document, error_json, error_reply, GatewayError, Reply, CODE_INVALID_ARGUMENT,
    STATUS_BAD_REQUEST, STATUS_OK,
};
use crate::identity::{identity_key_text, IdentityKey, IDENTITY_KEY_LEN};
use crate::json::{
    append, items, items_view, list, page, page_json, same_text, text, Json, JsonValue,
};
use vstd::prelude::*;

verus! {

pub const PROPOSAL_STATUS_VOTING_PERIOD: &'static str = "PROPOSAL_STATUS_VOTING_PERIOD";

pub const PROPOSAL_STATUS_PASSED: &'static str = "PROPOSAL_STATUS_PASSED";

pub const PROPOSAL_STATUS_REJECTED: &'static str = "PROPOSAL_STATUS_REJECTED";

pub const PROPOSAL_STATUS_UNSPECIFIED: &'static str = "ProposalStatus_PROPOSAL_STATUS_UNSPECIFIED";

pub const VOTE_OPTION_YES: &'static str = "VOTE_OPTION_YES";

pub const VOTE_OPTION_NO: &'static str = "VOTE_OPTION_NO";

pub const VOTE_OPTION_UNSPECIFIED: &'static str = "VOTE_OPTION_UNSPECIFIED";

/// Type tag of the content of every proposal.
pub const PROPOSAL_CONTENT_TYPE: &'static str = "penumbra.core.component.governance.v1.Signaling";

// The native chain has no counterpart for the values below: they are fixed.
pub const TALLY_COUNT: &'static str = "0";

pub const SUBMIT_TIME: &'static str = "1970-01-01T00:00:00.000Z";

pub const DEPOSIT_END_TIME: &'static str = "1970-01-01T00:00:00.000Z";

/// Weight of the one choice of a vote: the whole vote.
pub const VOTE_WEIGHT: &'static str = "1.000000000000000000";

/// How a concluded proposal ended.
#[derive(Clone, Copy, Debug, PartialEq, Eq)]
pub enum Outcome {
    Passed,
    Failed,
    Slashed,
}

/// Where a proposal stands in its life cycle.
#[derive(Clone, Copy, Debug, PartialEq, Eq)]
pub enum ProposalState {
    Voting,
    Withdrawn,
    Finished { outcome: Option<Outcome> },
    Claimed { outcome: Option<Outcome> },
}

/// What a proposal says.
#[derive(Debug, PartialEq, Eq)]
pub struct Proposal {
    pub id: u64,
    pub title: String,
    pub description: String,
}

/// A proposal as the native chain reports it.
#[derive(Debug, PartialEq, Eq)]
pub struct ProposalRecord {
    pub proposal: Option<Proposal>,
    pub state: Option<ProposalState>,
    pub start_block_height: u64,
    pub end_block_height: u64,
}

/// One validator's vote on a proposal as the native chain reports it: the
/// bytes of the validator's identity key and the number of its choice.
#[derive(Debug, PartialEq, Eq)]
pub struct VoteRecord {
    pub identity_key: Option<Vec<u8>>,
    pub vote: Option<i32>,
}

/// The status under which the governance queries list a proposal.
pub open spec fn proposal_status(state: ProposalState) -> Seq<char> {
    match state {
        ProposalState::Voting => PROPOSAL_STATUS_VOTING_PERIOD@,
        ProposalState::Finished { outcome: Some(Outcome::Passed) } => PROPOSAL_STATUS_PASSED@,
        ProposalState::Finished { outcome: Some(Outcome::Failed) } => PROPOSAL_STATUS_REJECTED@,
        _ => PROPOSAL_STATUS_UNSPECIFIED@,
    }
}

/// The option that the governance queries report for the native choice
/// number `choice`.
pub open spec fn vote_option(choice: i32) -> Seq<char> {
    if choice == 3 {
        VOTE_OPTION_NO@
    } else if choice == 1 || choice == 2 {
        VOTE_OPTION_YES@
    } else {
        VOTE_OPTION_UNSPECIFIED@
    }
}

/// The document for a date: its text, or null where there is none.
pub open spec fn date_json(date: Option<Seq<char>>) -> JsonValue {
    match date {
        Some(written) => JsonValue::Text(written),
        None => JsonValue::Null,
    }
}

/// The date of an estimated time: there is one where the estimate is a
/// number of seconds that fits in 64 bits and lies in the range of dates.
pub open spec fn date_of(secs: int) -> Option<Seq<char>> {
    if i64::MIN <= secs <= i64::MAX {
        utc_timestamp(secs as i64)
    } else {
        None
    }
}

/// The document for an estimated time: its date, or null where it has
/// none.
pub open spec fn time_json(secs: int) -> JsonValue {
    date_json(date_of(secs))
}

/// The document that describes a proposal under the identifier
/// `proposal_id`, given the documents for the start and the end of its
/// voting period.
pub open spec fn proposal_json_of(
    proposal_id: u64,
    proposal: Proposal,
    state: ProposalState,
    voting_start: JsonValue,
    voting_end: JsonValue,
) -> JsonValue {
    JsonValue::object().with("proposal_id"@, JsonValue::Text(decimal(proposal_id as nat))).with(
        "content"@,
        JsonValue::object().with("@type"@, JsonValue::Text(PROPOSAL_CONTENT_TYPE@)).with(
            "title"@,
            JsonValue::Text(proposal.title@),
        ).with("description"@, JsonValue::Text(proposal.description@)),
    ).with("status"@, JsonValue::Text(proposal_status(state))).with(
        "final_tally_result"@,
        JsonValue::object().with("yes"@, JsonValue::Text(TALLY_COUNT@)).with(
            "abstain"@,
            JsonValue::Text(TALLY_COUNT@),
        ).with("no"@, JsonValue::Text(TALLY_COUNT@)).with(
            "no_with_veto"@,
            JsonValue::Text(TALLY_COUNT@),
        ),
    ).with("submit_time"@, JsonValue::Text(SUBMIT_TIME@)).with(
        "deposit_end_time"@,
        JsonValue::Text(DEPOSIT_END_TIME@),
    ).with("total_deposit"@, JsonValue::List(Seq::empty())).with(
        "voting_start_time"@,
        voting_start,
    ).with("voting_end_time"@, voting_end)
}

/// The document that describes a proposal under the identifier
/// `proposal_id`, with the times of its voting period estimated from the
/// head of the chain and the average block time.
pub open spec fn proposal_json(
    proposal_id: u64,
    proposal: Proposal,
    state: ProposalState,
    head: ChainHead,
    start_block_height: u64,
    end_block_height: u64,
    block_time: BlockTime,
) -> JsonValue {
    proposal_json_of(
        proposal_id,
        proposal,
        state,
        time_json(estimated_time(head, start_block_height, block_time)),
        time_json(estimated_time(head, end_block_height, block_time)),
    )
}

/// Whether the record carries both the proposal and its state.
pub open spec fn is_complete(record: ProposalRecord) -> bool {
    record.proposal is Some && record.state is Some
}

/// The document that describes a complete record under the identifier
/// `proposal_id`.
pub open spec fn record_json(
    proposal_id: u64,
    record: ProposalRecord,
    head: ChainHead,
    block_time: BlockTime,
) -> JsonValue {
    proposal_json(
        proposal_id,
        record.proposal->0,
        record.state->0,
        head,
        record.start_block_height,
        record.end_block_height,
        block_time,
    )
}

/// The answer to a query for one proposal.
pub open spec fn proposal_answer(
    proposal_id: u64,
    record: ProposalRecord,
    head: ChainHead,
    block_time: BlockTime,
) -> JsonValue {
    JsonValue::object().with("proposal"@, record_json(proposal_id, record, head, block_time))
}

/// The answer to a query for all proposals: each record's document, under
/// the identifier that the proposal carries, and their number.
pub open spec fn proposals_answer(
    records: Seq<ProposalRecord>,
    head: ChainHead,
    block_time: BlockTime,
) -> JsonValue {
    page_json(
        "proposals"@,
        records.map_values(|r: ProposalRecord| record_json(r.proposal->0.id, r, head, block_time)),
    )
}

/// The status under which the governance queries list a proposal in the
/// state `state`; every state has one.
pub fn proposal_status_text(state: &ProposalState) -> (status: &'static str)
    ensures
        status@ == proposal_status(*state),
{
    match state {
        ProposalState::Voting => PROPOSAL_STATUS_VOTING_PERIOD,
        ProposalState::Finished { outcome: Some(Outcome::Passed) } => PROPOSAL_STATUS_PASSED,
        ProposalState::Finished { outcome: Some(Outcome::Failed) } => PROPOSAL_STATUS_REJECTED,
        _ => PROPOSAL_STATUS_UNSPECIFIED,
    }
}

/// Writes the document for a date: its text, or null where there is none.
pub fn date_document(date: Option<String>) -> (doc: Json)
    ensures
        doc@ == date_json(
            match date {
                Some(written) => Some(written@),
                None => None,
            },
        ),
{
    match date {
        Some(written) => Json::Text(written),
        None => Json::Null,
    }
}

/// The document for the estimated time at which the chain is at `height`.
pub fn estimated_time_document(head: &ChainHead, height: u64, block_time: &BlockTime) -> (doc:
    Json)
    ensures
        doc@ == time_json(estimated_time(*head, height, *block_time)),
{
    let date: Option<String> = match estimate_time(head, height, block_time) {
        Some(secs) => timestamp_text(secs),
        None => None,
    };
    date_document(date)
}

/// Writes the document that describes a proposal under the identifier
/// `proposal_id`, given the documents for the start and the end of its
/// voting period.
pub fn proposal_document(
    proposal_id: u64,
    proposal: &Proposal,
    state: &ProposalState,
    voting_start: Json,
    voting_end: Json,
) -> (doc: Json)
    ensures
        doc@ == proposal_json_of(proposal_id, *proposal, *state, voting_start@, voting_end@),
{
    let content = Json::object().with("@type", text(PROPOSAL_CONTENT_TYPE)).with(
        "title",
        text(proposal.title.as_str()),
    ).with("description", text(proposal.description.as_str()));
    let tally = Json::object().with("yes", text(TALLY_COUNT)).with(
        "abstain",
        text(TALLY_COUNT),
    ).with("no", text(TALLY_COUNT)).with("no_with_veto", text(TALLY_COUNT));
    Json::object().with("proposal_id", Json::Text(decimal_text(proposal_id as u128))).with(
        "content",
        content,
    ).with("status", text(proposal_status_text(state))).with("final_tally_result", tally).with(
        "submit_time",
        text(SUBMIT_TIME),
    ).with("deposit_end_time", text(DEPOSIT_END_TIME)).with("total_deposit", list(items())).with(
        "voting_start_time",
        voting_start,
    ).with("voting_end_time", voting_end)
}

/// Maps one proposal to its document.
pub fn map_proposal(
    proposal_id: u64,
    proposal: &Proposal,
    state: &ProposalState,
    head: &ChainHead,
    start_block_height: u64,
    end_block_height: u64,
    block_time: &BlockTime,
) -> (doc: Json)
    ensures
        doc@ == proposal_json(
            proposal_id,
            *proposal,
            *state,
            *head,
            start_block_height,
            end_block_height,
            *block_time,
        ),
{
    let voting_start = estimated_time_document(head, start_block_height, block_time);
    let voting_end = estimated_time_document(head, end_block_height, block_time);
    proposal_document(proposal_id, proposal, state, voting_start, voting_end)
}

/// Answers a query for the proposal `proposal_id` from the record that the
/// chain holds under that identifier.
///
/// Fails with `MissingField` where the record lacks the proposal or its
/// state.
pub fn proposal(
    proposal_id: u64,
    record: &ProposalRecord,
    head: &ChainHead,
    block_time: &BlockTime,
) -> (doc: Result<Json, GatewayError>)
    ensures
        is_complete(*record) ==> (doc matches Ok(d) && d@ == proposal_answer(
            proposal_id,
            *record,
            *head,
            *block_time,
        )),
        !is_complete(*record) ==> doc == Err::<Json, GatewayError>(GatewayError::MissingField),
{
    match (&record.proposal, &record.state) {
        (Some(body), Some(state)) => {
            let mapped = map_proposal(
                proposal_id,
                body,
                state,
                head,
                record.start_block_height,
                record.end_block_height,
                block_time,
            );
            Ok(Json::object().with("proposal", mapped))
        },
        _ => Err(GatewayError::MissingField),
    }
}

/// Answers a query for all proposals.
///
/// Fails with `MissingField` where a record lacks the proposal or its
/// state.
pub fn proposals(records: &Vec<ProposalRecord>, head: &ChainHead, block_time: &BlockTime) -> (doc:
    Result<Json, GatewayError>)
    ensures
        (forall|i: int| 0 <= i < records@.len() ==> is_complete(#[trigger] records@[i]))
            ==> (doc matches Ok(d) && d@ == proposals_answer(records@, *head, *block_time)),
        (exists|i: int| 0 <= i < records@.len() && !is_complete(#[trigger] records@[i])) ==> doc
            == Err::<Json, GatewayError>(GatewayError::MissingField),
{
    let mut docs = items();
    let mut i: usize = 0;
    while i < records.len()
        invariant
            i <= records.len(),
            docs@.len() == i,
            forall|j: int| 0 <= j < i ==> is_complete(#[trigger] records@[j]),
            items_view(docs@) =~= records@.take(i as int).map_values(
                |r: ProposalRecord| record_json(r.proposal->0.id, r, *head, *block_time),
            ),
        decreases records.len() - i,
    {
        let record = &records[i];
        match (&record.proposal, &record.state) {
            (Some(body), Some(state)) => {
                let mapped = map_proposal(
                    body.id,
                    body,
                    state,
                    head,
                    record.start_block_height,
                    record.end_block_height,
                    block_time,
                );
                append(&mut docs, mapped);
            },
            _ => {
                return Err(GatewayError::MissingField);
            },
        }
        i += 1;
    }
    assert(records@.take(i as int) =~= records@);
    Ok(page("proposals", docs))
}

/// Answers a query for the proposal `proposal_id` from the record that the
/// chain holds under that identifier, the head of the chain and the header
/// sampled at `sample_height(head)`, from which the block time is averaged.
///
/// Fails with `ChainTooYoung` where the head is within the sampling window
/// of the first block, and as `get_block_time` does on any other sample that
/// is not usable; with a usable sample, fails with `MissingField` where the
/// record lacks the proposal or its state.
pub fn proposal_at(
    proposal_id: u64,
    record: &ProposalRecord,
    head: &ChainHead,
    sample: Option<BlockHeader>,
) -> (doc: Result<Json, GatewayError>)
    ensures
        head.height <= SAMPLE_WINDOW ==> doc == Err::<Json, GatewayError>(
            GatewayError::ChainTooYoung,
        ),
        !is_usable_sample(*head, sample) ==> doc == Err::<Json, GatewayError>(
            sample_failure(*head, sample),
        ),
        is_usable_sample(*head, sample) && !is_complete(*record) ==> doc == Err::<
            Json,
            GatewayError,
        >(GatewayError::MissingField),
        is_usable_sample(*head, sample) && is_complete(*record) ==> (doc matches Ok(d) && d@
            == proposal_answer(proposal_id, *record, *head, sampled_rate(*head, sample))),
{
    match get_block_time(head, sample) {
        Ok(block_time) => proposal(proposal_id, record, head, &block_time),
        Err(e) => Err(e),
    }
}

/// Answers a query for all proposals from the records that the chain
/// holds, the head of the chain and the header sampled at
/// `sample_height(head)`, from which the block time is averaged once for
/// all of them.
///
/// Fails with `ChainTooYoung` where the head is within the sampling window
/// of the first block, and as `get_block_time` does on any other sample that
/// is not usable; with a usable sample, fails with `MissingField` where a
/// record lacks the proposal or its state.
pub fn proposals_at(records: &Vec<ProposalRecord>, head: &ChainHead, sample: Option<BlockHeader>) -> (doc:
    Result<Json, GatewayError>)
    ensures
        head.height <= SAMPLE_WINDOW ==> doc == Err::<Json, GatewayError>(
            GatewayError::ChainTooYoung,
        ),
        !is_usable_sample(*head, sample) ==> doc == Err::<Json, GatewayError>(
            sample_failure(*head, sample),
        ),
        is_usable_sample(*head, sample) && (exists|i: int|
            0 <= i < records@.len() && !is_complete(#[trigger] records@[i])) ==> doc == Err::<
            Json,
            GatewayError,
        >(GatewayError::MissingField),
        is_usable_sample(*head, sample) && (forall|i: int|
            0 <= i < records@.len() ==> is_complete(#[trigger] records@[i])) ==> (doc matches Ok(
            d,
        ) && d@ == proposals_answer(records@, *head, sampled_rate(*head, sample))),
{
    match get_block_time(head, sample) {
        Ok(block_time) => proposals(records, head, &block_time),
        Err(e) => Err(e),
    }
}

/// Start of the message that reports a voter without a vote.
pub const NOT_FOUND_PREFIX: &'static str = "voter: ";

/// What the message that reports a voter without a vote says between the
/// voter and the proposal.
pub const NOT_FOUND_INFIX: &'static str = " not found for proposal: ";

/// A vote as the scan reads it: the voter's identity key in its text form,
/// or the failure that left the record without one, and the choice.
#[derive(Debug, PartialEq, Eq)]
pub struct WrittenVote {
    pub voter: Result<String, GatewayError>,
    pub vote: Option<i32>,
}

/// The model of a vote as the scan reads it.
pub struct WrittenVoteView {
    pub voter: Result<Seq<char>, GatewayError>,
    pub vote: Option<i32>,
}

impl View for WrittenVote {
    type V = WrittenVoteView;

    open spec fn view(&self) -> WrittenVoteView {
        WrittenVoteView {
            voter: match self.voter {
                Ok(name) => Ok(name@),
                Err(e) => Err(e),
            },
            vote: self.vote,
        }
    }
}

/// The models of a run of votes, in order.
pub open spec fn written_view(votes: Seq<WrittenVote>) -> Seq<WrittenVoteView> {
    votes.map_values(|w: WrittenVote| w@)
}

/// How the scan reads a record: the key in its Bech32m text form; a record
/// without key is a missing field, a key that has not 32 bytes is
/// malformed.
pub open spec fn written(record: VoteRecord) -> WrittenVoteView {
    WrittenVoteView {
        voter: match record.identity_key {
            None => Err(GatewayError::MissingField),
            Some(key) => if key@.len() != IDENTITY_KEY_LEN {
                Err(GatewayError::MalformedIdentity)
            } else {
                Ok(identity_key_text(key@))
            },
        },
        vote: record.vote,
    }
}

/// What the scan for the vote of `voter` comes to. The votes are read in
/// order, up to the first that is the voter's: its choice is the result. A
/// vote whose voter could not be written ends the scan, where it is
/// reached, with the failure that it carries.
pub open spec fn pick_vote(votes: Seq<WrittenVoteView>, voter: Seq<char>) -> Result<
    i32,
    GatewayError,
>
    decreases votes.len(),
{
    if votes.len() == 0 {
        Err(GatewayError::VoterNotFound)
    } else {
        match votes[0].voter {
            Err(e) => Err(e),
            Ok(name) => if name == voter {
                match votes[0].vote {
                    Some(choice) => Ok(choice),
                    None => Err(GatewayError::VoteMissingChoice),
                }
            } else {
                pick_vote(votes.skip(1), voter)
            },
        }
    }
}

/// What the scan of the native records for the vote of `voter` comes to.
pub open spec fn find_vote(votes: Seq<VoteRecord>, voter: Seq<char>) -> Result<
    i32,
    GatewayError,
> {
    pick_vote(votes.map_values(|r: VoteRecord| written(r)), voter)
}

/// The message that reports that `voter` has no vote on the proposal.
pub open spec fn not_found_message(voter: Seq<char>, proposal_id: u64) -> Seq<char> {
    NOT_FOUND_PREFIX@ + voter + NOT_FOUND_INFIX@ + decimal(proposal_id as nat)
}

/// The document that reports the vote of `voter` for the native choice
/// number `choice`: one option, with the whole weight.
pub open spec fn vote_json(voter: Seq<char>, proposal_id: u64, choice: i32) -> JsonValue {
    JsonValue::object().with(
        "vote"@,
        JsonValue::object().with(
            "proposal_id"@,
            JsonValue::Text(decimal(proposal_id as nat)),
        ).with("voter"@, JsonValue::Text(voter)).with(
            "option"@,
            JsonValue::Text(vote_option(choice)),
        ).with(
            "options"@,
            JsonValue::List(
                Seq::empty().push(
                    JsonValue::object().with("option"@, JsonValue::Text(vote_option(choice))).with(
                        "weight"@,
                        JsonValue::Text(VOTE_WEIGHT@),
                    ),
                ),
            ),
        ),
    )
}

/// The status of the reply to a query for a vote.
pub open spec fn vote_reply_status(found: Result<i32, GatewayError>) -> u16 {
    match found {
        Ok(_) => STATUS_OK,
        Err(e) => e.status(),
    }
}

/// The document of the reply to a query for a vote. A voter without a
/// vote, or with a vote without a choice, is reported as not found, by
/// name and with the proposal.
pub open spec fn vote_reply_body(
    found: Result<i32, GatewayError>,
    voter: Seq<char>,
    proposal_id: u64,
) -> JsonValue {
    match found {
        Ok(choice) => vote_json(voter, proposal_id, choice),
        Err(e) => if e.is_client_error() {
            error_json(CODE_INVALID_ARGUMENT, not_found_message(voter, proposal_id))
        } else {
            error_json(e.code(), e.message())
        },
    }
}

/// The option that the governance queries report for the native choice
/// number `choice`: no for 3, yes for 1 and for 2, unspecified for any
/// other number.
pub fn vote_option_text(choice: i32) -> (option: &'static str)
    ensures
        option@ == vote_option(choice),
        choice == 3 ==> option@ == VOTE_OPTION_NO@,
        choice == 1 || choice == 2 ==> option@ == VOTE_OPTION_YES@,
        choice != 1 && choice != 2 && choice != 3 ==> option@ == VOTE_OPTION_UNSPECIFIED@,
{
    if choice == 3 {
        VOTE_OPTION_NO
    } else if choice == 2 {
        VOTE_OPTION_YES
    } else if choice == 1 {
        VOTE_OPTION_YES
    } else {
        VOTE_OPTION_UNSPECIFIED
    }
}

/// Reads one native record for the scan.
pub fn write_vote(record: &VoteRecord) -> (vote: WrittenVote)
    ensures
        vote@ == written(*record),
{
    let voter: Result<String, GatewayError> = match &record.identity_key {
        None => Err(GatewayError::MissingField),
        Some(bytes) => match IdentityKey::from_bytes(bytes) {
            None => Err(GatewayError::MalformedIdentity),
            Some(key) => Ok(key.to_text()),
        },
    };
    WrittenVote { voter, vote: record.vote }
}

/// Reads the native records for the scan, in order.
pub fn write_votes(records: &Vec<VoteRecord>) -> (votes: Vec<WrittenVote>)
    ensures
        written_view(votes@) == records@.map_values(|r: VoteRecord| written(r)),
{
    let mut votes: Vec<WrittenVote> = Vec::new();
    let mut i: usize = 0;
    while i < records.len()
        invariant
            i <= records.len(),
            votes@.len() == i,
            forall|j: int| 0 <= j < i ==> (#[trigger] votes@[j])@ == written(records@[j]),
        decreases records.len() - i,
    {
        votes.push(write_vote(&records[i]));
        i += 1;
    }
    assert(written_view(votes@) =~= records@.map_values(|r: VoteRecord| written(r)));
    votes
}

/// Scans `votes` for the vote of `voter`.
pub fn scan_votes(votes: &Vec<WrittenVote>, voter: &str) -> (found: Result<i32, GatewayError>)
    ensures
        found == pick_vote(written_view(votes@), voter@),
{
    let ghost all = written_view(votes@);
    let mut i: usize = 0;
    assert(all.skip(0) =~= all);
    while i < votes.len()
        invariant
            i <= votes.len(),
            all == written_view(votes@),
            pick_vote(all, voter@) == pick_vote(all.skip(i as int), voter@),
        decreases votes.len() - i,
    {
        let vote = &votes[i];
        let ghost rest = all.skip(i as int);
        assert(rest[0] == votes@[i as int]@);
        assert(rest.skip(1) =~= all.skip(i + 1));
        match &vote.voter {
            Err(e) => {
                return Err(*e);
            },
            Ok(name) => {
                if same_text(name.as_str(), voter) {
                    return match vote.vote {
                        Some(choice) => Ok(choice),
                        None => Err(GatewayError::VoteMissingChoice),
                    };
                }
            },
        }
        i += 1;
    }
    Err(GatewayError::VoterNotFound)
}

/// Writes the message that reports that `voter` has no vote on the
/// proposal.
pub fn not_found_text(voter: &str, proposal_id: u64) -> (message: String)
    ensures
        message@ == not_found_message(voter@, proposal_id),
{
    let mut message: String = NOT_FOUND_PREFIX.to_owned();
    message.append(voter);
    message.append(NOT_FOUND_INFIX);
    append_decimal(&mut message, proposal_id as u128);
    message
}

/// Writes the document that reports a vote.
pub fn vote_document(voter: &str, proposal_id: u64, choice: i32) -> (doc: Json)
    ensures
        doc@ == vote_json(voter@, proposal_id, choice),
{
    let option: &'static str = vote_option_text(choice);
    let weighted = Json::object().with("option", text(option)).with("weight", text(VOTE_WEIGHT));
    let mut options = items();
    append(&mut options, weighted);
    let vote = Json::object().with(
        "proposal_id",
        Json::Text(decimal_text(proposal_id as u128)),
    ).with("voter", text(voter)).with("option", text(option)).with("options", list(options));
    Json::object().with("vote", vote)
}

/// Writes the reply to a query for a vote from what the scan came to.
///
/// The reply carries the vote; a client error that names the voter and the
/// proposal where the voter has no vote or a vote without a choice; a
/// server error for any other failure.
pub fn vote_reply(found: Result<i32, GatewayError>, voter: &str, proposal_id: u64) -> (reply: Reply)
    ensures
        reply.status == vote_reply_status(found),
        reply.body@ == vote_reply_body(found, voter@, proposal_id),
{
    match found {
        Ok(choice) => Reply { status: STATUS_OK, body: vote_document(voter, proposal_id, choice) },
        Err(GatewayError::VoterNotFound) | Err(GatewayError::VoteMissingChoice) => Reply {
            status: STATUS_BAD_REQUEST,
            body: error_document(CODE_INVALID_ARGUMENT, not_found_text(voter, proposal_id)),
        },
        Err(e) => error_reply(e),
    }
}

/// Answers a query for the vote of `voter` on the proposal `proposal_id`
/// from all the votes that validators cast on it: each record's key is
/// written in its text form, and the votes are scanned for the voter.
pub fn get_vote(voter: &str, proposal_id: u64, votes: &Vec<VoteRecord>) -> (reply: Reply)
    ensures
        reply.status == vote_reply_status(find_vote(votes@, voter@)),
        reply.body@ == vote_reply_body(find_vote(votes@, voter@), voter@, proposal_id),
{
    let read = write_votes(votes);
    vote_reply(scan_votes(&read, voter), voter, proposal_id)
}


/// The scan comes to the choice of the first vote that is the voter's,
/// where every vote before it is written and is another voter's.
pub proof fn lemma_first_vote_counts(votes: Seq<WrittenVoteView>, voter: Seq<char>, i: int)
    requires
        0 <= i < votes.len(),
        votes[i].voter == Ok::<Seq<char>, GatewayError>(voter),
        forall|j: int|
            0 <= j < i ==> (#[trigger] votes[j]).voter is Ok && votes[j].voter->Ok_0 != voter,
    ensures
        pick_vote(votes, voter) == match votes[i].vote {
            Some(choice) => Ok::<i32, GatewayError>(choice),
            None => Err::<i32, GatewayError>(GatewayError::VoteMissingChoice),
        },
    decreases i,
{
    if i > 0 {
        let rest = votes.skip(1);
        assert(votes[0].voter is Ok && votes[0].voter->Ok_0 != voter);
        assert(rest[i - 1] == votes[i]);
        assert forall|j: int| 0 <= j < i - 1 implies (#[trigger] rest[j]).voter is Ok
            && rest[j].voter->Ok_0 != voter by {
            assert(rest[j] == votes[j + 1]);
        }
        lemma_first_vote_counts(rest, voter, i - 1);
    }
}

/// Whether every record carries a well-formed identity key that is not the
/// voter's.
pub open spec fn voter_is_absent(votes: Seq<VoteRecord>, voter: Seq<char>) -> bool {
    forall|i: int|
        0 <= i < votes.len() ==> {
            &&& (#[trigger] votes[i]).identity_key matches Some(key)
            &&& key@.len() == IDENTITY_KEY_LEN
            &&& identity_key_text(key@) != voter
        }
}

/// A voter who is absent from the votes on a proposal is answered with a
/// client error whose message names the voter and the proposal.
pub proof fn lemma_absent_voter_is_not_found(
    votes: Seq<VoteRecord>,
    voter: Seq<char>,
    proposal_id: u64,
)
    requires
        voter_is_absent(votes, voter),
    ensures
        find_vote(votes, voter) == Err::<i32, GatewayError>(GatewayError::VoterNotFound),
        vote_reply_status(find_vote(votes, voter)) == STATUS_BAD_REQUEST,
        vote_reply_body(find_vote(votes, voter), voter, proposal_id) == error_json(
            CODE_INVALID_ARGUMENT,
            NOT_FOUND_PREFIX@ + voter + NOT_FOUND_INFIX@ + decimal(proposal_id as nat),
        ),
    decreases votes.len(),
{
    let f = |r: VoteRecord| written(r);
    if votes.len() > 0 {
        let rest = votes.skip(1);
        assert(votes[0].identity_key is Some);
        assert(votes.map_values(f)[0] == written(votes[0]));
        assert(votes.map_values(f).skip(1) =~= rest.map_values(f));
        assert forall|i: int| 0 <= i < rest.len() implies {
            &&& (#[trigger] rest[i]).identity_key matches Some(key)
            &&& key@.len() == IDENTITY_KEY_LEN
            &&& identity_key_text(key@) != voter
        } by {
            assert(rest[i] == votes[i + 1]);
        }
        lemma_absent_voter_is_not_found(rest, voter, proposal_id);
    }
}

/// Whether two vote records hold the same key bytes and the same choice.
pub open spec fn same_vote(a: VoteRecord, b: VoteRecord) -> bool {
    &&& a.vote == b.vote
    &&& a.identity_key is Some <==> b.identity_key is Some
    &&& a.identity_key is Some ==> a.identity_key->0@ == b.identity_key->0@
}

/// Whether two runs of vote records hold the same, record by record.
pub open spec fn same_votes(a: Seq<VoteRecord>, b: Seq<VoteRecord>) -> bool {
    &&& a.len() == b.len()
    &&& forall|i: int| 0 <= i < a.len() ==> same_vote(#[trigger] a[i], b[i])
}

/// Asking twice for a vote, against votes that hold the same, is answered
/// twice with the same status and the same document.
pub proof fn lemma_vote_repeatable(
    a: Seq<VoteRecord>,
    b: Seq<VoteRecord>,
    voter: Seq<char>,
    proposal_id: u64,
)
    requires
        same_votes(a, b),
    ensures
        find_vote(a, voter) == find_vote(b, voter),
        vote_reply_status(find_vote(a, voter)) == vote_reply_status(find_vote(b, voter)),
        vote_reply_body(find_vote(a, voter), voter, proposal_id) == vote_reply_body(
            find_vote(b, voter),
            voter,
            proposal_id,
        ),
{
    let f = |r: VoteRecord| written(r);
    assert forall|i: int| 0 <= i < a.len() implies #[trigger] a.map_values(f)[i] == b.map_values(
        f,
    )[i] by {
        assert(same_vote(a[i], b[i]));
    }
    assert(a.map_values(f) =~= b.map_values(f));
}

/// Whether two proposal records hold the same.
pub open spec fn same_record(a: ProposalRecord, b: ProposalRecord) -> bool {
    &&& a.state == b.state
    &&& a.start_block_height == b.start_block_height
    &&& a.end_block_height == b.end_block_height
    &&& a.proposal is Some <==> b.proposal is Some
    &&& a.proposal is Some ==> {
        &&& a.proposal->0.id == b.proposal->0.id
        &&& a.proposal->0.title@ == b.proposal->0.title@
        &&& a.proposal->0.description@ == b.proposal->0.description@
    }
}

/// Whether two runs of proposal records hold the same, record by record.
pub open spec fn same_records(a: Seq<ProposalRecord>, b: Seq<ProposalRecord>) -> bool {
    &&& a.len() == b.len()
    &&& forall|i: int| 0 <= i < a.len() ==> same_record(#[trigger] a[i], b[i])
}

/// Asking twice for a proposal, against records that hold the same and
/// with the same head of the chain and block time, is answered twice with
/// the same document.
pub proof fn lemma_proposal_repeatable(
    proposal_id: u64,
    a: ProposalRecord,
    b: ProposalRecord,
    head: ChainHead,
    block_time: BlockTime,
)
    requires
        same_record(a, b),
    ensures
        is_complete(a) == is_complete(b),
        proposal_answer(proposal_id, a, head, block_time) == proposal_answer(
            proposal_id,
            b,
            head,
            block_time,
        ),
{
}

/// Asking twice for all proposals, against records that hold the same and
/// with the same head of the chain and block time, is answered twice with
/// the same document.
pub proof fn lemma_proposals_repeatable(
    a: Seq<ProposalRecord>,
    b: Seq<ProposalRecord>,
    head: ChainHead,
    block_time: BlockTime,
)
    requires
        same_records(a, b),
    ensures
        forall|i: int| 0 <= i < a.len() ==> is_complete(#[trigger] a[i]) == is_complete(b[i]),
        proposals_answer(a, head, block_time) == proposals_answer(b, head, block_time),
{
    let f = |r: ProposalRecord| record_json(r.proposal->0.id, r, head, block_time);
    assert forall|i: int| 0 <= i < a.len() implies #[trigger] a.map_values(f)[i] == b.map_values(
        f,
    )[i] by {
        assert(same_record(a[i], b[i]));
    }
    assert(a.map_values(f) =~= b.map_values(f));
    assert forall|i: int| 0 <= i < a.len() implies is_complete(#[trigger] a[i]) == is_complete(
        b[i],
    ) by {
        assert(same_record(a[i], b[i]));
    }
}

} // verus!

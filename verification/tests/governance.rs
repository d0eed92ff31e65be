use cosmos_gateway::chain::{BlockHeader, BlockTime, ChainHead};
use cosmos_gateway::error::{GatewayError, Reply};
use cosmos_gateway::governance::{
    date_document, estimated_time_document, get_vote, map_proposal, not_found_text, proposal,
    proposal_at, proposal_document, proposals_at, proposal_status_text, proposals, scan_votes, vote_document,
    vote_option_text, vote_reply, write_vote, write_votes, Outcome, Proposal, ProposalRecord,
    ProposalState, VoteRecord, WrittenVote,
};
use cosmos_gateway::json::Json;

const KEY_ZERO: &str = "penumbravalid1qqqqqqqqqqqqqqqqqqqqqqqqqqqqqqqqqqqqqqqqqqqqqqqqqqqqn0exum";

const KEY_STEPS: &str = "penumbravalid1qv9pzxqlyckngw6zf9g9whn9d3eh4qvg37tfmf9tk2uup37w6hwq0cjw9w";

fn gov_text(s: &str) -> Json {
    Json::Text(s.to_string())
}

fn gov_object(members: Vec<(&str, Json)>) -> Json {
    Json::Object(members.into_iter().map(|(name, value)| (name.to_string(), value)).collect())
}

fn gov_member<'a>(doc: &'a Json, name: &str) -> &'a Json {
    match doc {
        Json::Object(members) => {
            for (key, value) in members {
                if key == name {
                    return value;
                }
            }
            panic!("no member {}", name)
        }
        _ => panic!("not an object"),
    }
}

fn head() -> ChainHead {
    ChainHead { height: 1100, time: 11000 }
}

fn ten_seconds() -> BlockTime {
    BlockTime::new(10, 1).unwrap()
}

fn body(id: u64) -> Proposal {
    Proposal { id, title: "Upgrade".to_string(), description: "Upgrade the chain".to_string() }
}

fn full_record(id: u64, state: ProposalState) -> ProposalRecord {
    ProposalRecord {
        proposal: Some(body(id)),
        state: Some(state),
        start_block_height: 1050,
        end_block_height: 1150,
    }
}

fn expected_proposal(id: &str, status: &str) -> Json {
    gov_object(vec![
        ("proposal_id", gov_text(id)),
        (
            "content",
            gov_object(vec![
                ("@type", gov_text("penumbra.core.component.governance.v1.Signaling")),
                ("title", gov_text("Upgrade")),
                ("description", gov_text("Upgrade the chain")),
            ]),
        ),
        ("status", gov_text(status)),
        (
            "final_tally_result",
            gov_object(vec![
                ("yes", gov_text("0")),
                ("abstain", gov_text("0")),
                ("no", gov_text("0")),
                ("no_with_veto", gov_text("0")),
            ]),
        ),
        ("submit_time", gov_text("1970-01-01T00:00:00.000Z")),
        ("deposit_end_time", gov_text("1970-01-01T00:00:00.000Z")),
        ("total_deposit", Json::List(vec![])),
        ("voting_start_time", gov_text("1970-01-01T02:55:00Z")),
        ("voting_end_time", gov_text("1970-01-01T03:11:40Z")),
    ])
}

fn steps_key() -> Vec<u8> {
    (0..32).map(|i| (i * 7 + 3) as u8).collect()
}

fn vote_of(key: Vec<u8>, choice: Option<i32>) -> VoteRecord {
    VoteRecord { identity_key: Some(key), vote: choice }
}

fn expected_vote(voter: &str, id: &str, option: &str) -> Json {
    gov_object(vec![(
        "vote",
        gov_object(vec![
            ("proposal_id", gov_text(id)),
            ("voter", gov_text(voter)),
            ("option", gov_text(option)),
            (
                "options",
                Json::List(vec![gov_object(vec![
                    ("option", gov_text(option)),
                    ("weight", gov_text("1.000000000000000000")),
                ])]),
            ),
        ]),
    )])
}

fn expected_error(code: u64, message: &str) -> Json {
    gov_object(vec![
        ("code", Json::Number(code)),
        ("message", gov_text(message)),
        ("details", Json::List(vec![])),
    ])
}

#[test]
fn proposal_status_of_every_state() {
    assert_eq!(proposal_status_text(&ProposalState::Voting), "PROPOSAL_STATUS_VOTING_PERIOD");
    assert_eq!(
        proposal_status_text(&ProposalState::Finished { outcome: Some(Outcome::Passed) }),
        "PROPOSAL_STATUS_PASSED"
    );
    assert_eq!(
        proposal_status_text(&ProposalState::Finished { outcome: Some(Outcome::Failed) }),
        "PROPOSAL_STATUS_REJECTED"
    );
    let unspecified = "ProposalStatus_PROPOSAL_STATUS_UNSPECIFIED";
    assert_eq!(
        proposal_status_text(&ProposalState::Finished { outcome: Some(Outcome::Slashed) }),
        unspecified
    );
    assert_eq!(proposal_status_text(&ProposalState::Finished { outcome: None }), unspecified);
    assert_eq!(proposal_status_text(&ProposalState::Withdrawn), unspecified);
    assert_eq!(
        proposal_status_text(&ProposalState::Claimed { outcome: Some(Outcome::Passed) }),
        unspecified
    );
    assert_eq!(
        proposal_status_text(&ProposalState::Claimed { outcome: Some(Outcome::Failed) }),
        unspecified
    );
    assert_eq!(proposal_status_text(&ProposalState::Claimed { outcome: None }), unspecified);
}

#[test]
fn proposal_document_has_the_cosmos_shape() {
    let doc = map_proposal(
        7,
        &body(7),
        &ProposalState::Voting,
        &head(),
        1050,
        1150,
        &ten_seconds(),
    );
    assert_eq!(doc, expected_proposal("7", "PROPOSAL_STATUS_VOTING_PERIOD"));
}

#[test]
fn voting_start_time_is_the_date_of_the_estimate() {
    let doc = estimated_time_document(&head(), 1050, &ten_seconds());
    assert_eq!(doc, gov_text("1970-01-01T02:55:00Z"));
    let later = ChainHead { height: 2_000_000, time: 1_700_000_000 };
    let five = BlockTime::new(500, 100).unwrap();
    // 1_700_000_000 + 1000 * 5
    assert_eq!(estimated_time_document(&later, 2_001_000, &five), gov_text("2023-11-14T23:36:40Z"));
    assert_eq!(
        estimated_time_document(&ChainHead { height: 5, time: 0 }, 5, &five),
        gov_text("1970-01-01T00:00:00Z")
    );
    assert_eq!(
        estimated_time_document(&ChainHead { height: 5, time: -1 }, 5, &five),
        gov_text("1969-12-31T23:59:59Z")
    );
}

#[test]
fn times_outside_the_range_of_dates_are_null() {
    let far = ChainHead { height: 5, time: i64::MAX };
    let one = BlockTime::new(1, 1).unwrap();
    assert_eq!(estimated_time_document(&far, 5, &one), Json::Null);
    assert_eq!(estimated_time_document(&far, 6, &one), Json::Null);
    let doc = map_proposal(1, &body(1), &ProposalState::Voting, &far, 5, 6, &one);
    assert_eq!(gov_member(&doc, "voting_start_time"), &Json::Null);
    assert_eq!(gov_member(&doc, "voting_end_time"), &Json::Null);
}

#[test]
fn proposal_answer_wraps_the_document_under_the_requested_id() {
    let record = full_record(7, ProposalState::Finished { outcome: Some(Outcome::Passed) });
    let doc = proposal(9, &record, &head(), &ten_seconds());
    assert_eq!(
        doc,
        Ok(gov_object(vec![("proposal", expected_proposal("9", "PROPOSAL_STATUS_PASSED"))]))
    );
}

#[test]
fn proposal_without_body_or_state_is_a_missing_field() {
    let mut record = full_record(7, ProposalState::Voting);
    record.proposal = None;
    assert_eq!(proposal(7, &record, &head(), &ten_seconds()), Err(GatewayError::MissingField));
    let mut record = full_record(7, ProposalState::Voting);
    record.state = None;
    assert_eq!(proposal(7, &record, &head(), &ten_seconds()), Err(GatewayError::MissingField));
}

#[test]
fn proposals_lists_every_record_under_its_own_id() {
    let records = vec![
        full_record(1, ProposalState::Voting),
        full_record(2, ProposalState::Finished { outcome: Some(Outcome::Failed) }),
        full_record(3, ProposalState::Withdrawn),
    ];
    let doc = proposals(&records, &head(), &ten_seconds());
    assert_eq!(
        doc,
        Ok(gov_object(vec![
            (
                "proposals",
                Json::List(vec![
                    expected_proposal("1", "PROPOSAL_STATUS_VOTING_PERIOD"),
                    expected_proposal("2", "PROPOSAL_STATUS_REJECTED"),
                    expected_proposal("3", "ProposalStatus_PROPOSAL_STATUS_UNSPECIFIED"),
                ])
            ),
            (
                "pagination",
                gov_object(vec![("next_key", Json::Null), ("total", gov_text("3"))])
            ),
        ]))
    );
}

#[test]
fn proposals_of_no_records_is_an_empty_list() {
    let doc = proposals(&Vec::new(), &head(), &ten_seconds());
    assert_eq!(
        doc,
        Ok(gov_object(vec![
            ("proposals", Json::List(vec![])),
            (
                "pagination",
                gov_object(vec![("next_key", Json::Null), ("total", gov_text("0"))])
            ),
        ]))
    );
}

#[test]
fn proposals_with_an_incomplete_record_is_a_missing_field() {
    let mut broken = full_record(2, ProposalState::Voting);
    broken.state = None;
    let records = vec![full_record(1, ProposalState::Voting), broken];
    assert_eq!(proposals(&records, &head(), &ten_seconds()), Err(GatewayError::MissingField));
}

#[test]
fn proposals_twice_gives_the_same_document() {
    let records = || vec![full_record(1, ProposalState::Voting), full_record(2, ProposalState::Withdrawn)];
    assert_eq!(
        proposals(&records(), &head(), &ten_seconds()),
        proposals(&records(), &head(), &ten_seconds())
    );
}

#[test]
fn choices_one_and_two_are_yes_three_is_no() {
    assert_eq!(vote_option_text(1), "VOTE_OPTION_YES");
    assert_eq!(vote_option_text(2), "VOTE_OPTION_YES");
    assert_eq!(vote_option_text(3), "VOTE_OPTION_NO");
}

#[test]
fn any_other_choice_is_unspecified() {
    for choice in [0, 4, 5, -1, 100, i32::MAX, i32::MIN] {
        assert_eq!(vote_option_text(choice), "VOTE_OPTION_UNSPECIFIED");
    }
}

#[test]
fn vote_document_reports_one_fully_weighted_option() {
    assert_eq!(vote_document(KEY_ZERO, 12, 3), expected_vote(KEY_ZERO, "12", "VOTE_OPTION_NO"));
}

#[test]
fn vote_of_a_present_voter_is_reported() {
    let votes = vec![vote_of(steps_key(), Some(3)), vote_of(vec![0u8; 32], Some(2))];
    assert_eq!(scan_votes(&write_votes(&votes), KEY_ZERO), Ok(2));
    assert_eq!(scan_votes(&write_votes(&votes), KEY_STEPS), Ok(3));
    let reply = get_vote(KEY_ZERO, 12, &votes);
    assert_eq!(
        reply,
        Reply { status: 200, body: expected_vote(KEY_ZERO, "12", "VOTE_OPTION_YES") }
    );
    let reply = get_vote(KEY_STEPS, 12, &votes);
    assert_eq!(
        reply,
        Reply { status: 200, body: expected_vote(KEY_STEPS, "12", "VOTE_OPTION_NO") }
    );
}

#[test]
fn the_first_vote_of_a_voter_counts() {
    let votes = vec![vote_of(vec![0u8; 32], Some(1)), vote_of(vec![0u8; 32], Some(3))];
    assert_eq!(scan_votes(&write_votes(&votes), KEY_ZERO), Ok(1));
}

#[test]
fn an_absent_voter_is_a_client_error_naming_voter_and_proposal() {
    let votes = vec![vote_of(steps_key(), Some(3))];
    assert_eq!(scan_votes(&write_votes(&votes), KEY_ZERO), Err(GatewayError::VoterNotFound));
    let message = format!("voter: {} not found for proposal: {}", KEY_ZERO, 12);
    assert_eq!(not_found_text(KEY_ZERO, 12), message);
    assert_eq!(
        get_vote(KEY_ZERO, 12, &votes),
        Reply { status: 400, body: expected_error(3, &message) }
    );
    assert_eq!(
        get_vote("nobody", u64::MAX, &Vec::new()),
        Reply {
            status: 400,
            body: expected_error(3, "voter: nobody not found for proposal: 18446744073709551615")
        }
    );
}

#[test]
fn a_voter_is_matched_by_the_canonical_text_only() {
    let votes = vec![vote_of(vec![0u8; 32], Some(2))];
    let upper = KEY_ZERO.to_uppercase();
    assert_eq!(scan_votes(&write_votes(&votes), &upper), Err(GatewayError::VoterNotFound));
}

#[test]
fn a_vote_without_choice_is_a_client_error() {
    let votes = vec![vote_of(vec![0u8; 32], None)];
    assert_eq!(scan_votes(&write_votes(&votes), KEY_ZERO), Err(GatewayError::VoteMissingChoice));
    let message = format!("voter: {} not found for proposal: {}", KEY_ZERO, 4);
    assert_eq!(
        get_vote(KEY_ZERO, 4, &votes),
        Reply { status: 400, body: expected_error(3, &message) }
    );
}

#[test]
fn a_record_with_a_malformed_key_ends_the_scan() {
    let votes = vec![vote_of(vec![0u8; 31], Some(2)), vote_of(vec![0u8; 32], Some(2))];
    assert_eq!(scan_votes(&write_votes(&votes), KEY_ZERO), Err(GatewayError::MalformedIdentity));
    assert_eq!(
        get_vote(KEY_ZERO, 4, &votes),
        Reply { status: 500, body: expected_error(13, "malformed validator identity key") }
    );
    let after = vec![vote_of(vec![0u8; 32], Some(2)), vote_of(vec![0u8; 33], Some(2))];
    assert_eq!(scan_votes(&write_votes(&after), KEY_ZERO), Ok(2));
}

#[test]
fn a_record_without_key_ends_the_scan() {
    let votes = vec![VoteRecord { identity_key: None, vote: Some(2) }];
    assert_eq!(scan_votes(&write_votes(&votes), KEY_ZERO), Err(GatewayError::MissingField));
    assert_eq!(
        get_vote(KEY_ZERO, 4, &votes),
        Reply {
            status: 500,
            body: expected_error(13, "the chain's response lacks an expected field")
        }
    );
}

#[test]
fn get_vote_twice_gives_the_same_reply() {
    let votes = || vec![vote_of(steps_key(), Some(3)), vote_of(vec![0u8; 32], Some(0))];
    assert_eq!(get_vote(KEY_ZERO, 1, &votes()), get_vote(KEY_ZERO, 1, &votes()));
    assert_eq!(
        get_vote(KEY_ZERO, 1, &votes()),
        Reply { status: 200, body: expected_vote(KEY_ZERO, "1", "VOTE_OPTION_UNSPECIFIED") }
    );
}

#[test]
fn records_are_read_with_their_key_in_text_form() {
    assert_eq!(
        write_vote(&vote_of(vec![0u8; 32], Some(2))),
        WrittenVote { voter: Ok(KEY_ZERO.to_string()), vote: Some(2) }
    );
    assert_eq!(
        write_vote(&vote_of(steps_key(), None)),
        WrittenVote { voter: Ok(KEY_STEPS.to_string()), vote: None }
    );
    assert_eq!(
        write_vote(&vote_of(vec![1, 2, 3], Some(1))),
        WrittenVote { voter: Err(GatewayError::MalformedIdentity), vote: Some(1) }
    );
    assert_eq!(
        write_vote(&VoteRecord { identity_key: None, vote: Some(1) }),
        WrittenVote { voter: Err(GatewayError::MissingField), vote: Some(1) }
    );
    let all = write_votes(&vec![vote_of(vec![0u8; 32], Some(2)), vote_of(vec![], None)]);
    assert_eq!(
        all,
        vec![
            WrittenVote { voter: Ok(KEY_ZERO.to_string()), vote: Some(2) },
            WrittenVote { voter: Err(GatewayError::MalformedIdentity), vote: None },
        ]
    );
    assert_eq!(write_votes(&Vec::new()), Vec::new());
}

#[test]
fn the_scan_stops_at_the_voter_or_at_a_failure() {
    let votes = vec![
        WrittenVote { voter: Ok("alice".to_string()), vote: Some(3) },
        WrittenVote { voter: Ok("bob".to_string()), vote: None },
        WrittenVote { voter: Err(GatewayError::BackendUnreachable), vote: Some(1) },
        WrittenVote { voter: Ok("carol".to_string()), vote: Some(1) },
    ];
    assert_eq!(scan_votes(&votes, "alice"), Ok(3));
    assert_eq!(scan_votes(&votes, "bob"), Err(GatewayError::VoteMissingChoice));
    assert_eq!(scan_votes(&votes, "carol"), Err(GatewayError::BackendUnreachable));
    assert_eq!(scan_votes(&votes, "dave"), Err(GatewayError::BackendUnreachable));
    assert_eq!(scan_votes(&votes[..2].iter().map(|v| WrittenVote { voter: v.voter.clone(), vote: v.vote }).collect(), "dave"), Err(GatewayError::VoterNotFound));
    assert_eq!(scan_votes(&Vec::new(), "alice"), Err(GatewayError::VoterNotFound));
}

#[test]
fn the_reply_follows_what_the_scan_came_to() {
    assert_eq!(
        vote_reply(Ok(1), "alice", 5),
        Reply { status: 200, body: expected_vote("alice", "5", "VOTE_OPTION_YES") }
    );
    let not_found = expected_error(3, "voter: alice not found for proposal: 5");
    assert_eq!(
        vote_reply(Err(GatewayError::VoterNotFound), "alice", 5),
        Reply { status: 400, body: not_found }
    );
    let not_found = expected_error(3, "voter: alice not found for proposal: 5");
    assert_eq!(
        vote_reply(Err(GatewayError::VoteMissingChoice), "alice", 5),
        Reply { status: 400, body: not_found }
    );
    assert_eq!(
        vote_reply(Err(GatewayError::BackendUnreachable), "alice", 5),
        Reply {
            status: 500,
            body: expected_error(13, "the chain's query service is unreachable")
        }
    );
}

#[test]
fn a_date_is_its_text_and_no_date_is_null() {
    assert_eq!(date_document(Some("2024-01-01T00:00:00Z".to_string())), gov_text("2024-01-01T00:00:00Z"));
    assert_eq!(date_document(None), Json::Null);
}

#[test]
fn proposal_document_carries_the_voting_times_it_is_given() {
    let doc = proposal_document(
        7,
        &body(7),
        &ProposalState::Voting,
        gov_text("1970-01-01T02:55:00Z"),
        gov_text("1970-01-01T03:11:40Z"),
    );
    assert_eq!(doc, expected_proposal("7", "PROPOSAL_STATUS_VOTING_PERIOD"));
    let doc = proposal_document(7, &body(7), &ProposalState::Voting, Json::Null, Json::Null);
    assert_eq!(gov_member(&doc, "voting_start_time"), &Json::Null);
    assert_eq!(gov_member(&doc, "voting_end_time"), &Json::Null);
}

fn sample_1000() -> Option<BlockHeader> {
    Some(BlockHeader { height: 1000, time: Some(10000) })
}

#[test]
fn a_negative_voting_time_is_the_date_of_the_estimate_cut_towards_zero() {
    let head = ChainHead { height: 1100, time: 11050 };
    let rate = BlockTime::new(1050, 100).unwrap();
    // 11050 - 1099 * 10.5 = -489.5
    assert_eq!(estimated_time_document(&head, 1, &rate), gov_text("1969-12-31T23:51:51Z"));
}

#[test]
fn proposal_at_averages_the_block_time_from_the_sample() {
    let record = full_record(7, ProposalState::Voting);
    let doc = proposal_at(7, &record, &head(), sample_1000());
    assert_eq!(
        doc,
        Ok(gov_object(vec![("proposal", expected_proposal("7", "PROPOSAL_STATUS_VOTING_PERIOD"))]))
    );
    assert_eq!(doc, proposal(7, &record, &head(), &ten_seconds()));
}

#[test]
fn proposal_at_on_a_young_chain_is_too_young() {
    let record = full_record(7, ProposalState::Voting);
    let young = ChainHead { height: 100, time: 1000 };
    assert_eq!(
        proposal_at(7, &record, &young, Some(BlockHeader { height: 0, time: Some(0) })),
        Err(GatewayError::ChainTooYoung)
    );
    assert_eq!(proposal_at(7, &record, &young, None), Err(GatewayError::ChainTooYoung));
    let mut broken = full_record(7, ProposalState::Voting);
    broken.state = None;
    assert_eq!(proposal_at(7, &broken, &young, sample_1000()), Err(GatewayError::ChainTooYoung));
}

#[test]
fn proposal_at_fails_as_the_block_time_does_before_it_reads_the_record() {
    let mut broken = full_record(7, ProposalState::Voting);
    broken.proposal = None;
    assert_eq!(proposal_at(7, &broken, &head(), None), Err(GatewayError::MissingField));
    assert_eq!(
        proposal_at(7, &broken, &head(), Some(BlockHeader { height: 1000, time: None })),
        Err(GatewayError::MissingField)
    );
    assert_eq!(
        proposal_at(7, &broken, &head(), Some(BlockHeader { height: 1100, time: Some(1) })),
        Err(GatewayError::ChainTooYoung)
    );
    assert_eq!(proposal_at(7, &broken, &head(), sample_1000()), Err(GatewayError::MissingField));
}

#[test]
fn proposals_at_averages_the_block_time_once_for_all_records() {
    let records = vec![
        full_record(1, ProposalState::Voting),
        full_record(2, ProposalState::Finished { outcome: Some(Outcome::Passed) }),
    ];
    let doc = proposals_at(&records, &head(), sample_1000());
    assert_eq!(doc, proposals(&records, &head(), &ten_seconds()));
    assert_eq!(
        doc,
        Ok(gov_object(vec![
            (
                "proposals",
                Json::List(vec![
                    expected_proposal("1", "PROPOSAL_STATUS_VOTING_PERIOD"),
                    expected_proposal("2", "PROPOSAL_STATUS_PASSED"),
                ])
            ),
            (
                "pagination",
                gov_object(vec![("next_key", Json::Null), ("total", gov_text("2"))])
            ),
        ]))
    );
}

#[test]
fn proposals_at_fails_on_a_young_chain_or_an_unusable_sample() {
    let records = vec![full_record(1, ProposalState::Voting)];
    let young = ChainHead { height: 7, time: 1000 };
    assert_eq!(proposals_at(&records, &young, sample_1000()), Err(GatewayError::ChainTooYoung));
    assert_eq!(proposals_at(&Vec::new(), &young, None), Err(GatewayError::ChainTooYoung));
    assert_eq!(proposals_at(&records, &head(), None), Err(GatewayError::MissingField));
    assert_eq!(
        proposals_at(&records, &head(), Some(BlockHeader { height: 1200, time: Some(1) })),
        Err(GatewayError::ChainTooYoung)
    );
    let mut broken = full_record(2, ProposalState::Voting);
    broken.state = None;
    assert_eq!(
        proposals_at(&vec![broken], &head(), sample_1000()),
        Err(GatewayError::MissingField)
    );
}

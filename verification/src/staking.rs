//! Validators and staking parameters in the shape of the Cosmos SDK's
//! staking queries.

use crate::codec::{base64_standard, base64_text};
use crate::decimal::{decimal, decimal_text};
use crate::error::GatewayError;
use crate::identity::{identity_key_text, IdentityKey};
use crate::json::{append, items, items_view, page, page_json, same_text, text, Json, JsonValue};
use vstd::prelude::*;

verus! {

pub const BOND_STATUS_BONDED: &'static str = "BOND_STATUS_BONDED";

pub const BOND_STATUS_UNBONDING: &'static str = "BOND_STATUS_UNBONDING";

pub const BOND_STATUS_UNBONDED: &'static str = "BOND_STATUS_UNBONDED";

/// Type tag of every consensus key.
pub const CONSENSUS_KEY_TYPE: &'static str = "/cosmos.crypto.ed25519.PubKey";

// The native chain has no counterpart for the values below: they are fixed.
pub const UNBONDING_HEIGHT: &'static str = "0";

pub const UNBONDING_TIME: &'static str = "1970-01-01T00:00:00Z";

pub const COMMISSION_RATE: &'static str = "0.05";

pub const COMMISSION_MAX_RATE: &'static str = "1.0";

pub const COMMISSION_MAX_CHANGE_RATE: &'static str = "1.0";

pub const COMMISSION_UPDATE_TIME: &'static str = "2023-08-04T06:00:00.000000000Z";

pub const MIN_SELF_DELEGATION: &'static str = "0";

pub const VALIDATOR_IDENTITY: &'static str = "";

pub const SECURITY_CONTACT: &'static str = "";

pub const UNBONDING_PERIOD: &'static str = "1814400s";

pub const MAX_ENTRIES: u64 = 7;

pub const HISTORICAL_ENTRIES: u64 = 10000;

pub const BOND_DENOM: &'static str = "upenumbra";

/// Where a validator's stake stands in its lock cycle.
#[derive(Clone, Copy, Debug, PartialEq, Eq)]
pub enum BondingState {
    Bonded,
    Unbonding { unbonds_at_height: u64 },
    Unbonded,
}

/// Where a validator stands in its life cycle.
#[derive(Clone, Copy, Debug, PartialEq, Eq)]
pub enum ValidatorState {
    Defined,
    Inactive,
    Active,
    Jailed,
    Tombstoned,
    Disabled,
}

/// A validator as the native chain describes it.
#[derive(Debug, PartialEq, Eq)]
pub struct ValidatorRecord {
    pub identity_key: IdentityKey,
    pub consensus_key: Vec<u8>,
    pub name: String,
    pub website: String,
    pub description: String,
    pub bonding_state: BondingState,
    pub state: ValidatorState,
    pub voting_power: u128,
}

/// The tunables of the native chain that the parameter queries report.
#[derive(Clone, Copy, Debug, PartialEq, Eq)]
pub struct ChainParameters {
    pub active_validator_limit: u64,
    pub missed_blocks_maximum: u64,
    pub signed_blocks_window_len: u64,
}

/// The status under which the staking queries list a validator.
pub open spec fn bond_status(state: BondingState) -> Seq<char> {
    match state {
        BondingState::Bonded => BOND_STATUS_BONDED@,
        BondingState::Unbonding { .. } => BOND_STATUS_UNBONDING@,
        BondingState::Unbonded => BOND_STATUS_UNBONDED@,
    }
}

/// Whether a validator is jailed; its bonding state plays no part.
pub open spec fn is_jailed(state: ValidatorState) -> bool {
    state is Jailed
}

/// The document that describes the validator `v`, given the text forms of
/// its identity key and of its consensus key.
///
/// The voting power stands for both the tokens and the delegator shares.
pub open spec fn validator_json_of(
    v: ValidatorRecord,
    operator_address: Seq<char>,
    consensus_key: Seq<char>,
) -> JsonValue {
    JsonValue::object().with("operator_address"@, JsonValue::Text(operator_address)).with(
        "consensus_pubkey"@,
        JsonValue::object().with("@type"@, JsonValue::Text(CONSENSUS_KEY_TYPE@)).with(
            "key"@,
            JsonValue::Text(consensus_key),
        ),
    ).with("jailed"@, JsonValue::Bool(is_jailed(v.state))).with(
        "status"@,
        JsonValue::Text(bond_status(v.bonding_state)),
    ).with("tokens"@, JsonValue::Text(decimal(v.voting_power as nat))).with(
        "delegator_shares"@,
        JsonValue::Text(decimal(v.voting_power as nat)),
    ).with(
        "description"@,
        JsonValue::object().with("moniker"@, JsonValue::Text(v.name@)).with(
            "identity"@,
            JsonValue::Text(VALIDATOR_IDENTITY@),
        ).with("website"@, JsonValue::Text(v.website@)).with(
            "security_contact"@,
            JsonValue::Text(SECURITY_CONTACT@),
        ).with("details"@, JsonValue::Text(v.description@)),
    ).with("unbonding_height"@, JsonValue::Text(UNBONDING_HEIGHT@)).with(
        "unbonding_time"@,
        JsonValue::Text(UNBONDING_TIME@),
    ).with(
        "commission"@,
        JsonValue::object().with(
            "commission_rates"@,
            JsonValue::object().with("rate"@, JsonValue::Text(COMMISSION_RATE@)).with(
                "max_rate"@,
                JsonValue::Text(COMMISSION_MAX_RATE@),
            ).with("max_change_rate"@, JsonValue::Text(COMMISSION_MAX_CHANGE_RATE@)),
        ).with("update_time"@, JsonValue::Text(COMMISSION_UPDATE_TIME@)),
    ).with("min_self_delegation"@, JsonValue::Text(MIN_SELF_DELEGATION@))
}

/// The document that describes the validator `v`: its identity key in
/// Bech32m as the operator address, its consensus key in base64.
pub open spec fn validator_json(v: ValidatorRecord) -> JsonValue {
    validator_json_of(
        v,
        identity_key_text(v.identity_key.bytes@),
        base64_standard(v.consensus_key@),
    )
}

/// The status filter of a request, as the text it asks for.
pub open spec fn filter_of(status: Option<&str>) -> Option<Seq<char>> {
    match status {
        Some(s) => Some(s@),
        None => None,
    }
}

/// Whether the validator `v` passes the status filter: there is none, or it
/// names the validator's status.
pub open spec fn passes(v: ValidatorRecord, filter: Option<Seq<char>>) -> bool {
    filter matches Some(wanted) ==> wanted == bond_status(v.bonding_state)
}

/// The validators among `records` that pass the filter, in their order.
pub open spec fn selected(records: Seq<ValidatorRecord>, filter: Option<Seq<char>>) -> Seq<
    ValidatorRecord,
> {
    records.filter(|v: ValidatorRecord| passes(v, filter))
}

/// The answer to a query for validators: the documents of the validators
/// that pass the filter, and their number.
pub open spec fn validators_json(
    records: Seq<ValidatorRecord>,
    filter: Option<Seq<char>>,
) -> JsonValue {
    page_json(
        "validators"@,
        selected(records, filter).map_values(|v: ValidatorRecord| validator_json(v)),
    )
}

/// The answer to a query for the staking parameters.
pub open spec fn staking_params_json(params: ChainParameters) -> JsonValue {
    JsonValue::object().with(
        "params"@,
        JsonValue::object().with("unbonding_time"@, JsonValue::Text(UNBONDING_PERIOD@)).with(
            "max_validators"@,
            JsonValue::Number(params.active_validator_limit as nat),
        ).with("max_entries"@, JsonValue::Number(MAX_ENTRIES as nat)).with(
            "historical_entries"@,
            JsonValue::Number(HISTORICAL_ENTRIES as nat),
        ).with("bond_denom"@, JsonValue::Text(BOND_DENOM@)),
    )
}

/// The status under which the staking queries list a validator in the
/// bonding state `state`.
pub fn bond_status_text(state: &BondingState) -> (status: &'static str)
    ensures
        status@ == bond_status(*state),
        status@ == BOND_STATUS_BONDED@ || status@ == BOND_STATUS_UNBONDING@ || status@
            == BOND_STATUS_UNBONDED@,
{
    match state {
        BondingState::Bonded => BOND_STATUS_BONDED,
        BondingState::Unbonding { .. } => BOND_STATUS_UNBONDING,
        BondingState::Unbonded => BOND_STATUS_UNBONDED,
    }
}

/// Whether the validator `v` passes the status filter of a request.
pub fn keeps(status: Option<&str>, v: &ValidatorRecord) -> (keep: bool)
    ensures
        keep == passes(*v, filter_of(status)),
{
    match status {
        Some(wanted) => same_text(wanted, bond_status_text(&v.bonding_state)),
        None => true,
    }
}

/// Writes the document that describes the validator `v`, given the text
/// forms of its identity key and of its consensus key.
pub fn validator_document(v: &ValidatorRecord, operator_address: String, consensus_key: String) -> (doc:
    Json)
    ensures
        doc@ == validator_json_of(*v, operator_address@, consensus_key@),
{
    let key = Json::object().with("@type", text(CONSENSUS_KEY_TYPE)).with(
        "key",
        Json::Text(consensus_key),
    );
    let description = Json::object().with("moniker", text(v.name.as_str())).with(
        "identity",
        text(VALIDATOR_IDENTITY),
    ).with("website", text(v.website.as_str())).with(
        "security_contact",
        text(SECURITY_CONTACT),
    ).with("details", text(v.description.as_str()));
    let rates = Json::object().with("rate", text(COMMISSION_RATE)).with(
        "max_rate",
        text(COMMISSION_MAX_RATE),
    ).with("max_change_rate", text(COMMISSION_MAX_CHANGE_RATE));
    let commission = Json::object().with("commission_rates", rates).with(
        "update_time",
        text(COMMISSION_UPDATE_TIME),
    );
    let jailed: bool = match v.state {
        ValidatorState::Jailed => true,
        _ => false,
    };
    Json::object().with("operator_address", Json::Text(operator_address)).with(
        "consensus_pubkey",
        key,
    ).with("jailed", Json::Bool(jailed)).with(
        "status",
        text(bond_status_text(&v.bonding_state)),
    ).with("tokens", Json::Text(decimal_text(v.voting_power))).with(
        "delegator_shares",
        Json::Text(decimal_text(v.voting_power)),
    ).with("description", description).with("unbonding_height", text(UNBONDING_HEIGHT)).with(
        "unbonding_time",
        text(UNBONDING_TIME),
    ).with("commission", commission).with("min_self_delegation", text(MIN_SELF_DELEGATION))
}

/// Maps one validator to its document.
pub fn map_validator(v: &ValidatorRecord) -> (doc: Json)
    ensures
        doc@ == validator_json(*v),
{
    let operator_address: String = v.identity_key.to_text();
    let consensus_key: String = base64_text(&v.consensus_key);
    validator_document(v, operator_address, consensus_key)
}

/// Extending a prefix of the records by one extends the selection by that
/// record, or not at all.
proof fn lemma_selected_step(records: Seq<ValidatorRecord>, filter: Option<Seq<char>>, i: int)
    requires
        0 <= i < records.len(),
    ensures
        selected(records.take(i + 1), filter) == if passes(records[i], filter) {
            selected(records.take(i), filter).push(records[i])
        } else {
            selected(records.take(i), filter)
        },
{
    reveal(Seq::filter);
    assert(records.take(i + 1).drop_last() =~= records.take(i));
    assert(records.take(i + 1).last() == records[i]);
}

/// Answers a query for validators: maps each of `records` that
/// passes the status filter, in order, and counts them.
pub fn validators(records: &Vec<ValidatorRecord>, status: Option<&str>) -> (doc: Json)
    ensures
        doc@ == validators_json(records@, filter_of(status)),
{
    let ghost filter = filter_of(status);
    let mut docs = items();
    let mut i: usize = 0;
    assert(records@.take(0) =~= Seq::<ValidatorRecord>::empty());
    assert(selected(records@.take(0), filter) =~= Seq::<ValidatorRecord>::empty()) by {
        reveal(Seq::filter);
    }
    while i < records.len()
        invariant
            i <= records.len(),
            filter == filter_of(status),
            docs@.len() == selected(records@.take(i as int), filter).len(),
            items_view(docs@) =~= selected(records@.take(i as int), filter).map_values(
                |v: ValidatorRecord| validator_json(v),
            ),
        decreases records.len() - i,
    {
        let v = &records[i];
        proof {
            lemma_selected_step(records@, filter, i as int);
        }
        if keeps(status, v) {
            let doc = map_validator(v);
            append(&mut docs, doc);
        }
        i += 1;
    }
    assert(records@.take(i as int) =~= records@);
    page("validators", docs)
}

/// Answers a query for the staking parameters.
///
/// Fails with `MissingField` where the chain's parameters are absent.
pub fn staking_params(params: Option<ChainParameters>) -> (doc: Result<Json, GatewayError>)
    ensures
        match params {
            Some(p) => doc matches Ok(d) && d@ == staking_params_json(p),
            None => doc == Err::<Json, GatewayError>(GatewayError::MissingField),
        },
{
    let p: ChainParameters = match params {
        Some(p) => p,
        None => {
            return Err(GatewayError::MissingField);
        },
    };
    let inner = Json::object().with("unbonding_time", text(UNBONDING_PERIOD)).with(
        "max_validators",
        Json::Number(p.active_validator_limit),
    ).with("max_entries", Json::Number(MAX_ENTRIES)).with(
        "historical_entries",
        Json::Number(HISTORICAL_ENTRIES),
    ).with("bond_denom", text(BOND_DENOM));
    Ok(Json::object().with("params", inner))
}


/// Every bonding state is listed under one of three statuses, no two of
/// which are the same text.
pub proof fn lemma_bond_status_is_one_of_three(state: BondingState)
    ensures
        bond_status(state) == BOND_STATUS_BONDED@ || bond_status(state) == BOND_STATUS_UNBONDING@
            || bond_status(state) == BOND_STATUS_UNBONDED@,
        BOND_STATUS_BONDED@ != BOND_STATUS_UNBONDING@,
        BOND_STATUS_BONDED@ != BOND_STATUS_UNBONDED@,
        BOND_STATUS_UNBONDING@ != BOND_STATUS_UNBONDED@,
{
    reveal_strlit("BOND_STATUS_BONDED");
    reveal_strlit("BOND_STATUS_UNBONDING");
    reveal_strlit("BOND_STATUS_UNBONDED");
    assert(BOND_STATUS_BONDED@.len() == 18);
    assert(BOND_STATUS_UNBONDING@.len() == 21);
    assert(BOND_STATUS_UNBONDED@.len() == 20);
}

/// Selecting from two runs of records, one after the other, selects from
/// each.
proof fn lemma_selected_concat(
    a: Seq<ValidatorRecord>,
    b: Seq<ValidatorRecord>,
    filter: Option<Seq<char>>,
)
    ensures
        selected(a + b, filter) == selected(a, filter) + selected(b, filter),
    decreases b.len(),
{
    reveal(Seq::filter);
    if b.len() == 0 {
        assert(a + b =~= a);
        assert(selected(a, filter) + selected(b, filter) =~= selected(a, filter));
    } else {
        assert((a + b).drop_last() =~= a + b.drop_last());
        assert((a + b).last() == b.last());
        lemma_selected_concat(a, b.drop_last(), filter);
        assert(selected(a + b, filter) =~= selected(a, filter) + selected(b, filter));
    }
}

/// Every validator in the answer passes the filter: with a filter, each
/// has the status that was asked for.
pub proof fn lemma_selected_pass(records: Seq<ValidatorRecord>, filter: Option<Seq<char>>, j: int)
    requires
        0 <= j < selected(records, filter).len(),
    ensures
        passes(selected(records, filter)[j], filter),
        records.contains(selected(records, filter)[j]),
    decreases records.len(),
{
    reveal(Seq::filter);
    if records.len() > 0 {
        let rest = selected(records.drop_last(), filter);
        if j < rest.len() {
            lemma_selected_pass(records.drop_last(), filter, j);
            let k = choose|k: int|
                0 <= k < records.drop_last().len() && records.drop_last()[k] == rest[j];
            assert(records[k] == rest[j]);
        } else {
            assert(selected(records, filter)[j] == records.last());
            assert(records[records.len() - 1] == records.last());
        }
    }
}

/// A validator whose status is not the one asked for is left out of the
/// answer and of its count: the answer is the same without it.
pub proof fn lemma_filtered_out(records: Seq<ValidatorRecord>, filter: Option<Seq<char>>, i: int)
    requires
        0 <= i < records.len(),
        !passes(records[i], filter),
    ensures
        selected(records.remove(i), filter) == selected(records, filter),
        validators_json(records.remove(i), filter) == validators_json(records, filter),
{
    let before = records.take(i);
    let one = seq![records[i]];
    let after = records.skip(i + 1);
    assert(records =~= (before + one) + after);
    assert(records.remove(i) =~= before + after);
    lemma_selected_concat(before + one, after, filter);
    lemma_selected_concat(before, one, filter);
    lemma_selected_concat(before, after, filter);
    assert(selected(one, filter) =~= Seq::<ValidatorRecord>::empty()) by {
        reveal_with_fuel(Seq::filter, 2);
        assert(one.drop_last() =~= Seq::<ValidatorRecord>::empty());
        assert(one.last() == records[i]);
    }
    assert(selected(before, filter) + Seq::<ValidatorRecord>::empty() =~= selected(
        before,
        filter,
    ));
}


/// Whether two validator records hold the same.
pub open spec fn same_validator(a: ValidatorRecord, b: ValidatorRecord) -> bool {
    &&& a.identity_key.bytes@ == b.identity_key.bytes@
    &&& a.consensus_key@ == b.consensus_key@
    &&& a.name@ == b.name@
    &&& a.website@ == b.website@
    &&& a.description@ == b.description@
    &&& a.bonding_state == b.bonding_state
    &&& a.state == b.state
    &&& a.voting_power == b.voting_power
}

/// Whether two runs of validator records hold the same, record by record.
pub open spec fn same_validators(a: Seq<ValidatorRecord>, b: Seq<ValidatorRecord>) -> bool {
    &&& a.len() == b.len()
    &&& forall|i: int| 0 <= i < a.len() ==> same_validator(#[trigger] a[i], b[i])
}

/// The documents of the validators selected from two runs that hold the
/// same are the same.
proof fn lemma_selected_same(
    a: Seq<ValidatorRecord>,
    b: Seq<ValidatorRecord>,
    filter: Option<Seq<char>>,
)
    requires
        same_validators(a, b),
    ensures
        selected(a, filter).len() == selected(b, filter).len(),
        selected(a, filter).map_values(|v: ValidatorRecord| validator_json(v)) == selected(
            b,
            filter,
        ).map_values(|v: ValidatorRecord| validator_json(v)),
    decreases a.len(),
{
    reveal(Seq::filter);
    let f = |v: ValidatorRecord| validator_json(v);
    if a.len() > 0 {
        let sa = selected(a.drop_last(), filter);
        let sb = selected(b.drop_last(), filter);
        assert(same_validator(a[a.len() - 1], b[b.len() - 1]));
        assert(validator_json(a.last()) == validator_json(b.last()));
        assert(passes(a.last(), filter) == passes(b.last(), filter));
        assert forall|i: int| 0 <= i < a.drop_last().len() implies same_validator(
            #[trigger] a.drop_last()[i],
            b.drop_last()[i],
        ) by {
            assert(same_validator(a[i], b[i]));
        }
        lemma_selected_same(a.drop_last(), b.drop_last(), filter);
        assert(sa.map_values(f) == sb.map_values(f));
        if passes(a.last(), filter) {
            assert(selected(a, filter) == sa.push(a.last()));
            assert(selected(b, filter) == sb.push(b.last()));
            assert(sa.push(a.last()).map_values(f) =~= sa.map_values(f).push(f(a.last())));
            assert(sb.push(b.last()).map_values(f) =~= sb.map_values(f).push(f(b.last())));
        } else {
            assert(selected(a, filter) == sa);
            assert(selected(b, filter) == sb);
        }
    } else {
        assert(selected(a, filter).map_values(f) =~= selected(b, filter).map_values(f));
    }
}

/// Asking twice for the validators, with the same filter and against
/// records that hold the same, is answered twice with the same document.
pub proof fn lemma_validators_repeatable(
    a: Seq<ValidatorRecord>,
    b: Seq<ValidatorRecord>,
    filter: Option<Seq<char>>,
)
    requires
        same_validators(a, b),
    ensures
        validators_json(a, filter) == validators_json(b, filter),
{
    lemma_selected_same(a, b, filter);
}

} // verus!

//! Slashing parameters and validator uptime in the shape of the Cosmos
//! SDK's slashing queries.

use crate::decimal::{append_decimal, decimal, decimal_text, digit_char, digit_str};
use crate::error::GatewayError;
use crate::identity::{has_identity_shape, identity_key_bytes, IdentityKey};
use crate::json::{text, Json, JsonValue};
use crate::staking::ChainParameters;
use vstd::prelude::*;

verus! {

/// Number of decimal places to which a share is written.
pub const SHARE_PLACES: usize = 18;

// The native chain has no counterpart for the values below: they are fixed.
pub const DOWNTIME_JAIL_DURATION: &'static str = "0s";

pub const SLASH_FRACTION_DOUBLE_SIGN: &'static str = "0.0";

pub const SLASH_FRACTION_DOWNTIME: &'static str = "0.0";

pub const START_HEIGHT: &'static str = "0";

pub const INDEX_OFFSET: &'static str = "0";

pub const JAILED_UNTIL: &'static str = "1970-01-01T00:00:00Z";

pub const TOMBSTONED: bool = false;

/// How a validator kept up with the chain over the signed blocks window.
#[derive(Clone, Copy, Debug, PartialEq, Eq)]
pub struct UptimeRecord {
    /// Number of blocks of the window that the validator did not sign.
    pub missed_blocks: u64,
}

/// The first `count` decimal places of `rem / den`, for `rem < den`.
pub open spec fn places(rem: nat, den: nat, count: nat) -> Seq<u8>
    decreases count,
{
    if count == 0 {
        Seq::empty()
    } else {
        seq![(rem * 10 / den) as u8] + places(rem * 10 % den, den, (count - 1) as nat)
    }
}

/// `digits` without the zeros at its end.
pub open spec fn trimmed(digits: Seq<u8>) -> Seq<u8>
    decreases digits.len(),
{
    if digits.len() > 0 && digits.last() == 0 {
        trimmed(digits.drop_last())
    } else {
        digits
    }
}

/// The characters that write `digits`.
pub open spec fn digits_text(digits: Seq<u8>) -> Seq<char> {
    digits.map_values(|d: u8| digit_char(d as nat))
}

/// The decimal notation of `numerator / denominator`, negated where
/// `negative` holds, cut off after 18 decimal places: the whole part, then,
/// where a place is not zero, a point and the places up to the last that is
/// not zero. Zero is written without a sign.
pub open spec fn ratio_text(negative: bool, numerator: nat, denominator: nat) -> Seq<char> {
    let whole = numerator / denominator;
    let fraction = trimmed(places(numerator % denominator, denominator, SHARE_PLACES as nat));
    let sign = if negative && (whole != 0 || fraction.len() > 0) {
        seq!['-']
    } else {
        Seq::empty()
    };
    let point = if fraction.len() > 0 {
        seq!['.']
    } else {
        Seq::empty()
    };
    sign + decimal(whole) + point + digits_text(fraction)
}

/// The least share of the signed blocks window that a validator must sign:
/// one, less the share of blocks that it may miss.
pub open spec fn min_signed_per_window(missed_blocks_maximum: u64, window: u64) -> Seq<char> {
    if missed_blocks_maximum <= window {
        ratio_text(false, (window - missed_blocks_maximum) as nat, window as nat)
    } else {
        ratio_text(true, (missed_blocks_maximum - window) as nat, window as nat)
    }
}

/// The answer to a query for the slashing parameters.
pub open spec fn slashing_params_json(params: ChainParameters) -> JsonValue {
    JsonValue::object().with(
        "params"@,
        JsonValue::object().with(
            "signed_blocks_window"@,
            JsonValue::Text(decimal(params.signed_blocks_window_len as nat)),
        ).with(
            "min_signed_per_window"@,
            JsonValue::Text(
                min_signed_per_window(
                    params.missed_blocks_maximum,
                    params.signed_blocks_window_len,
                ),
            ),
        ).with("downtime_jail_duration"@, JsonValue::Text(DOWNTIME_JAIL_DURATION@)).with(
            "slash_fraction_double_sign"@,
            JsonValue::Text(SLASH_FRACTION_DOUBLE_SIGN@),
        ).with("slash_fraction_downtime"@, JsonValue::Text(SLASH_FRACTION_DOWNTIME@)),
    )
}

/// The answer to a query for the signing record of the validator that the
/// request names as `address`.
pub open spec fn signing_info_json(address: Seq<char>, uptime: UptimeRecord) -> JsonValue {
    JsonValue::object().with(
        "val_signing_info"@,
        JsonValue::object().with("address"@, JsonValue::Text(address)).with(
            "start_height"@,
            JsonValue::Text(START_HEIGHT@),
        ).with("index_offset"@, JsonValue::Text(INDEX_OFFSET@)).with(
            "jailed_until"@,
            JsonValue::Text(JAILED_UNTIL@),
        ).with("tombstoned"@, JsonValue::Bool(TOMBSTONED)).with(
            "missed_blocks_counter"@,
            JsonValue::Text(decimal(uptime.missed_blocks as nat)),
        ),
    )
}

/// Whether `text` writes a validator identity key.
pub open spec fn is_identity(text: Seq<char>) -> bool {
    has_identity_shape(text) && identity_key_bytes(text) is Some
}

/// A decimal place of a fraction below one is a digit.
proof fn lemma_place_is_digit(rem: nat, den: nat)
    requires
        rem < den,
    ensures
        rem * 10 / den < 10,
        rem * 10 % den < den,
{
    assert(rem * 10 / den < 10 && rem * 10 % den < den) by (nonlinear_arith)
        requires
            rem < den,
    ;
}

/// Digits that do not end in zero stay as they are.
proof fn lemma_trimmed_fixed(digits: Seq<u8>)
    requires
        digits.len() == 0 || digits.last() != 0,
    ensures
        trimmed(digits) == digits,
{
}

/// Writes the first 18 decimal places of `rem / den`.
fn decimal_places(rem: u64, den: u64) -> (digits: Vec<u8>)
    requires
        rem < den,
    ensures
        digits@ == places(rem as nat, den as nat, SHARE_PLACES as nat),
        forall|i: int| 0 <= i < digits@.len() ==> digits@[i] < 10,
{
    let mut digits: Vec<u8> = Vec::new();
    let mut rest: u128 = rem as u128;
    let wide: u128 = den as u128;
    let mut i: usize = 0;
    assert(digits@ + places(rest as nat, den as nat, SHARE_PLACES as nat) =~= places(
        rem as nat,
        den as nat,
        SHARE_PLACES as nat,
    ));
    while i < SHARE_PLACES
        invariant
            i <= SHARE_PLACES,
            wide == den,
            rest < wide,
            digits@.len() == i,
            forall|j: int| 0 <= j < digits@.len() ==> digits@[j] < 10,
            digits@ + places(rest as nat, den as nat, (SHARE_PLACES - i) as nat) == places(
                rem as nat,
                den as nat,
                SHARE_PLACES as nat,
            ),
        decreases SHARE_PLACES - i,
    {
        proof {
            lemma_place_is_digit(rest as nat, den as nat);
        }
        let scaled: u128 = rest * 10;
        let digit: u8 = (scaled / wide) as u8;
        let ghost before = digits@;
        let ghost old_rest = rest;
        digits.push(digit);
        rest = scaled % wide;
        i += 1;
        assert(before + places(old_rest as nat, den as nat, (SHARE_PLACES - (i - 1)) as nat)
            =~= digits@ + places(rest as nat, den as nat, (SHARE_PLACES - i) as nat));
    }
    assert(digits@ + Seq::<u8>::empty() =~= digits@);
    digits
}

/// Writes the decimal notation of `numerator / denominator`, negated where
/// `negative` holds, cut off after 18 decimal places.
pub fn write_ratio(negative: bool, numerator: u64, denominator: u64) -> (out: String)
    requires
        denominator > 0,
    ensures
        out@ == ratio_text(negative, numerator as nat, denominator as nat),
{
    let whole: u64 = numerator / denominator;
    let mut digits: Vec<u8> = decimal_places(numerator % denominator, denominator);
    let ghost all = digits@;
    while digits.len() > 0 && digits[digits.len() - 1] == 0
        invariant
            trimmed(digits@) == trimmed(all),
            forall|j: int| 0 <= j < digits@.len() ==> digits@[j] < 10,
        decreases digits.len(),
    {
        let ghost before = digits@;
        digits.pop();
        assert(digits@ =~= before.drop_last());
    }
    proof {
        lemma_trimmed_fixed(digits@);
    }
    let mut out: String = String::new();
    if negative && (whole != 0 || digits.len() > 0) {
        out.append("-");
    }
    append_decimal(&mut out, whole as u128);
    if digits.len() > 0 {
        out.append(".");
    }
    let ghost start = out@;
    let mut i: usize = 0;
    assert(digits@.take(0) =~= Seq::<u8>::empty());
    while i < digits.len()
        invariant
            i <= digits.len(),
            forall|j: int| 0 <= j < digits@.len() ==> digits@[j] < 10,
            out@ =~= start + digits_text(digits@.take(i as int)),
        decreases digits.len() - i,
    {
        out.append(digit_str(digits[i]));
        assert(digits@.take(i + 1) =~= digits@.take(i as int).push(digits@[i as int]));
        i += 1;
    }
    proof {
        reveal_strlit("-");
        reveal_strlit(".");
        assert(digits@.take(i as int) =~= digits@);
        assert("-"@ =~= seq!['-']);
        assert("."@ =~= seq!['.']);
        assert(out@ =~= ratio_text(negative, numerator as nat, denominator as nat));
    }
    out
}

/// Answers a query for the slashing parameters.
///
/// Fails with `MissingField` where the chain's parameters are absent, and
/// with `InvalidConfiguration` where the signed blocks window is empty, of
/// which no share can be taken.
pub fn slashing_params(params: Option<ChainParameters>) -> (doc: Result<Json, GatewayError>)
    ensures
        match params {
            None => doc == Err::<Json, GatewayError>(GatewayError::MissingField),
            Some(p) => if p.signed_blocks_window_len == 0 {
                doc == Err::<Json, GatewayError>(GatewayError::InvalidConfiguration)
            } else {
                doc matches Ok(d) && d@ == slashing_params_json(p)
            },
        },
{
    let p: ChainParameters = match params {
        Some(p) => p,
        None => {
            return Err(GatewayError::MissingField);
        },
    };
    let window: u64 = p.signed_blocks_window_len;
    if window == 0 {
        return Err(GatewayError::InvalidConfiguration);
    }
    let share: String = if p.missed_blocks_maximum <= window {
        write_ratio(false, window - p.missed_blocks_maximum, window)
    } else {
        write_ratio(true, p.missed_blocks_maximum - window, window)
    };
    let inner = Json::object().with(
        "signed_blocks_window",
        Json::Text(decimal_text(window as u128)),
    ).with("min_signed_per_window", Json::Text(share)).with(
        "downtime_jail_duration",
        text(DOWNTIME_JAIL_DURATION),
    ).with("slash_fraction_double_sign", text(SLASH_FRACTION_DOUBLE_SIGN)).with(
        "slash_fraction_downtime",
        text(SLASH_FRACTION_DOWNTIME),
    );
    Ok(Json::object().with("params", inner))
}

/// Writes the answer to a query for the signing record of the validator
/// that the request names as `address`.
pub fn signing_info_document(address: &str, uptime: UptimeRecord) -> (doc: Json)
    ensures
        doc@ == signing_info_json(address@, uptime),
{
    let inner = Json::object().with("address", text(address)).with(
        "start_height",
        text(START_HEIGHT),
    ).with("index_offset", text(INDEX_OFFSET)).with("jailed_until", text(JAILED_UNTIL)).with(
        "tombstoned",
        Json::Bool(TOMBSTONED),
    ).with("missed_blocks_counter", Json::Text(decimal_text(uptime.missed_blocks as u128)));
    Json::object().with("val_signing_info", inner)
}

/// Answers a query for the signing record of the validator named
/// `identity`, given whether that name writes an identity key and the uptime
/// that the chain holds for the key.
///
/// Fails with `MalformedIdentity` where the name writes no key, and
/// otherwise with `MissingField` where the uptime is absent.
pub fn signing_info_of(identity: &str, well_formed: bool, uptime: Option<UptimeRecord>) -> (doc:
    Result<Json, GatewayError>)
    ensures
        !well_formed ==> doc == Err::<Json, GatewayError>(GatewayError::MalformedIdentity),
        well_formed && uptime is None ==> doc == Err::<Json, GatewayError>(
            GatewayError::MissingField,
        ),
        well_formed && uptime is Some ==> (doc matches Ok(d) && d@ == signing_info_json(
            identity@,
            uptime->0,
        )),
{
    if !well_formed {
        return Err(GatewayError::MalformedIdentity);
    }
    match uptime {
        Some(record) => Ok(signing_info_document(identity, record)),
        None => Err(GatewayError::MissingField),
    }
}

/// Answers a query for the signing record of the validator whose identity
/// key is written `identity`, from the uptime that the chain holds for that
/// key.
///
/// Fails with `MalformedIdentity` where `identity` does not write a key,
/// and otherwise with `MissingField` where the uptime is absent.
pub fn signing_info(identity: &str, uptime: Option<UptimeRecord>) -> (doc: Result<
    Json,
    GatewayError,
>)
    ensures
        !is_identity(identity@) ==> doc == Err::<Json, GatewayError>(
            GatewayError::MalformedIdentity,
        ),
        is_identity(identity@) && uptime is None ==> doc == Err::<Json, GatewayError>(
            GatewayError::MissingField,
        ),
        is_identity(identity@) && uptime is Some ==> (doc matches Ok(d) && d@
            == signing_info_json(identity@, uptime->0)),
{
    let well_formed: bool = IdentityKey::parse(identity).is_ok();
    signing_info_of(identity, well_formed, uptime)
}


/// Ten to the power `n`.
pub open spec fn pow10(n: nat) -> nat
    decreases n,
{
    if n == 0 {
        1
    } else {
        10 * pow10((n - 1) as nat)
    }
}

/// The whole number that `digits` write, the first digit counting most.
pub open spec fn digits_value(digits: Seq<u8>) -> nat
    decreases digits.len(),
{
    if digits.len() == 0 {
        0
    } else {
        digits[0] as nat * pow10((digits.len() - 1) as nat) + digits_value(digits.skip(1))
    }
}

/// The first `count` decimal places of a fraction below one are digits,
/// and write the fraction's numerator times ten to the `count`, over its
/// denominator, rounded down.
pub proof fn lemma_places_value(rem: nat, den: nat, count: nat)
    requires
        rem < den,
    ensures
        places(rem, den, count).len() == count,
        forall|i: int| 0 <= i < count ==> #[trigger] places(rem, den, count)[i] < 10,
        digits_value(places(rem, den, count)) == rem * pow10(count) / den,
    decreases count,
{
    if count == 0 {
        assert(rem * pow10(0) / den == 0) by (nonlinear_arith)
            requires
                rem < den,
                pow10(0) == 1,
        ;
    } else {
        let first = rem * 10 / den;
        let next = rem * 10 % den;
        let scale = pow10((count - 1) as nat);
        let rest = places(next, den, (count - 1) as nat);
        let all = places(rem, den, count);
        lemma_place_is_digit(rem, den);
        lemma_places_value(next, den, (count - 1) as nat);
        assert(all == seq![first as u8] + rest);
        assert(all[0] == first as u8);
        assert(all.skip(1) =~= rest);
        assert forall|i: int| 0 <= i < count implies #[trigger] all[i] < 10 by {
            if i > 0 {
                assert(all[i] == rest[i - 1]);
            }
        }
        vstd::arithmetic::div_mod::lemma_fundamental_div_mod((rem * 10) as int, den as int);
        assert(rem * pow10(count) == next * scale + (first * scale) * den) by (nonlinear_arith)
            requires
                pow10(count) == 10 * scale,
                rem * 10 == den * first + next,
        ;
        vstd::arithmetic::div_mod::lemma_hoist_over_denominator(
            (next * scale) as int,
            (first * scale) as int,
            den,
        );
    }
}

/// Trimming takes only zeros away, and only from the end.
pub proof fn lemma_trimmed_drops_zeros(digits: Seq<u8>)
    ensures
        trimmed(digits).len() <= digits.len(),
        trimmed(digits) == digits.take(trimmed(digits).len() as int),
        forall|i: int| trimmed(digits).len() <= i < digits.len() ==> #[trigger] digits[i] == 0,
        trimmed(digits).len() > 0 ==> trimmed(digits).last() != 0,
    decreases digits.len(),
{
    if digits.len() > 0 && digits.last() == 0 {
        let shorter = digits.drop_last();
        lemma_trimmed_drops_zeros(shorter);
        assert(shorter.take(trimmed(digits).len() as int) =~= digits.take(
            trimmed(digits).len() as int,
        ));
        assert forall|i: int| trimmed(digits).len() <= i < digits.len() implies #[trigger] digits[i]
            == 0 by {
            if i < shorter.len() {
                assert(digits[i] == shorter[i]);
            }
        }
    } else {
        assert(digits.take(digits.len() as int) =~= digits);
    }
}

} // verus!

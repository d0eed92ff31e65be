//! The head of the chain and the average time between blocks, from which
//! the times of other heights are estimated.

use crate::error::GatewayError;
use vstd::arithmetic::div_mod::lemma_fundamental_div_mod_converse;
use vstd::arithmetic::mul::lemma_mul_upper_bound;
use vstd::prelude::*;

verus! {

/// Number of blocks between the head of the chain and the earlier block
/// that is sampled to average the time between blocks.
pub const SAMPLE_WINDOW: u64 = 100;

/// Largest distance, in seconds, between two block times.
pub const MAX_ELAPSED_SECONDS: i128 = 0xffff_ffff_ffff_ffff;

/// What the chain reports of its own progress.
#[derive(Clone, Copy, Debug, PartialEq, Eq)]
pub struct SyncInfo {
    pub latest_block_height: u64,
    /// Time of the latest block in seconds since the Unix epoch, where the
    /// chain reports one.
    pub latest_block_time: Option<i64>,
}

/// The header of a block, as far as the gateway reads it.
#[derive(Clone, Copy, Debug, PartialEq, Eq)]
pub struct BlockHeader {
    pub height: i64,
    /// Time of the block in seconds since the Unix epoch, where the header
    /// carries one.
    pub time: Option<i64>,
}

/// The latest block of the chain: the reference for one request.
#[derive(Clone, Copy, Debug, PartialEq, Eq)]
pub struct ChainHead {
    pub height: u64,
    /// Seconds since the Unix epoch.
    pub time: i64,
}

/// The average time between blocks, kept exactly: `seconds` elapsed over
/// `blocks` consecutive blocks.
#[derive(Clone, Copy, Debug, PartialEq, Eq)]
pub struct BlockTime {
    seconds: i128,
    blocks: i128,
}

impl BlockTime {
    /// Seconds elapsed over the sampled blocks.
    pub closed spec fn seconds(self) -> int {
        self.seconds as int
    }

    /// Number of sampled blocks.
    pub closed spec fn blocks(self) -> int {
        self.blocks as int
    }

    /// At least one block was sampled, and the elapsed time is a distance
    /// between two block times.
    #[verifier::type_invariant]
    pub open spec fn is_valid(self) -> bool {
        &&& 0 < self.blocks()
        &&& -MAX_ELAPSED_SECONDS <= self.seconds() <= MAX_ELAPSED_SECONDS
    }

    /// The rate of `seconds` per `blocks` blocks; none over zero blocks.
    pub fn new(seconds: i64, blocks: u64) -> (rate: Option<BlockTime>)
        ensures
            rate is Some <==> blocks > 0,
            rate matches Some(r) ==> r.is_valid() && r.seconds() == seconds && r.blocks() == blocks,
    {
        if blocks == 0 {
            None
        } else {
            Some(BlockTime { seconds: seconds as i128, blocks: blocks as i128 })
        }
    }

    /// Seconds elapsed over the sampled blocks.
    pub fn total_seconds(&self) -> (seconds: i128)
        ensures
            seconds == self.seconds(),
    {
        self.seconds
    }

    /// Number of sampled blocks.
    pub fn total_blocks(&self) -> (blocks: i128)
        ensures
            blocks == self.blocks(),
            blocks > 0,
    {
        proof {
            use_type_invariant(self);
        }
        self.blocks
    }
}

/// The head of the chain that `info` reports.
pub open spec fn head_of(info: Option<SyncInfo>) -> Result<ChainHead, GatewayError> {
    match info {
        Some(SyncInfo { latest_block_height, latest_block_time: Some(time) }) => Ok(
            ChainHead { height: latest_block_height, time },
        ),
        _ => Err(GatewayError::MissingField),
    }
}

/// Reads the head of the chain from the chain's status.
///
/// Fails with `MissingField` where the status lacks the synchronisation
/// report or the report lacks the time of the latest block.
pub fn get_sync_info(info: Option<SyncInfo>) -> (head: Result<ChainHead, GatewayError>)
    ensures
        head == head_of(info),
{
    match info {
        Some(report) => match report.latest_block_time {
            Some(time) => Ok(ChainHead { height: report.latest_block_height, time }),
            None => Err(GatewayError::MissingField),
        },
        None => Err(GatewayError::MissingField),
    }
}

/// Height of the earlier block to sample for a chain whose head is `head`.
///
/// Fails with `ChainTooYoung` where the head is within the sampling window
/// of the first block.
pub fn sample_height(head: &ChainHead) -> (height: Result<u64, GatewayError>)
    ensures
        head.height <= SAMPLE_WINDOW ==> height == Err::<u64, GatewayError>(
            GatewayError::ChainTooYoung,
        ),
        head.height > SAMPLE_WINDOW ==> height == Ok::<u64, GatewayError>(
            (head.height - SAMPLE_WINDOW) as u64,
        ),
{
    if head.height <= SAMPLE_WINDOW {
        Err(GatewayError::ChainTooYoung)
    } else {
        Ok(head.height - SAMPLE_WINDOW)
    }
}

/// Whether `sample` is a block before `head` that carries a time.
pub open spec fn is_usable_sample(head: ChainHead, sample: Option<BlockHeader>) -> bool {
    &&& head.height > SAMPLE_WINDOW
    &&& sample matches Some(BlockHeader { height, time: Some(_) })
    &&& height < head.height
}

/// Why no block time can be averaged from a sample that is not usable: the
/// chain is too young where the head is within the sampling window of the
/// first block; otherwise a field is missing where the header, or its time,
/// is absent; otherwise the sampled block is not below the head, which again
/// leaves no blocks to average over.
pub open spec fn sample_failure(head: ChainHead, sample: Option<BlockHeader>) -> GatewayError {
    if head.height <= SAMPLE_WINDOW {
        GatewayError::ChainTooYoung
    } else if !(sample matches Some(BlockHeader { height, time: Some(_) })) {
        GatewayError::MissingField
    } else {
        GatewayError::ChainTooYoung
    }
}

/// The average block time between a usable sample and the head: the
/// seconds between the two block times over the blocks between the two
/// heights.
pub closed spec fn sampled_rate(head: ChainHead, sample: Option<BlockHeader>) -> BlockTime {
    BlockTime {
        seconds: (head.time - sample->0.time->0) as i128,
        blocks: (head.height - sample->0.height) as i128,
    }
}

/// What the average block time between a usable sample and the head holds.
pub proof fn lemma_sampled_rate(head: ChainHead, sample: Option<BlockHeader>)
    requires
        is_usable_sample(head, sample),
    ensures
        sampled_rate(head, sample).is_valid(),
        sampled_rate(head, sample).seconds() == head.time - sample->0.time->0,
        sampled_rate(head, sample).blocks() == head.height - sample->0.height,
{
}

/// Averages the time between blocks from the head of the chain and the
/// header sampled at `sample_height(head)`: the seconds between the two
/// block times over the blocks between the two heights.
///
/// Fails with `ChainTooYoung` where the head is within the sampling window
/// of the first block or the sampled block is not below the head, and with
/// `MissingField` where the header, or its time, is absent.
pub fn get_block_time(head: &ChainHead, sample: Option<BlockHeader>) -> (rate: Result<
    BlockTime,
    GatewayError,
>)
    ensures
        is_usable_sample(*head, sample) <==> rate is Ok,
        rate matches Ok(r) ==> {
            &&& r == sampled_rate(*head, sample)
            &&& r.is_valid()
            &&& r.seconds() == head.time - sample->0.time->0
            &&& r.blocks() == head.height - sample->0.height
        },
        rate matches Err(e) ==> e == sample_failure(*head, sample),
{
    if head.height <= SAMPLE_WINDOW {
        return Err(GatewayError::ChainTooYoung);
    }
    let header: BlockHeader = match sample {
        Some(header) => header,
        None => {
            return Err(GatewayError::MissingField);
        },
    };
    let sampled_time: i64 = match header.time {
        Some(time) => time,
        None => {
            return Err(GatewayError::MissingField);
        },
    };
    let blocks: i128 = head.height as i128 - header.height as i128;
    if blocks <= 0 {
        return Err(GatewayError::ChainTooYoung);
    }
    let seconds: i128 = head.time as i128 - sampled_time as i128;
    Ok(BlockTime { seconds, blocks })
}

/// The quotient of `n` by `d`, its fraction cut off: the whole number
/// nearest to zero of the two that the quotient lies between.
pub open spec fn truncated_quotient(n: int, d: int) -> int {
    if n >= 0 {
        n / d
    } else {
        -((-n) / d)
    }
}

/// The time, in whole seconds since the Unix epoch, at which the chain is
/// estimated to be at `height`: the time of the head, less the average
/// block time for each block from `height` to the head, the fraction of a
/// second cut off.
pub open spec fn estimated_time(head: ChainHead, height: u64, rate: BlockTime) -> int {
    truncated_quotient(
        head.time * rate.blocks() - (head.height - height) * rate.seconds(),
        rate.blocks(),
    )
}

/// The truncated quotient of a number written as `f * d + r`, with `r`
/// below `d`: `f` where the number is not negative or `r` is zero, and one
/// more than `f` otherwise.
proof fn lemma_truncated_quotient(n: int, d: int, f: int, r: int)
    requires
        0 < d,
        0 <= r < d,
        n == f * d + r,
    ensures
        n >= 0 <==> f >= 0,
        truncated_quotient(n, d) == if f >= 0 || r == 0 {
            f
        } else {
            f + 1
        },
{
    assert(n >= 0 <==> f >= 0) by (nonlinear_arith)
        requires
            0 < d,
            0 <= r < d,
            n == f * d + r,
    ;
    if n >= 0 {
        lemma_fundamental_div_mod_converse(n, d, f, r);
    } else if r == 0 {
        assert(-n == (-f) * d + 0) by (nonlinear_arith)
            requires
                n == f * d + r,
                r == 0,
        ;
        lemma_fundamental_div_mod_converse(-n, d, -f, 0);
    } else {
        assert(-n == (-f - 1) * d + (d - r)) by (nonlinear_arith)
            requires
                n == f * d + r,
        ;
        lemma_fundamental_div_mod_converse(-n, d, -f - 1, d - r);
    }
}

/// At the head's own height the estimate is the head's time.
pub proof fn lemma_estimate_at_head(head: ChainHead, rate: BlockTime)
    requires
        rate.is_valid(),
    ensures
        estimated_time(head, head.height, rate) == head.time,
{
    let d = rate.blocks();
    let n = head.time * d - (head.height - head.height) * rate.seconds();
    assert(n == head.time * d + 0) by (nonlinear_arith)
        requires
            n == head.time * d - (head.height - head.height) * rate.seconds(),
    ;
    lemma_truncated_quotient(n, d, head.time as int, 0);
}

/// Where the average block time is a whole number of seconds, the estimate
/// is the head's time less that number for each block from `height` to the
/// head.
pub proof fn lemma_estimate_whole_seconds(
    head: ChainHead,
    height: u64,
    rate: BlockTime,
    seconds_per_block: int,
)
    requires
        rate.is_valid(),
        rate.seconds() == seconds_per_block * rate.blocks(),
    ensures
        estimated_time(head, height, rate) == head.time - (head.height - height)
            * seconds_per_block,
{
    let d = rate.blocks();
    let n = head.time * d - (head.height - height) * rate.seconds();
    let f = head.time - (head.height - height) * seconds_per_block;
    assert(n == f * d + 0) by (nonlinear_arith)
        requires
            n == head.time * d - (head.height - height) * rate.seconds(),
            f == head.time - (head.height - height) * seconds_per_block,
            rate.seconds() == seconds_per_block * d,
    ;
    lemma_truncated_quotient(n, d, f, 0);
}

/// The estimate lies between zero and the exact instant, less than a second
/// from the instant: at or below an instant that is not negative, at or
/// above a negative one.
pub proof fn lemma_estimate_is_cut_towards_zero(head: ChainHead, height: u64, rate: BlockTime)
    requires
        rate.is_valid(),
    ensures
        ({
            let n = head.time * rate.blocks() - (head.height - height) * rate.seconds();
            let e = estimated_time(head, height, rate);
            &&& n >= 0 ==> e >= 0 && e * rate.blocks() <= n < (e + 1) * rate.blocks()
            &&& n < 0 ==> e <= 0 && (e - 1) * rate.blocks() < n <= e * rate.blocks()
        }),
{
    let d = rate.blocks();
    let n = head.time * d - (head.height - height) * rate.seconds();
    let f = n / d;
    let r = n % d;
    vstd::arithmetic::div_mod::lemma_fundamental_div_mod(n, d);
    assert(0 <= r < d) by (nonlinear_arith)
        requires
            0 < d,
            r == n % d,
    ;
    assert(n == f * d + r) by (nonlinear_arith)
        requires
            n == d * f + r,
    ;
    lemma_truncated_quotient(n, d, f, r);
    let e = estimated_time(head, height, rate);
    assert(n >= 0 ==> e >= 0 && e * d <= n < (e + 1) * d) by (nonlinear_arith)
        requires
            n == f * d + r,
            0 <= r < d,
            n >= 0 <==> f >= 0,
            e == (if f >= 0 || r == 0 {
                f
            } else {
                f + 1
            }),
    ;
    assert(n < 0 ==> e <= 0 && (e - 1) * d < n <= e * d) by (nonlinear_arith)
        requires
            n == f * d + r,
            0 <= r < d,
            n >= 0 <==> f >= 0,
            e == (if f >= 0 || r == 0 {
                f
            } else {
                f + 1
            }),
    ;
}

/// Estimates the time at which the chain is at `height`, from the head of
/// the chain and the average block time.
///
/// Returns `None` where the estimate is not a number of seconds that fits
/// in 64 bits.
pub fn estimate_time(head: &ChainHead, height: u64, rate: &BlockTime) -> (time: Option<i64>)
    ensures
        time == (if i64::MIN <= estimated_time(*head, height, *rate) <= i64::MAX {
            Some(estimated_time(*head, height, *rate) as i64)
        } else {
            None
        }),
{
    proof {
        use_type_invariant(rate);
    }
    let below: bool = height <= head.height;
    let distance: u128 = if below {
        (head.height - height) as u128
    } else {
        (height - head.height) as u128
    };
    let backwards: bool = rate.seconds < 0;
    let pace: u128 = if backwards {
        (-rate.seconds) as u128
    } else {
        rate.seconds as u128
    };
    let divisor: u128 = rate.blocks as u128;
    proof {
        lemma_mul_upper_bound(
            distance as int,
            0xffff_ffff_ffff_ffff,
            pace as int,
            0xffff_ffff_ffff_ffff,
        );
    }
    let span: u128 = distance * pace;
    let whole: u128 = span / divisor;
    let rest: u128 = span % divisor;
    // The offset from the head's time is `span / divisor` seconds, later
    // than the head where exactly one of `below` and `backwards` fails.
    let later: bool = below == backwards;
    let ghost t = head.time as int;
    let ghost d = rate.blocks();
    let ghost shift = -((head.height - height) * rate.seconds());
    let ghost n = head.time * rate.blocks() - (head.height - height) * rate.seconds();
    assert(span == whole * divisor + rest) by (nonlinear_arith)
        requires
            divisor > 0,
            whole == span / divisor,
            rest == span % divisor,
    ;
    assert(shift == if later {
        span as int
    } else {
        -(span as int)
    }) by (nonlinear_arith)
        requires
            shift == -((head.height - height) * rate.seconds()),
            span == distance * pace,
            distance == (if below {
                head.height - height
            } else {
                height - head.height
            }),
            pace == (if backwards {
                -rate.seconds()
            } else {
                rate.seconds()
            }),
            later == (below == backwards),
            backwards == (rate.seconds() < 0),
            below == (height <= head.height),
    ;
    assert(n == t * d + shift);
    proof {
        if later {
            assert(n == (t + whole) * d + rest) by (nonlinear_arith)
                requires
                    n == t * d + shift,
                    shift == whole * d + rest,
            ;
            lemma_truncated_quotient(n, d, t + whole, rest as int);
        } else if rest > 0 {
            assert(n == (t - whole - 1) * d + (d - rest)) by (nonlinear_arith)
                requires
                    n == t * d + shift,
                    shift == -(whole * d + rest),
            ;
            lemma_truncated_quotient(n, d, t - whole - 1, d - rest);
        } else {
            assert(n == (t - whole) * d + 0) by (nonlinear_arith)
                requires
                    n == t * d + shift,
                    shift == -(whole * d + rest),
                    rest == 0,
            ;
            lemma_truncated_quotient(n, d, t - whole, 0);
        }
    }
    if whole > 0xffff_ffff_ffff_ffff {
        return None;
    }
    let base: i128 = if later {
        head.time as i128 + whole as i128
    } else {
        head.time as i128 - whole as i128
    };
    // Where a fraction is left, `base` is the estimate rounded down if it
    // lies later than the head and rounded up if earlier: the estimate is
    // the one of the two roundings that is nearer to zero.
    let value: i128 = if rest == 0 {
        base
    } else if later {
        if base < 0 {
            base + 1
        } else {
            base
        }
    } else {
        if base <= 0 {
            base
        } else {
            base - 1
        }
    };
    if value < i64::MIN as i128 || value > i64::MAX as i128 {
        None
    } else {
        Some(value as i64)
    }
}

} // verus!

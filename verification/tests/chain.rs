use cosmos_gateway::chain::{
    estimate_time, get_block_time, get_sync_info, sample_height, BlockHeader, BlockTime, ChainHead,
    SyncInfo, SAMPLE_WINDOW,
};
use cosmos_gateway::error::GatewayError;

fn head_1100() -> ChainHead {
    ChainHead { height: 1100, time: 11000 }
}

#[test]
fn block_time_is_ten_seconds_over_the_sampled_hundred_blocks() {
    let rate =
        get_block_time(&head_1100(), Some(BlockHeader { height: 1000, time: Some(10000) }))
            .unwrap();
    assert_eq!(rate.total_seconds(), 1000);
    assert_eq!(rate.total_blocks(), 100);
    assert_eq!(rate.total_seconds() as f64 / rate.total_blocks() as f64, 10.0);
}

#[test]
fn voting_start_is_extrapolated_from_the_head() {
    let rate = BlockTime::new(10, 1).unwrap();
    assert_eq!(estimate_time(&head_1100(), 1050, &rate), Some(10500));
    let sampled =
        get_block_time(&head_1100(), Some(BlockHeader { height: 1000, time: Some(10000) }))
            .unwrap();
    assert_eq!(estimate_time(&head_1100(), 1050, &sampled), Some(10500));
}

#[test]
fn heights_above_the_head_are_estimated_later() {
    let rate = BlockTime::new(10, 1).unwrap();
    assert_eq!(estimate_time(&head_1100(), 1150, &rate), Some(11500));
    assert_eq!(estimate_time(&head_1100(), 1100, &rate), Some(11000));
}

#[test]
fn estimates_are_cut_to_whole_seconds() {
    let rate = BlockTime::new(10, 3).unwrap();
    // 11000 - 1 * 10 / 3 = 10996.66...
    assert_eq!(estimate_time(&head_1100(), 1099, &rate), Some(10996));
    // 11000 + 1 * 10 / 3 = 11003.33...
    assert_eq!(estimate_time(&head_1100(), 1101, &rate), Some(11003));
    // 11000 - 3 * 10 / 3 = 10990
    assert_eq!(estimate_time(&head_1100(), 1097, &rate), Some(10990));
    let early = ChainHead { height: 10, time: 5 };
    // 5 - 2 * 10 / 3 = -1.66...
    assert_eq!(estimate_time(&early, 8, &rate), Some(-1));
    // 5 - 3 * 10 / 3 = -5
    assert_eq!(estimate_time(&early, 7, &rate), Some(-5));
    // 5 - 1 * 10 / 3 = 1.66...
    assert_eq!(estimate_time(&early, 9, &rate), Some(1));
    // 5 - 2 * 10 / 4 = 0
    assert_eq!(estimate_time(&early, 8, &BlockTime::new(10, 4).unwrap()), Some(0));
    // 1 - 1 * 10 / 8 = -0.25
    assert_eq!(
        estimate_time(&ChainHead { height: 10, time: 1 }, 9, &BlockTime::new(10, 8).unwrap()),
        Some(0)
    );
}

#[test]
fn negative_estimates_are_cut_towards_zero() {
    let head = ChainHead { height: 1100, time: 11050 };
    let rate = get_block_time(&head, Some(BlockHeader { height: 1000, time: Some(10000) }))
        .unwrap();
    // 11050 - 1099 * 10.5 = -489.5
    assert_eq!(estimate_time(&head, 1, &rate), Some(-489));
    // 11050 - 1100 * 10.5 = -500
    assert_eq!(estimate_time(&head, 0, &rate), Some(-500));
    let before = ChainHead { height: 10, time: -100 };
    let backwards = BlockTime::new(-7, 2).unwrap();
    // -100 - 1 * (-3.5) = -96.5
    assert_eq!(estimate_time(&before, 9, &backwards), Some(-96));
    // -100 + 1 * (-3.5) = -103.5
    assert_eq!(estimate_time(&before, 11, &backwards), Some(-103));
    let forwards = BlockTime::new(7, 2).unwrap();
    // -100 + 1 * 3.5 = -96.5
    assert_eq!(estimate_time(&before, 11, &forwards), Some(-96));
    // -100 - 1 * 3.5 = -103.5
    assert_eq!(estimate_time(&before, 9, &forwards), Some(-103));
}

#[test]
fn a_clock_that_ran_backwards_is_followed() {
    let rate = BlockTime::new(-10, 4).unwrap();
    // 11000 - 2 * (-10) / 4 = 11005
    assert_eq!(estimate_time(&head_1100(), 1098, &rate), Some(11005));
    // 11000 + 1 * (-10) / 4 = 10997.5
    assert_eq!(estimate_time(&head_1100(), 1101, &rate), Some(10997));
}

#[test]
fn estimates_beyond_64_bits_are_none() {
    let rate = BlockTime::new(i64::MAX, 1).unwrap();
    assert_eq!(estimate_time(&head_1100(), 0, &rate), None);
    assert_eq!(estimate_time(&head_1100(), u64::MAX, &rate), None);
    let head = ChainHead { height: u64::MAX, time: i64::MIN };
    let slow = BlockTime::new(i64::MIN, 1).unwrap();
    assert_eq!(estimate_time(&head, 0, &slow), None);
    let edge = ChainHead { height: 1, time: i64::MAX };
    let one = BlockTime::new(1, 1).unwrap();
    assert_eq!(estimate_time(&edge, 1, &one), Some(i64::MAX));
    assert_eq!(estimate_time(&edge, 2, &one), None);
    assert_eq!(estimate_time(&edge, 0, &one), Some(i64::MAX - 1));
    let low = ChainHead { height: 1, time: i64::MIN };
    assert_eq!(estimate_time(&low, 0, &one), None);
    assert_eq!(estimate_time(&low, 1, &one), Some(i64::MIN));
    let half = BlockTime::new(1, 2).unwrap();
    // i64::MIN - 0.5 is cut to i64::MIN
    assert_eq!(estimate_time(&low, 0, &half), Some(i64::MIN));
    // i64::MIN - 1 is out of range
    assert_eq!(estimate_time(&ChainHead { height: 2, time: i64::MIN }, 0, &half), None);
    // i64::MAX + 0.5 is cut to i64::MAX
    assert_eq!(estimate_time(&edge, 2, &half), Some(i64::MAX));
    assert_eq!(estimate_time(&edge, 3, &half), None);
}

#[test]
fn a_still_clock_estimates_the_head_time_for_every_height() {
    let rate = BlockTime::new(0, 7).unwrap();
    assert_eq!(estimate_time(&head_1100(), 0, &rate), Some(11000));
    assert_eq!(estimate_time(&head_1100(), u64::MAX, &rate), Some(11000));
}

#[test]
fn no_block_time_over_zero_blocks() {
    assert_eq!(BlockTime::new(10, 0), None);
    assert!(BlockTime::new(0, 1).is_some());
}

#[test]
fn sample_height_is_a_window_below_the_head() {
    assert_eq!(SAMPLE_WINDOW, 100);
    assert_eq!(sample_height(&head_1100()), Ok(1000));
    assert_eq!(sample_height(&ChainHead { height: 101, time: 0 }), Ok(1));
}

#[test]
fn a_chain_within_the_window_is_too_young() {
    assert_eq!(
        sample_height(&ChainHead { height: 100, time: 0 }),
        Err(GatewayError::ChainTooYoung)
    );
    assert_eq!(sample_height(&ChainHead { height: 0, time: 0 }), Err(GatewayError::ChainTooYoung));
    let young = ChainHead { height: 100, time: 1000 };
    assert_eq!(
        get_block_time(&young, Some(BlockHeader { height: 0, time: Some(0) })),
        Err(GatewayError::ChainTooYoung)
    );
    assert_eq!(get_block_time(&young, None), Err(GatewayError::ChainTooYoung));
}

#[test]
fn a_sample_that_is_not_below_the_head_gives_no_block_time() {
    assert_eq!(
        get_block_time(&head_1100(), Some(BlockHeader { height: 1100, time: Some(10000) })),
        Err(GatewayError::ChainTooYoung)
    );
    assert_eq!(
        get_block_time(&head_1100(), Some(BlockHeader { height: 2000, time: Some(10000) })),
        Err(GatewayError::ChainTooYoung)
    );
}

#[test]
fn a_sample_without_header_or_time_is_a_missing_field() {
    assert_eq!(get_block_time(&head_1100(), None), Err(GatewayError::MissingField));
    assert_eq!(
        get_block_time(&head_1100(), Some(BlockHeader { height: 1000, time: None })),
        Err(GatewayError::MissingField)
    );
}

#[test]
fn block_time_spans_the_blocks_actually_sampled() {
    let rate =
        get_block_time(&head_1100(), Some(BlockHeader { height: 1090, time: Some(10940) }))
            .unwrap();
    assert_eq!(rate.total_seconds(), 60);
    assert_eq!(rate.total_blocks(), 10);
    let far = get_block_time(
        &ChainHead { height: u64::MAX, time: i64::MAX },
        Some(BlockHeader { height: i64::MIN, time: Some(i64::MIN) }),
    )
    .unwrap();
    assert_eq!(far.total_seconds(), u64::MAX as i128);
    assert_eq!(far.total_blocks(), u64::MAX as i128 + (1i128 << 63));
}

#[test]
fn sync_info_gives_the_head() {
    assert_eq!(
        get_sync_info(Some(SyncInfo { latest_block_height: 1100, latest_block_time: Some(11000) })),
        Ok(head_1100())
    );
}

#[test]
fn sync_info_without_report_or_time_is_a_missing_field() {
    assert_eq!(get_sync_info(None), Err(GatewayError::MissingField));
    assert_eq!(
        get_sync_info(Some(SyncInfo { latest_block_height: 1100, latest_block_time: None })),
        Err(GatewayError::MissingField)
    );
}

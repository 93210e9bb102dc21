use sugar_upload::estimate::{
    mock_links, mock_uri, required_amount, total_size, FEE_MULTIPLIER, HEADER_SIZE, MINIMUM_SIZE,
    MOCK_URI_SIZE,
};

#[test]
fn the_constants_of_the_estimate() {
    assert_eq!(HEADER_SIZE, 2000);
    assert_eq!(MINIMUM_SIZE, 10000);
    assert_eq!(MOCK_URI_SIZE, 100);
    assert_eq!(FEE_MULTIPLIER, 1);
}

#[test]
fn an_empty_batch_is_billed_for_nothing() {
    assert_eq!(total_size(&vec![], &vec![], &vec![]), Some(0));
}

#[test]
fn a_small_file_is_billed_for_the_minimum() {
    assert_eq!(total_size(&vec![1], &vec![], &vec![]), Some(12_000));
    assert_eq!(total_size(&vec![0], &vec![], &vec![]), Some(12_000));
    assert_eq!(total_size(&vec![9_999], &vec![], &vec![]), Some(12_000));
    assert_eq!(total_size(&vec![10_000], &vec![], &vec![]), Some(12_000));
}

#[test]
fn a_large_file_is_billed_for_its_size_and_the_header() {
    assert_eq!(total_size(&vec![10_001], &vec![], &vec![]), Some(12_001));
    assert_eq!(total_size(&vec![], &vec![5_000_000], &vec![]), Some(5_002_000));
    assert_eq!(total_size(&vec![], &vec![], &vec![123_456]), Some(125_456));
}

#[test]
fn a_batch_is_billed_for_the_sum_of_its_files() {
    let images = vec![250_000, 3];
    let animations = vec![1_000_000];
    let metadata = vec![700, 12_345];
    // 252000 + 12000 + 1002000 + 12000 + 14345
    assert_eq!(total_size(&images, &animations, &metadata), Some(1_292_345));
}

#[test]
fn the_estimate_does_not_shrink_when_a_file_grows() {
    let mut previous = 0;
    for size in [0u64, 1, 9_999, 10_000, 10_001, 50_000, 1 << 40] {
        let total = total_size(&vec![size, 20_000], &vec![size], &vec![400]).unwrap();
        assert!(total >= previous);
        previous = total;
    }
}

#[test]
fn a_total_beyond_64_bits_is_none() {
    assert_eq!(total_size(&vec![u64::MAX], &vec![], &vec![]), None);
    assert_eq!(total_size(&vec![u64::MAX - 2_000], &vec![], &vec![]), Some(u64::MAX));
    assert_eq!(total_size(&vec![u64::MAX - 2_000], &vec![], &vec![1]), None);
    assert_eq!(total_size(&vec![u64::MAX - 14_000], &vec![1], &vec![]), Some(u64::MAX));
    assert_eq!(total_size(&vec![1 << 63], &vec![1 << 63], &vec![]), None);
}

#[test]
fn the_required_amount_is_the_fee_times_the_multiplier() {
    assert_eq!(required_amount(0), 0);
    assert_eq!(required_amount(12_345), 12_345);
    assert_eq!(required_amount(u64::MAX), u64::MAX);
}

#[test]
fn the_mock_uri_is_a_hundred_times_x() {
    assert_eq!(mock_uri(), "x".repeat(100));
}

#[test]
fn the_mock_links_follow_the_asset() {
    assert_eq!(mock_links(false), ("x".repeat(100), None));
    assert_eq!(mock_links(true), ("x".repeat(100), Some("x".repeat(100))));
}

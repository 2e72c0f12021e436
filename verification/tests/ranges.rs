use test_providers::constants::{
    BERLIN_BLOCK_NUMBER, BYZANTIUM_BLOCK_NUMBER, CONSTANTINOPLE_BLOCK_NUMBER,
    HOMESTEAD_BLOCK_NUMBER, ISTANBUL_BLOCK_NUMBER, LONDON_BLOCK_NUMBER, MERGE_BLOCK_NUMBER,
    SHANGHAI_BLOCK_NUMBER,
};
use test_providers::ranges::{Ranges, RANGE_COUNT};
use test_providers::sampling::sample_blocks;
use test_providers::success_rate::SuccessRate;

const NAMES: [&str; 9] = [
    "Frontier",
    "Homestead",
    "Byzantium",
    "Constantinople",
    "Istanbul",
    "Berlin",
    "London",
    "Merge",
    "Shanghai",
];

fn starts(latest_block: u64) -> Vec<u64> {
    vec![
        0,
        HOMESTEAD_BLOCK_NUMBER,
        BYZANTIUM_BLOCK_NUMBER,
        CONSTANTINOPLE_BLOCK_NUMBER,
        ISTANBUL_BLOCK_NUMBER,
        BERLIN_BLOCK_NUMBER,
        LONDON_BLOCK_NUMBER,
        MERGE_BLOCK_NUMBER,
        SHANGHAI_BLOCK_NUMBER,
        latest_block,
    ]
}

#[test]
fn samples_lie_in_their_range_and_vary() {
    let blocks = sample_blocks(100, 110, 1000);
    assert_eq!(blocks.len(), 1000);
    assert!(blocks.iter().all(|block| (100..110).contains(block)));
    assert!(blocks.iter().any(|block| *block != blocks[0]));
}

#[test]
fn a_range_of_one_block_gives_that_block() {
    assert_eq!(sample_blocks(41, 42, 3), vec![41, 41, 41]);
    assert_eq!(sample_blocks(u64::MAX - 1, u64::MAX, 1), vec![u64::MAX - 1]);
    assert_eq!(sample_blocks(0, u64::MAX, 0), Vec::<u64>::new());
}

#[test]
fn every_fork_is_sampled_within_its_bounds() {
    let latest_block = 19_000_000;
    let ranges = Ranges::into_vec(50, latest_block);
    let starts = starts(latest_block);
    assert_eq!(ranges.len(), RANGE_COUNT);
    for (i, range) in ranges.iter().enumerate() {
        assert_eq!(range.to_string(), NAMES[i]);
        assert_eq!(range.blocks().len(), 50);
        assert!(range.blocks().iter().all(|block| starts[i] <= *block && *block < starts[i + 1]));
        assert_eq!(range.display_summary(), format!("Range: {} // Failure Rate: 0/0", NAMES[i]));
    }
}

#[test]
fn the_last_fork_may_have_a_single_block() {
    let ranges = Ranges::into_vec(2, SHANGHAI_BLOCK_NUMBER + 1);
    assert_eq!(*ranges[8].blocks(), vec![SHANGHAI_BLOCK_NUMBER; 2]);
}

#[test]
fn no_samples_were_asked_for() {
    for range in Ranges::into_vec(0, 18_000_000) {
        assert!(range.blocks().is_empty());
    }
}

#[test]
fn forks_follow_one_another() {
    let starts = starts(20_000_000);
    for i in 0..9 {
        assert!(starts[i] < starts[i + 1]);
    }
    assert_eq!(starts[7], 15_537_394);
}

#[test]
fn ranges_keep_given_samples_in_order() {
    let ranges = Ranges::from_samples(
        vec![1],
        vec![2],
        vec![3, 3],
        vec![4],
        vec![5],
        vec![6],
        vec![7],
        vec![],
        vec![9],
    );
    let zero = SuccessRate { failures: 0, total: 0 };
    assert_eq!(ranges[0], Ranges::Frontier((vec![1], zero)));
    assert_eq!(ranges[2], Ranges::Byzantium((vec![3, 3], zero)));
    assert_eq!(ranges[7], Ranges::Merge((vec![], zero)));
    assert_eq!(ranges[8], Ranges::Shanghai((vec![9], zero)));
}

#[test]
fn the_last_sample_touches_only_the_last_range() {
    let with_last = |last: Vec<u64>| {
        Ranges::from_samples(
            vec![1, 1],
            vec![2_000_000, 1_150_000],
            vec![5_000_000, 5_000_000],
            vec![8_000_000, 7_280_000],
            vec![10_000_000, 9_069_000],
            vec![12_500_000, 12_244_000],
            vec![13_000_000, 14_000_000],
            vec![16_000_000, 15_537_394],
            last,
        )
    };
    let one = with_last(vec![17_034_870, 17_034_870]);
    let other = with_last(vec![19_999_999, 18_000_000]);
    assert_eq!(one[..8], other[..8]);
    assert_ne!(one[8], other[8]);
}

#[test]
fn the_whole_of_a_range_can_be_drawn() {
    let blocks = sample_blocks(5, 8, 2000);
    for block in [5, 6, 7] {
        assert!(blocks.contains(&block));
    }
    assert!(blocks.windows(2).any(|pair| pair[0] > pair[1]));
    assert!(blocks.windows(2).any(|pair| pair[0] == pair[1]));
}

#[test]
fn rates_add_up_and_blocks_stay() {
    let mut range = Ranges::London((vec![12_965_000, 13_000_000], SuccessRate::default()));
    range.update_success_rate(2, 6);
    range.update_success_rate(3, 6);
    assert_eq!(
        range,
        Ranges::London((vec![12_965_000, 13_000_000], SuccessRate { failures: 5, total: 12 }))
    );
    assert_eq!(range.display_summary(), "Range: London // Failure Rate: 5/12");
}

#[test]
fn rates_reach_the_largest_count() {
    let mut rate = SuccessRate { failures: u64::MAX - 1, total: 0 };
    rate.add_round(1, u64::MAX);
    assert_eq!(rate, SuccessRate { failures: u64::MAX, total: u64::MAX });
}

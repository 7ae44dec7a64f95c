use tipstar::{
    check_submission, collect_present, latest_ids, next_id, paginate, push_recent, submit,
    Address, CreatorStats, Tip, TipError, DEFAULT_CREATOR_PAGE, DEFAULT_RECENT_PAGE,
    MAX_PAGE_SIZE, MAX_RECENT_TIPS,
};

fn counting(from: u64, to: u64) -> Vec<u64> {
    (from..=to).collect()
}

#[test]
fn limits_are_as_published() {
    assert_eq!(MAX_RECENT_TIPS, 100);
    assert_eq!(MAX_PAGE_SIZE, 100);
    assert_eq!(DEFAULT_CREATOR_PAGE, 50);
    assert_eq!(DEFAULT_RECENT_PAGE, 20);
}

#[test]
fn next_identifier_follows_the_counter() {
    assert_eq!(next_id(0), Some(1));
    assert_eq!(next_id(41), Some(42));
    assert_eq!(next_id(u64::MAX - 1), Some(u64::MAX));
    assert_eq!(next_id(u64::MAX), None);
}

#[test]
fn fresh_statistics_are_zero() {
    let stats = CreatorStats::new(Address::from_str("creator"));
    assert_eq!(stats.creator, Address::from_str("creator"));
    assert_eq!(stats.total_received, 0);
    assert_eq!(stats.tip_count, 0);
    assert_eq!(stats.last_tip_timestamp, 0);
}

#[test]
fn recording_adds_counts_and_stamps() {
    let mut stats = CreatorStats::new(Address::from_str("creator"));
    assert_eq!(stats.record_tip(250, 7), Ok(()));
    assert_eq!(stats.record_tip(750, 9), Ok(()));
    assert_eq!(stats.total_received, 1000);
    assert_eq!(stats.tip_count, 2);
    assert_eq!(stats.last_tip_timestamp, 9);
    assert_eq!(stats.record_tip(1, 2), Ok(()));
    assert_eq!(stats.last_tip_timestamp, 2);
    assert_eq!(stats.creator, Address::from_str("creator"));
}

#[test]
fn recording_refuses_to_overflow() {
    let mut stats = CreatorStats::new(Address::from_str("creator"));
    stats.total_received = i128::MAX - 1;
    stats.tip_count = 3;
    stats.last_tip_timestamp = 8;
    let before = stats.clone();
    assert_eq!(stats.record_tip(2, 9), Err(TipError::Overflow));
    assert_eq!(stats, before);
    assert_eq!(stats.record_tip(1, 9), Ok(()));
    assert_eq!(stats.total_received, i128::MAX);

    let mut full = CreatorStats::new(Address::from_str("creator"));
    full.tip_count = u64::MAX;
    let before = full.clone();
    assert_eq!(full.record_tip(1, 9), Err(TipError::Overflow));
    assert_eq!(full, before);
}

#[test]
fn window_grows_until_it_is_full() {
    let mut window: Vec<u64> = Vec::new();
    for id in 1..=100u64 {
        push_recent(&mut window, id);
        assert_eq!(window, counting(1, id));
    }
    push_recent(&mut window, 101);
    assert_eq!(window, counting(2, 101));
    push_recent(&mut window, 102);
    assert_eq!(window, counting(3, 102));
}

#[test]
fn window_that_is_too_long_is_cut_to_size() {
    let mut window = counting(1, 150);
    push_recent(&mut window, 999);
    let mut expected = counting(52, 150);
    expected.push(999);
    assert_eq!(window.len(), 100);
    assert_eq!(window, expected);
}

#[test]
fn window_keeps_repeated_entries_in_place() {
    let mut window = vec![7, 7, 3];
    push_recent(&mut window, 7);
    assert_eq!(window, vec![7, 7, 3, 7]);
}

#[test]
fn page_bounds() {
    let ids = counting(1, 10);
    assert_eq!(paginate(&ids, Some(3), 50, Some(0)), vec![3, 2, 1]);
    assert_eq!(paginate(&ids, Some(3), 50, Some(2)), vec![5, 4, 3]);
    assert_eq!(paginate(&ids, Some(3), 50, Some(8)), vec![10, 9]);
    assert_eq!(paginate(&ids, Some(3), 50, Some(9)), vec![10]);
    assert_eq!(paginate(&ids, Some(3), 50, Some(10)), Vec::<u64>::new());
    assert_eq!(paginate(&ids, Some(3), 50, Some(11)), Vec::<u64>::new());
    assert_eq!(paginate(&ids, Some(0), 50, Some(4)), Vec::<u64>::new());
    assert_eq!(paginate(&ids, None, 4, None), vec![4, 3, 2, 1]);
    assert_eq!(paginate(&ids, None, 50, Some(7)), vec![10, 9, 8]);
    assert_eq!(paginate(&Vec::new(), None, 50, None), Vec::<u64>::new());
}

#[test]
fn page_is_capped() {
    let ids = counting(1, 300);
    let hundred: Vec<u64> = (1..=100).rev().collect();
    assert_eq!(paginate(&ids, Some(100), 50, None), hundred);
    assert_eq!(paginate(&ids, Some(101), 50, None), hundred);
    assert_eq!(paginate(&ids, Some(u32::MAX), 50, None), hundred);
    assert_eq!(paginate(&ids, None, 250, None), hundred);
    let later: Vec<u64> = (251..=300).rev().collect();
    assert_eq!(paginate(&ids, Some(u32::MAX), 50, Some(250)), later);
    assert_eq!(paginate(&ids, Some(u32::MAX), 50, Some(u32::MAX)), Vec::<u64>::new());
}

#[test]
fn latest_entries() {
    let ids = counting(1, 10);
    assert_eq!(latest_ids(&ids, Some(3), 20), vec![10, 9, 8]);
    assert_eq!(latest_ids(&ids, Some(10), 20), (1..=10).rev().collect::<Vec<u64>>());
    assert_eq!(latest_ids(&ids, Some(11), 20), (1..=10).rev().collect::<Vec<u64>>());
    assert_eq!(latest_ids(&ids, None, 4), vec![10, 9, 8, 7]);
    assert_eq!(latest_ids(&ids, Some(0), 20), Vec::<u64>::new());
    assert_eq!(latest_ids(&Vec::new(), None, 20), Vec::<u64>::new());
    let long = counting(1, 300);
    assert_eq!(latest_ids(&long, Some(5000), 20), (201..=300).rev().collect::<Vec<u64>>());
}

#[test]
fn absent_entries_are_passed_over() {
    let found = vec![Some(3), None, Some(1), None, None, Some(2)];
    assert_eq!(collect_present(found), vec![3, 1, 2]);
    assert_eq!(collect_present(vec![None::<u8>, None]), Vec::<u8>::new());
    assert_eq!(collect_present(Vec::<Option<u8>>::new()), Vec::<u8>::new());
    assert_eq!(collect_present(vec![Some("a"), Some("b")]), vec!["a", "b"]);
}

#[test]
fn accepted_submission_touches_every_part() {
    let mut index = vec![2, 5];
    let mut stats = CreatorStats::new(Address::from_str("creator"));
    stats.total_received = 30;
    stats.tip_count = 2;
    stats.last_tip_timestamp = 4;
    let mut recent = counting(1, 8);
    assert_eq!(submit(true, 12, 6, 8, &mut index, &mut stats, &mut recent), Ok(9));
    assert_eq!(index, vec![2, 5, 9]);
    assert_eq!(recent, counting(1, 9));
    assert_eq!(stats.total_received, 42);
    assert_eq!(stats.tip_count, 3);
    assert_eq!(stats.last_tip_timestamp, 6);
}

#[test]
fn accepted_submission_moves_a_full_window() {
    let mut index = Vec::new();
    let mut stats = CreatorStats::new(Address::from_str("creator"));
    let mut recent = counting(1, 100);
    assert_eq!(submit(true, 1, 0, 100, &mut index, &mut stats, &mut recent), Ok(101));
    assert_eq!(recent, counting(2, 101));
    assert_eq!(index, vec![101]);
}

#[test]
fn refused_submission_touches_nothing() {
    let cases: [(bool, i128, u64, i128, TipError); 6] = [
        (false, 10, 5, 0, TipError::Unauthorized),
        (false, 0, u64::MAX, 0, TipError::Unauthorized),
        (true, 0, 5, 0, TipError::InvalidAmount),
        (true, -1, u64::MAX, 0, TipError::InvalidAmount),
        (true, 10, u64::MAX, 0, TipError::Overflow),
        (true, 10, 5, i128::MAX - 9, TipError::Overflow),
    ];
    for (authorized, amount, counter, total, expected) in cases {
        let mut index = vec![1, 4];
        let mut stats = CreatorStats::new(Address::from_str("creator"));
        stats.total_received = total;
        stats.tip_count = 2;
        stats.last_tip_timestamp = 3;
        let before = stats.clone();
        let mut recent = vec![1, 2, 3, 4, 5];
        let refused = submit(authorized, amount, 9, counter, &mut index, &mut stats, &mut recent);
        assert_eq!(refused, Err(expected));
        assert_eq!(index, vec![1, 4]);
        assert_eq!(stats, before);
        assert_eq!(recent, vec![1, 2, 3, 4, 5]);
    }
}

#[test]
fn verdict_on_a_submission() {
    let mut stats = CreatorStats::new(Address::from_str("creator"));
    assert_eq!(check_submission(true, 1, 0, &stats), Ok(()));
    assert_eq!(check_submission(true, i128::MAX, u64::MAX - 1, &stats), Ok(()));
    assert_eq!(check_submission(false, 1, 0, &stats), Err(TipError::Unauthorized));
    assert_eq!(check_submission(false, 0, u64::MAX, &stats), Err(TipError::Unauthorized));
    assert_eq!(check_submission(true, 0, 0, &stats), Err(TipError::InvalidAmount));
    assert_eq!(check_submission(true, i128::MIN, u64::MAX, &stats), Err(TipError::InvalidAmount));
    assert_eq!(check_submission(true, 1, u64::MAX, &stats), Err(TipError::Overflow));
    stats.total_received = 1;
    assert_eq!(check_submission(true, i128::MAX, 0, &stats), Err(TipError::Overflow));
    assert_eq!(check_submission(true, i128::MAX - 1, 0, &stats), Ok(()));
    stats.tip_count = u64::MAX;
    assert_eq!(check_submission(true, 1, 0, &stats), Err(TipError::Overflow));
}

#[test]
fn addresses_are_compared_by_key() {
    let a = Address::from_str("GA7Q");
    let b = Address::new(String::from("GA7Q"));
    let c = Address::from_str("GA7q");
    assert_eq!(a, b);
    assert_ne!(a, c);
    assert_eq!(a.as_str(), "GA7Q");
    assert_eq!(a.clone(), a);
    assert_ne!(Address::from_str(""), a);
}

#[test]
fn tips_are_compared_field_by_field() {
    let tip = Tip {
        id: 3,
        from: Address::from_str("fan"),
        to: Address::from_str("creator"),
        amount: 9,
        message: String::from("m"),
        timestamp: 1,
    };
    assert_eq!(tip.clone(), tip);
    let mut other = tip.clone();
    other.id = 4;
    assert_ne!(other, tip);
    let mut other = tip.clone();
    other.from = Address::from_str("creator");
    assert_ne!(other, tip);
    let mut other = tip.clone();
    other.to = Address::from_str("fan");
    assert_ne!(other, tip);
    let mut other = tip.clone();
    other.amount = 10;
    assert_ne!(other, tip);
    let mut other = tip.clone();
    other.message = String::from("n");
    assert_ne!(other, tip);
    let mut other = tip.clone();
    other.timestamp = 2;
    assert_ne!(other, tip);
}

#[test]
fn statistics_are_compared_field_by_field() {
    let stats = CreatorStats {
        creator: Address::from_str("creator"),
        total_received: 5,
        tip_count: 1,
        last_tip_timestamp: 2,
    };
    assert_eq!(stats.clone(), stats);
    let mut other = stats.clone();
    other.creator = Address::from_str("other");
    assert_ne!(other, stats);
    let mut other = stats.clone();
    other.total_received = 6;
    assert_ne!(other, stats);
    let mut other = stats.clone();
    other.tip_count = 2;
    assert_ne!(other, stats);
    let mut other = stats.clone();
    other.last_tip_timestamp = 3;
    assert_ne!(other, stats);
}

use acl_engine::device::pick_best_match;

#[test]
fn best_scoring_device_wins() {
    assert_eq!(pick_best_match(&vec![10, 40, 25], 0), Some(1));
}

#[test]
fn earliest_of_equal_scores_wins() {
    assert_eq!(pick_best_match(&vec![5, 40, 40], 0), Some(1));
}

#[test]
fn low_scores_match_no_device() {
    assert_eq!(pick_best_match(&vec![3, 4], 4), None);
    assert_eq!(pick_best_match(&vec![], 0), None);
}

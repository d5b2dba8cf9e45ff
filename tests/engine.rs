use simple_layout::distribute::{distribute, resolve_extents};
use simple_layout::ValueRange;

fn range(preferred: u32, min: u32, max: u32) -> ValueRange {
    ValueRange::new(preferred, min, max)
}

fn total(v: &[u32]) -> u64 {
    v.iter().map(|x| *x as u64).sum()
}

#[test]
fn three_slots_shrink_to_thirty() {
    let ranges = vec![range(10, 5, 100), range(20, 5, 100), range(10, 5, 100)];
    let weights = vec![1, 1, 1];
    let r = resolve_extents(&ranges, &weights, 30);
    assert_eq!(r, vec![7, 17, 6]);
    assert_eq!(total(&r), 30);
}

#[test]
fn preferred_total_keeps_preferred() {
    let ranges = vec![range(10, 5, 100), range(20, 5, 100)];
    let r = resolve_extents(&ranges, &vec![1, 3], 30);
    assert_eq!(r, vec![10, 20]);
}

#[test]
fn below_minimums_every_slot_at_minimum() {
    let ranges = vec![range(10, 5, 100), range(20, 8, 100), range(10, 2, 100)];
    assert_eq!(resolve_extents(&ranges, &vec![1, 1, 1], 3), vec![5, 8, 2]);
    assert_eq!(resolve_extents(&ranges, &vec![1, 1, 1], 15), vec![5, 8, 2]);
}

#[test]
fn above_maximums_every_slot_at_maximum() {
    let ranges = vec![range(10, 5, 12), range(20, 8, 25)];
    assert_eq!(resolve_extents(&ranges, &vec![1, 1], 100), vec![12, 25]);
    assert_eq!(resolve_extents(&ranges, &vec![0, 0], 37), vec![12, 25]);
}

#[test]
fn grow_in_proportion_to_weights() {
    let ranges = vec![range(10, 0, 1000), range(10, 0, 1000)];
    let r = resolve_extents(&ranges, &vec![1, 3], 60);
    assert_eq!(r, vec![20, 40]);
}

#[test]
fn capped_slot_passes_rest_to_others() {
    // The first slot can only grow by 2; the rest of its share goes on to the
    // second slot in the same pass.
    let ranges = vec![range(10, 0, 12), range(10, 0, 1000)];
    let r = resolve_extents(&ranges, &vec![1, 1], 40);
    assert_eq!(r, vec![12, 28]);
    assert_eq!(total(&r), 40);
}

#[test]
fn leftover_goes_to_next_pass() {
    // The last slot is capped; what it cannot take is handed out again in the
    // next pass.
    let ranges = vec![range(0, 0, 1000), range(0, 0, 1000), range(0, 0, 1)];
    let r = resolve_extents(&ranges, &vec![1, 1, 1], 10);
    assert_eq!(total(&r), 10);
    assert_eq!(r[2], 1);
}

#[test]
fn weight_zero_slot_keeps_preferred() {
    let ranges = vec![range(10, 0, 100), range(20, 0, 100), range(10, 0, 100)];
    let r = resolve_extents(&ranges, &vec![1, 0, 1], 24);
    assert_eq!(r[1], 20);
    assert_eq!(total(&r), 24);
    let r = resolve_extents(&ranges, &vec![1, 0, 1], 90);
    assert_eq!(r[1], 20);
    assert_eq!(total(&r), 90);
}

#[test]
fn only_unweighted_slots_leave_target_unmet() {
    let ranges = vec![range(10, 0, 100), range(20, 0, 100)];
    let r = resolve_extents(&ranges, &vec![0, 0], 25);
    assert_eq!(r, vec![10, 20]);
}

#[test]
fn sums_match_target_over_a_range_of_targets() {
    let ranges = vec![
        range(13, 4, 40),
        range(7, 7, 9),
        range(21, 1, 90),
        range(5, 2, 5),
    ];
    let weights = vec![3, 1, 7, 2];
    let min_total = 4 + 7 + 1 + 2;
    let max_total = 40 + 9 + 90 + 5;
    for target in 0..200u32 {
        let r = resolve_extents(&ranges, &weights, target);
        for (i, v) in r.iter().enumerate() {
            let rg = ranges[i];
            assert!(rg.min_value <= *v && *v <= rg.max_value);
        }
        if target < min_total {
            assert_eq!(r, vec![4, 7, 1, 2]);
        } else if target > max_total {
            assert_eq!(r, vec![40, 9, 90, 5]);
        } else {
            assert_eq!(total(&r), target as u64);
        }
    }
}

#[test]
fn empty_slot_list() {
    assert_eq!(resolve_extents(&vec![], &vec![], 10), Vec::<u32>::new());
    assert_eq!(resolve_extents(&vec![], &vec![], 0), Vec::<u32>::new());
}

#[test]
fn large_values_do_not_overflow() {
    let ranges = vec![range(u32::MAX, 0, u32::MAX), range(u32::MAX, 0, u32::MAX)];
    let r = resolve_extents(&ranges, &vec![u32::MAX, u32::MAX], u32::MAX);
    assert_eq!(total(&r), u32::MAX as u64);
}

#[test]
fn distribute_respects_limits_and_weights() {
    let d = distribute(&vec![3, 100, 100], &vec![1, 0, 1], 50);
    assert_eq!(d, vec![3, 0, 47]);
    let d = distribute(&vec![3, 4], &vec![1, 1], 50);
    assert_eq!(d, vec![3, 4]);
}

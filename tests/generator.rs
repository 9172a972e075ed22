use twrp_brute::generator::{generate_patterns, keep_within, within_distance};
use twrp_brute::geometry::chebyshev_distance;

fn has_duplicate(p: &[u16]) -> bool {
    for i in 0..p.len() {
        for j in (i + 1)..p.len() {
            if p[i] == p[j] {
                return true;
            }
        }
    }
    false
}

#[test]
fn patterns_of_two_on_a_row() {
    let dots = vec![0u16, 1, 2];
    let r = generate_patterns(&dots, 3, 2, 2, 1);
    assert_eq!(r, vec![vec![0, 1], vec![1, 0], vec![1, 2], vec![2, 1]]);
}

#[test]
fn orderings_come_in_heap_order() {
    let dots = vec![0u16, 1, 2];
    let r = generate_patterns(&dots, 3, 3, 3, 9);
    assert_eq!(
        r,
        vec![
            vec![0, 1, 2],
            vec![1, 0, 2],
            vec![2, 0, 1],
            vec![0, 2, 1],
            vec![1, 2, 0],
            vec![2, 1, 0],
        ]
    );
}

#[test]
fn shorter_patterns_come_first() {
    let dots = vec![4u16, 5];
    let r = generate_patterns(&dots, 3, 1, 2, 1);
    assert_eq!(r, vec![vec![4], vec![5], vec![4, 5], vec![5, 4]]);
}

#[test]
fn empty_bounds_and_small_sets_yield_nothing() {
    let dots = vec![0u16, 1];
    assert!(generate_patterns(&dots, 3, 3, 4, 2).is_empty());
    assert!(generate_patterns(&dots, 3, 2, 1, 2).is_empty());
    assert_eq!(generate_patterns(&dots, 3, 0, 0, 2), vec![Vec::<u16>::new()]);
}

#[test]
fn full_grid_patterns_are_well_formed() {
    let dots: Vec<u16> = (0..9).collect();
    let r = generate_patterns(&dots, 3, 4, 5, 1);
    assert!(!r.is_empty());
    for p in &r {
        assert!(p.len() >= 4 && p.len() <= 5);
        assert!(!has_duplicate(p));
        for w in p.windows(2) {
            assert!(chebyshev_distance(w[0], w[1], 3) <= 1);
        }
    }
}

#[test]
fn subset_with_unit_distance() {
    let dots = vec![0u16, 1, 2, 4, 5, 6, 8, 9, 10];
    for grid in [3u16, 4] {
        let r = generate_patterns(&dots, grid, 2, 2, 1);
        for p in &r {
            assert_eq!(p.len(), 2);
            assert!(chebyshev_distance(p[0], p[1], grid) <= 1);
        }
        assert!(!r.contains(&vec![0, 2]));
        assert!(r.contains(&vec![0, 1]));
    }
}

#[test]
fn within_distance_checks_consecutive_dots_only() {
    assert!(within_distance(&vec![], 3, 1));
    assert!(within_distance(&vec![8], 3, 0));
    assert!(within_distance(&vec![0, 4, 8], 3, 1));
    assert!(!within_distance(&vec![0, 2], 3, 1));
    assert!(within_distance(&vec![0, 1, 2, 5, 8], 3, 1));
}

#[test]
fn keep_within_drops_far_orderings() {
    let all = vec![vec![0u16, 2, 1], vec![0, 1, 2], vec![2, 1, 0], vec![1, 0]];
    let kept = keep_within(&all, 3, 1);
    assert_eq!(kept, vec![vec![0, 1, 2], vec![2, 1, 0], vec![1, 0]]);
}

use lycan::combinatorics::{
    arithmetic_progressions, bad_arithmetic_progression, is_good_coloring, search_good_coloring,
    BadApKind, SearchStatus,
};

#[test]
fn ap_tuples_are_one_based() {
    assert_eq!(
        arithmetic_progressions(5, 3),
        vec![vec![1, 2, 3], vec![1, 3, 5], vec![2, 3, 4], vec![3, 4, 5]]
    );
}

#[test]
fn detects_monochromatic_and_rainbow_aps() {
    let mono = bad_arithmetic_progression(&vec![1, 1, 1], 3).unwrap();
    assert_eq!(mono.kind, BadApKind::Monochromatic);

    let rainbow = bad_arithmetic_progression(&vec![1, 2, 3], 3).unwrap();
    assert_eq!(rainbow.kind, BadApKind::Rainbow);
}

#[test]
fn finds_h3_floor_witness_and_unsat_at_9() {
    let n8 = search_good_coloring(8, 3, None, 10_000);
    assert_eq!(n8.status, SearchStatus::Exists);
    assert!(is_good_coloring(n8.coloring.as_ref().unwrap(), 3));

    let n9 = search_good_coloring(9, 3, None, 10_000);
    assert_eq!(n9.status, SearchStatus::Unsat);
}

#[test]
fn fixed_two_color_witness_avoids_rainbow_by_construction() {
    let result = search_good_coloring(8, 3, Some(2), 10_000);
    assert_eq!(result.status, SearchStatus::Exists);
    assert!(result.coloring.unwrap().iter().all(|&c| c < 2));
}

#[test]
fn bad_progression_names_its_terms_and_colors() {
    let bad = bad_arithmetic_progression(&vec![0, 1, 0, 2, 0], 3).unwrap();
    assert_eq!(bad.kind, BadApKind::Monochromatic);
    assert_eq!(bad.terms, vec![1, 3, 5]);
    assert_eq!(bad.colors, vec![0, 0, 0]);
    assert!(bad_arithmetic_progression(&vec![0, 1], 3).is_none());
    assert!(bad_arithmetic_progression(&vec![], 1).is_none());
}

#[test]
fn degenerate_searches_settle_nothing() {
    assert_eq!(search_good_coloring(0, 3, None, 10).status, SearchStatus::Inconclusive);
    assert_eq!(search_good_coloring(5, 0, None, 10).status, SearchStatus::Inconclusive);
    assert_eq!(search_good_coloring(5, 3, None, 0).status, SearchStatus::Inconclusive);
    assert_eq!(search_good_coloring(5, 3, Some(0), 10).status, SearchStatus::Unsat);
    let cut = search_good_coloring(9, 3, None, 3);
    assert_eq!(cut.status, SearchStatus::Inconclusive);
    assert_eq!(cut.nodes, 3);
    assert!(cut.coloring.is_none());
}

#[test]
fn only_equal_places_matter() {
    // The same pattern in other colours is as good.
    assert_eq!(
        is_good_coloring(&vec![0, 0, 1, 1, 0, 0, 1, 1], 3),
        is_good_coloring(&vec![7, 7, 3, 3, 7, 7, 3, 3], 3)
    );
    assert!(is_good_coloring(&vec![0, 0, 1, 1, 0, 0, 1, 1], 3));
    assert!(!is_good_coloring(&vec![0, 0, 1, 1, 0, 0, 1, 1, 0], 3));
}

#[test]
fn searches_that_need_no_progressions() {
    assert!(is_good_coloring(&vec![], 1));
    assert_eq!(search_good_coloring(0, 1, None, 10).status, SearchStatus::Inconclusive);
    assert_eq!(search_good_coloring(5, 1, None, 0).status, SearchStatus::Inconclusive);
    assert_eq!(search_good_coloring(5, 1, Some(0), 10).status, SearchStatus::Unsat);
    assert_eq!(search_good_coloring(usize::MAX, 0, None, 10).status, SearchStatus::Inconclusive);
}

use gravador::version::{compare_versions, version_parts_of};

#[test]
fn later_versions_compare_greater() {
    assert_eq!(compare_versions("1.2.0", "1.1.9"), 1);
    assert_eq!(compare_versions("1.10", "1.9"), 1);
    assert_eq!(compare_versions("2", "1.99.99"), 1);
    assert_eq!(compare_versions("1.1.9", "1.2.0"), -1);
}

#[test]
fn trailing_zeros_do_not_count() {
    assert_eq!(compare_versions("1.0", "1"), 0);
    assert_eq!(compare_versions("1.0.0", "1"), 0);
    assert_eq!(compare_versions("", "0"), 0);
}

#[test]
fn parts_that_are_not_numbers_are_skipped() {
    assert_eq!(version_parts_of("1.x.3"), vec![1, 3]);
    assert_eq!(version_parts_of("v1.2"), vec![2]);
    assert_eq!(version_parts_of("1..2"), vec![1, 2]);
    assert_eq!(compare_versions("1.x.3", "1.3"), 0);
}

#[test]
fn comparison_is_antisymmetric_and_reflexive() {
    let vs = ["1", "1.0", "1.2", "1.10", "0.9.9", "2.0.1", "", "a.b", "10"];
    for a in vs {
        assert_eq!(compare_versions(a, a), 0);
        for b in vs {
            assert_eq!(compare_versions(a, b), -compare_versions(b, a));
            for c in vs {
                if compare_versions(a, b) >= 0 && compare_versions(b, c) >= 0 {
                    assert!(compare_versions(a, c) >= 0);
                }
            }
        }
    }
}

use btrfs_core::version::compare_versions;

#[test]
fn test_compare_versions() {
    assert_eq!(compare_versions("0.1.0", "0.1.0"), 0);
    assert_eq!(compare_versions("0.1.0", "0.1.1"), -1);
    assert_eq!(compare_versions("0.2.0", "0.1.1"), 1);
    assert_eq!(compare_versions("1.0.0", "0.9.9"), 1);
    assert_eq!(compare_versions("v0.1.0", "0.1.0"), 0);
}

#[test]
fn test_compare_versions_uneven_lengths() {
    // Missing parts read as zero.
    assert_eq!(compare_versions("1.2", "1.2.0"), 0);
    assert_eq!(compare_versions("1.2", "1.2.1"), -1);
    assert_eq!(compare_versions("1.2.1", "1.2"), 1);
}

#[test]
fn test_compare_versions_skips_non_numeric_parts() {
    // A part that names no number is skipped.
    assert_eq!(compare_versions("1.beta.2", "1.2"), 0);
    assert_eq!(compare_versions("1..2", "1.2"), 0);
}

#[test]
fn test_compare_versions_antisymmetric() {
    let pairs = [("0.1.0", "0.1.1"), ("2.0", "1.9.9"), ("v3.1", "3.1")];
    for (a, b) in pairs {
        assert_eq!(compare_versions(a, b), -compare_versions(b, a));
    }
}

use pixofold_core::codecs::lossy::alpha_acceptable;

#[test]
fn alpha_guard_preserves_endpoints_and_bounds_partial_transparency() {
    assert!(alpha_acceptable(0, 0));
    assert!(alpha_acceptable(255, 255));
    assert!(alpha_acceptable(128, 136));
    assert!(!alpha_acceptable(0, 1));
    assert!(!alpha_acceptable(255, 254));
    assert!(!alpha_acceptable(1, 0));
    assert!(!alpha_acceptable(254, 255));
    assert!(!alpha_acceptable(128, 137));
}

#[test]
fn alpha_guard_is_symmetric_within_the_partial_range() {
    assert!(alpha_acceptable(136, 128));
    assert!(!alpha_acceptable(137, 128));
    assert!(alpha_acceptable(1, 9));
    assert!(!alpha_acceptable(1, 10));
}

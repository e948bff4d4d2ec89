use pomodoro::storage::FileIdentity;

#[test]
fn full_file_id_distinguishes_equal_low_64_bits() {
    let first = FileIdentity::new(7, [0, 0, 0, 0, 0, 0, 0, 0, 1, 0, 0, 0, 0, 0, 0, 0]);
    let second = FileIdentity::new(7, [0, 0, 0, 0, 0, 0, 0, 0, 2, 0, 0, 0, 0, 0, 0, 0]);
    assert_ne!(first, second);
    assert!(!first.same_file(&second));
    assert!(first.same_file(&first.clone()));
}

#[test]
fn test_quat_rotate() {
    assert_eq!(1isize, 1isize);
}

use synx::pagination::apply_pagination;

#[test]
fn page_in_the_middle() {
    let items = vec![10u32, 11, 12, 13, 14];
    let (page, total, offset, limit) = apply_pagination(items, Some(3), Some(1));
    assert_eq!(page, vec![11, 12, 13]);
    assert_eq!(total, 5);
    assert_eq!(offset, 1);
    assert_eq!(limit, 3);
}

#[test]
fn page_without_bounds_is_everything() {
    let items = vec![1u8, 2, 3];
    let (page, total, offset, limit) = apply_pagination(items, None, None);
    assert_eq!(page, vec![1, 2, 3]);
    assert_eq!(total, 3);
    assert_eq!(offset, 0);
    assert_eq!(limit, 3);
}

#[test]
fn page_past_the_end_is_empty() {
    let items = vec![1u8, 2, 3];
    let (page, total, offset, limit) = apply_pagination(items, Some(2), Some(3));
    assert_eq!(page, Vec::<u8>::new());
    assert_eq!(total, 3);
    assert_eq!(offset, 3);
    assert_eq!(limit, 2);
}

#[test]
fn page_is_cut_at_the_end() {
    let items = vec![1u8, 2, 3];
    let (page, _, _, _) = apply_pagination(items, Some(usize::MAX), Some(2));
    assert_eq!(page, vec![3]);
}

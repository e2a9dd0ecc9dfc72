use ringbuf::slices::{
    get_element_at_index, get_element_at_index_from_end, get_slices, get_tup_element_by_flag,
    split_slice_by_four,
};

#[test]
fn test_get_element_by_flug() {
    let mut my_tuple = (1, 2);

    let result = get_tup_element_by_flag(&mut my_tuple, true);
    assert_eq!(*result, 2);

    let result = get_tup_element_by_flag(&mut my_tuple, false);
    assert_eq!(*result, 1);
}

#[test]
fn test_get_element_at_index() {
    let mut my_slice = [0, 1, 2, 3, 4, 5, 6, 7, 8, 9];
    let result = get_element_at_index(&mut my_slice, 5);
    assert_eq!(*result, 5)
}

#[test]
fn test_get_element_at_index_from_end() {
    let my_slice = [0, 1, 2, 3, 4, 5, 6, 7, 8, 9];
    let result = get_element_at_index_from_end(&my_slice, 2);
    assert_eq!(*result, 8)
}

#[test]
fn test_get_slices() {
    let my_slice = [0, 1, 2, 3, 4, 5, 6, 7, 8, 9];
    let (slice1, slice2) = get_slices(&my_slice, 4);
    assert_eq!(slice1, [0, 1, 2, 3]);
    assert_eq!(slice2, [4, 5, 6, 7, 8, 9]);
}

#[test]
fn test_split_slice() {
    let my_slice = [0, 1, 2, 3, 4, 5, 6, 7, 8, 9];
    let result: [&[i32]; 4] = split_slice_by_four(&my_slice);
    let expected_result: [&[i32]; 4] = [&[0, 1, 2], &[3, 4, 5], &[6, 7], &[8, 9]];
    assert_eq!(result, expected_result);
}

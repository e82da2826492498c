use polar_ks::sort::{is_ascending, sort_ascending};

#[test]
fn sort_orders_values_and_keeps_duplicates() {
    let input = vec![3i64, -1, 3, 0, i64::MAX, i64::MIN, 2];
    let sorted = sort_ascending(&input);
    assert_eq!(sorted, vec![i64::MIN, -1, 0, 2, 3, 3, i64::MAX]);
    assert_eq!(input, vec![3i64, -1, 3, 0, i64::MAX, i64::MIN, 2]);
}

#[test]
fn sort_of_nothing_and_of_one() {
    assert_eq!(sort_ascending(&Vec::new()), Vec::<i64>::new());
    assert_eq!(sort_ascending(&vec![4]), vec![4]);
}

#[test]
fn sort_agrees_with_the_standard_sort() {
    let mut state: u64 = 12345;
    let mut input: Vec<i64> = Vec::new();
    for _ in 0..1000 {
        state = state.wrapping_mul(6364136223846793005).wrapping_add(1442695040888963407);
        input.push((state >> 40) as i64 - (1 << 23));
    }
    let mut expected = input.clone();
    expected.sort();
    assert_eq!(sort_ascending(&input), expected);
}

#[test]
fn ascending_is_told_apart_from_descending() {
    assert!(is_ascending(&Vec::new()));
    assert!(is_ascending(&vec![1]));
    assert!(is_ascending(&vec![1, 1, 2, 5]));
    assert!(!is_ascending(&vec![1, 2, 1]));
    assert!(!is_ascending(&vec![2, 1]));
}

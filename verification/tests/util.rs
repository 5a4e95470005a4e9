use rs_google_photos_sync::text::{decimal_string, join};
use rs_google_photos_sync::util::split_into_groups;

#[test]
fn seven_items_in_groups_of_three() {
    let items = vec![1, 2, 3, 4, 5, 6, 7];
    let groups = split_into_groups(&items, 3);
    assert_eq!(groups, vec![vec![&1, &2, &3], vec![&4, &5, &6], vec![&7]]);
}

#[test]
fn groups_that_come_out_even() {
    let items = vec!['a', 'b', 'c', 'd'];
    assert_eq!(split_into_groups(&items, 2), vec![vec![&'a', &'b'], vec![&'c', &'d']]);
    assert_eq!(split_into_groups(&items, 4), vec![vec![&'a', &'b', &'c', &'d']]);
    assert_eq!(split_into_groups(&items, 1).len(), 4);
}

#[test]
fn a_group_size_beyond_the_items_gives_one_group() {
    let items = vec![1, 2];
    assert_eq!(split_into_groups(&items, 5), vec![vec![&1, &2]]);
    assert_eq!(split_into_groups(&items, usize::MAX), vec![vec![&1, &2]]);
}

#[test]
fn no_items_give_no_groups() {
    let items: Vec<u8> = Vec::new();
    assert_eq!(split_into_groups(&items, 3), Vec::<Vec<&u8>>::new());
}

#[test]
fn many_items_keep_their_order_across_groups() {
    let items: Vec<usize> = (0..1001).collect();
    let groups = split_into_groups(&items, 10);
    assert_eq!(groups.len(), 101);
    assert_eq!(groups[100], vec![&1000]);
    let flat: Vec<usize> = groups.iter().flat_map(|group| group.iter().map(|item| **item)).collect();
    assert_eq!(flat, items);
}

#[test]
fn numbers_are_written_in_base_ten() {
    assert_eq!(decimal_string(0), "0");
    assert_eq!(decimal_string(9), "9");
    assert_eq!(decimal_string(10), "10");
    assert_eq!(decimal_string(1234567890), "1234567890");
    assert_eq!(decimal_string(usize::MAX), format!("{}", usize::MAX));
}

#[test]
fn joining_puts_the_separator_between_neighbours_only() {
    assert_eq!(join(&Vec::new(), " "), "");
    assert_eq!(join(&vec!["a".to_string()], " "), "a");
    assert_eq!(join(&vec!["a".to_string(), "b".to_string(), "".to_string()], ", "), "a, b, ");
}

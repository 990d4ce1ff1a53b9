use cattongue::pager::{can_page_left, can_page_right, first_shown, page_left, page_right, PAGE_SIZE};

#[test]
fn page_size_is_twenty() {
    assert_eq!(PAGE_SIZE, 20);
}

#[test]
fn first_page_has_no_previous() {
    assert!(!can_page_left(0));
    assert!(!can_page_left(19));
    assert!(can_page_left(20));
    assert_eq!(page_left(0), 0);
    assert_eq!(page_left(19), 19);
    assert_eq!(page_left(20), 0);
    assert_eq!(page_left(45), 25);
}

#[test]
fn next_page_needs_more_images() {
    assert!(!can_page_right(0, 0));
    assert!(!can_page_right(0, 20));
    assert!(can_page_right(0, 21));
    assert!(!can_page_right(20, 40));
    assert!(can_page_right(20, 41));
    assert!(!can_page_right(usize::MAX, usize::MAX));
    assert!(!can_page_right(usize::MAX - 20, usize::MAX));
    assert!(can_page_right(usize::MAX - 21, usize::MAX));
    assert_eq!(page_right(0, 20), 0);
    assert_eq!(page_right(0, 21), 20);
    assert_eq!(page_right(20, 41), 40);
    assert_eq!(page_right(40, 41), 40);
    assert_eq!(page_right(usize::MAX - 21, usize::MAX), usize::MAX - 1);
}

#[test]
fn a_step_on_and_a_step_back() {
    let count = 57;
    let mut offset = 0;
    let mut steps = 0;
    while can_page_right(offset, count) {
        let next = page_right(offset, count);
        assert_eq!(page_left(next), offset);
        offset = next;
        steps += 1;
    }
    assert_eq!(steps, 2);
    assert_eq!(offset, 40);
}

#[test]
fn positions_are_counted_from_one() {
    assert_eq!(first_shown(0), Some(1));
    assert_eq!(first_shown(20), Some(21));
    assert_eq!(first_shown(usize::MAX), None);
}

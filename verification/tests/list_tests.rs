use ring_list::List;
use ring_list::ListError;

#[test]
fn test_create() {
    let list: List<usize> = List::new_list();

    assert_eq!(list.size, 0);
    assert_eq!(*list.data_of(list.sentinel()), usize::default());
    assert_eq!(list.next_of(list.sentinel()), list.sentinel());
    assert_eq!(list.prev_of(list.sentinel()), list.sentinel());
}

#[test]
fn test_add_one() {
    let mut list: List<usize> = List::new_list();

    // Add a new node
    list.add(0);

    // Assert that size was incremented
    assert_eq!(list.size, 1);

    // Assert that the sentinel node still exists
    assert_eq!(*list.data_of(list.sentinel()), usize::default());

    // Check that the sentinel node now points to the new node in the next member
    assert_ne!(list.next_of(list.sentinel()), list.sentinel());

    // Check that the sentinel node now points to the new node in the prev member
    assert_ne!(list.prev_of(list.sentinel()), list.sentinel());

    // Check that data is correct in the new node
    assert_eq!(*list.data_of(list.next_of(list.sentinel())), 0);

    // Check that the next and prev pointers are correct in the new node
    let first = list.next_of(list.sentinel());
    assert_eq!(list.next_of(first), list.sentinel());
    assert_eq!(list.prev_of(first), list.sentinel());
}

#[test]
fn test_remove_index_zero() {
    let mut list: List<usize> = List::new_list();

    list.add(0);
    assert_eq!(list.remove_index(0), Ok(0));
    assert_eq!(list.size, 0);
    assert_eq!(*list.data_of(list.sentinel()), usize::default());
    assert_eq!(list.next_of(list.sentinel()), list.sentinel());
    assert_eq!(list.prev_of(list.sentinel()), list.sentinel());
}

#[test]
fn test_add_two() {
    let mut list: List<usize> = List::new_list();

    list.add(0);
    list.add(1);

    // List should be 1 -> 0 -> (sentinel)

    let sentinel = list.sentinel();
    let one_node = list.next_of(sentinel);
    let zero_node = list.next_of(one_node);

    // Assert that size was incremented properly
    assert_eq!(list.size, 2);

    // Assert that the nodes are in the proper order
    assert_eq!(*list.data_of(one_node), 1);
    assert_eq!(*list.data_of(zero_node), 0);
    assert_eq!(list.data_of(list.next_of(sentinel)), list.data_of(one_node));
    assert_eq!(list.data_of(list.prev_of(sentinel)), list.data_of(zero_node));
    assert_eq!(list.data_of(list.next_of(one_node)), list.data_of(zero_node));
    assert_eq!(list.data_of(list.prev_of(one_node)), list.data_of(sentinel));
    assert_eq!(list.data_of(list.next_of(zero_node)), list.data_of(sentinel));
    assert_eq!(list.data_of(list.prev_of(zero_node)), list.data_of(one_node));
}

#[test]
fn test_remove_index_three() {
    let mut list: List<usize> = List::new_list();
    for i in 0..5 {
        list.add(i);
    }

    // List should be 4 -> 3 -> 2 -> 1 -> 0 -> (sentinel)

    assert_eq!(list.size, 5);
    assert_eq!(list.remove_index(3), Ok(1));
    assert_eq!(list.size, 4);

    // List should now be 4 -> 3 -> 2 -> 0 -> (sentinel)

    let sentinel = list.sentinel();
    let four_node = list.next_of(sentinel);
    let three_node = list.next_of(four_node);
    let two_node = list.next_of(three_node);
    let zero_node = list.next_of(two_node);

    // Assert that all the nodes have the correct values (ensuring that the
    // correct node was removed)
    assert_eq!(*list.data_of(sentinel), usize::default());
    assert_eq!(*list.data_of(four_node), 4);
    assert_eq!(*list.data_of(three_node), 3);
    assert_eq!(*list.data_of(two_node), 2);
    assert_eq!(*list.data_of(zero_node), 0);

    // Assert that the order of nodes are correct
    assert_eq!(list.data_of(list.next_of(sentinel)), list.data_of(four_node));
    assert_eq!(list.data_of(list.prev_of(sentinel)), list.data_of(zero_node));
    assert_eq!(list.data_of(list.next_of(four_node)), list.data_of(three_node));
    assert_eq!(list.data_of(list.prev_of(four_node)), list.data_of(sentinel));
    assert_eq!(list.data_of(list.next_of(three_node)), list.data_of(two_node));
    assert_eq!(list.data_of(list.prev_of(three_node)), list.data_of(four_node));
    assert_eq!(list.data_of(list.next_of(two_node)), list.data_of(zero_node));
    assert_eq!(list.data_of(list.prev_of(two_node)), list.data_of(three_node));
    assert_eq!(list.data_of(list.next_of(zero_node)), list.data_of(sentinel));
    assert_eq!(list.data_of(list.prev_of(zero_node)), list.data_of(two_node));
}

#[test]
fn test_remove_index_four() {
    let mut list: List<usize> = List::new_list();
    for i in 0..5 {
        list.add(i);
    }

    // List should be 4 -> 3 -> 2 -> 1 -> 0 -> (sentinel)

    assert_eq!(list.size, 5);
    assert_eq!(list.remove_index(4), Ok(0));
    assert_eq!(list.size, 4);

    // List should now be 4 -> 3 -> 2 -> 1 -> (sentinel)

    let sentinel = list.sentinel();
    let four_node = list.next_of(sentinel);
    let three_node = list.next_of(four_node);
    let two_node = list.next_of(three_node);
    let one_node = list.next_of(two_node);

    // Assert that all the nodes have the correct values (ensuring that the
    // correct node was removed)
    assert_eq!(*list.data_of(sentinel), usize::default());
    assert_eq!(*list.data_of(four_node), 4);
    assert_eq!(*list.data_of(three_node), 3);
    assert_eq!(*list.data_of(two_node), 2);
    assert_eq!(*list.data_of(one_node), 1);

    assert_eq!(list.data_of(list.next_of(sentinel)), list.data_of(four_node));
    assert_eq!(list.data_of(list.prev_of(sentinel)), list.data_of(one_node));
    assert_eq!(list.data_of(list.next_of(four_node)), list.data_of(three_node));
    assert_eq!(list.data_of(list.prev_of(four_node)), list.data_of(sentinel));
    assert_eq!(list.data_of(list.next_of(three_node)), list.data_of(two_node));
    assert_eq!(list.data_of(list.prev_of(three_node)), list.data_of(four_node));
    assert_eq!(list.data_of(list.next_of(two_node)), list.data_of(one_node));
    assert_eq!(list.data_of(list.prev_of(two_node)), list.data_of(three_node));
    assert_eq!(list.data_of(list.next_of(one_node)), list.data_of(sentinel));
    assert_eq!(list.data_of(list.prev_of(one_node)), list.data_of(two_node));
}

#[test]
fn test_invalid_index() {
    let mut list: List<usize> = List::new_list();
    for i in 0..5 {
        list.add(i);
    }

    // List should be 4 -> 3 -> 2 -> 1 -> 0 -> (sentinel)

    assert_eq!(list.size, 5);
    let err = list.remove_index(666);
    assert_eq!(err, Err(ListError::IndexOutOfBounds));
    assert_eq!(err.unwrap_err().message(), "Index out of bounds");
    assert_eq!(list.size, 5);

    // List should still be 4 -> 3 -> 2 -> 1 -> 0 -> (sentinel)

    let sentinel = list.sentinel();
    let four_node = list.next_of(sentinel);
    let three_node = list.next_of(four_node);
    let two_node = list.next_of(three_node);
    let one_node = list.next_of(two_node);
    let zero_node = list.next_of(one_node);

    // Assert that all the nodes have the correct values (ensuring that no
    // node was removed)
    assert_eq!(*list.data_of(sentinel), usize::default());
    assert_eq!(*list.data_of(four_node), 4);
    assert_eq!(*list.data_of(three_node), 3);
    assert_eq!(*list.data_of(two_node), 2);
    assert_eq!(*list.data_of(one_node), 1);
    assert_eq!(*list.data_of(zero_node), 0);

    // Assert that all the nodes are still in the correct order
    assert_eq!(list.data_of(list.next_of(sentinel)), list.data_of(four_node));
    assert_eq!(list.data_of(list.prev_of(sentinel)), list.data_of(zero_node));
    assert_eq!(list.data_of(list.next_of(four_node)), list.data_of(three_node));
    assert_eq!(list.data_of(list.prev_of(four_node)), list.data_of(sentinel));
    assert_eq!(list.data_of(list.next_of(three_node)), list.data_of(two_node));
    assert_eq!(list.data_of(list.prev_of(three_node)), list.data_of(four_node));
    assert_eq!(list.data_of(list.next_of(two_node)), list.data_of(one_node));
    assert_eq!(list.data_of(list.prev_of(two_node)), list.data_of(three_node));
    assert_eq!(list.data_of(list.next_of(one_node)), list.data_of(zero_node));
    assert_eq!(list.data_of(list.prev_of(one_node)), list.data_of(two_node));
    assert_eq!(list.data_of(list.next_of(zero_node)), list.data_of(sentinel));
    assert_eq!(list.data_of(list.prev_of(zero_node)), list.data_of(one_node));
}

#[test]
fn test_remove_all() {
    let mut list: List<usize> = List::new_list();
    for i in 0..5 {
        list.add(i);
    }

    // Remove all nodes from the list
    for i in 0..5 {
        assert_eq!(list.remove_index(0), Ok(4 - i));
    }

    // Check that we're only left with the sentinel node
    assert_eq!(list.size, 0);
    assert_eq!(*list.data_of(list.sentinel()), usize::default());
    assert_eq!(list.next_of(list.sentinel()), list.sentinel());
    assert_eq!(list.prev_of(list.sentinel()), list.sentinel());
}

#[test]
fn test_index_of_zero() {
    let mut list: List<usize> = List::new_list();
    for i in 0..5 {
        list.add(i);
    }

    assert_eq!(list.size, 5);
    assert_eq!(list.index_of(0), Some(4));
}

#[test]
fn test_index_of_three() {
    let mut list: List<usize> = List::new_list();
    for i in 0..5 {
        list.add(i);
    }

    assert_eq!(list.size, 5);
    assert_eq!(list.index_of(3), Some(1));
}

#[test]
fn test_not_in_list() {
    let mut list: List<usize> = List::new_list();
    for i in 0..5 {
        list.add(i);
    }

    assert_eq!(list.size, 5);
    assert_eq!(list.index_of(22), None);
}

#[test]
fn test_is_empty_true() {
    let list: List<usize> = List::new_list();

    assert_eq!(list.size, 0);
    assert_eq!(list.is_empty(), true);
}

#[test]
fn test_is_empty_false() {
    let mut list: List<usize> = List::new_list();
    for i in 0..5 {
        list.add(i);
    }

    assert_eq!(list.size, 5);
    assert_eq!(list.is_empty(), false);
}

#[test]
fn test_display_empty() {
    let list: List<usize> = List::new_list();

    assert_eq!(list.render(), "(sentinel)\n");
}

#[test]
fn test_display_with_elements() {
    let mut list: List<usize> = List::new_list();
    for i in 0..5 {
        list.add(i);
    }

    assert_eq!(list.render(), "4 -> 3 -> 2 -> 1 -> 0 -> (sentinel)\n");
}

use nordtui::list::StatefulList;

#[test]
fn with_items_starts_unselected() {
    let list: StatefulList<u32> = StatefulList::with_items(vec![1, 2, 3]);
    assert_eq!(list.state.selected(), None);
    assert_eq!(list.items, vec![1, 2, 3]);
}

#[test]
fn next_visits_all_indices_in_order_then_wraps() {
    let mut list: StatefulList<u32> = StatefulList::with_items(vec![10, 20, 30]);
    list.next();
    assert_eq!(list.state.selected(), Some(0));
    list.next();
    assert_eq!(list.state.selected(), Some(1));
    list.next();
    assert_eq!(list.state.selected(), Some(2));
    list.next();
    assert_eq!(list.state.selected(), Some(0));
}

#[test]
fn previous_wraps_from_first_to_last() {
    let mut list: StatefulList<u32> = StatefulList::with_items(vec![10, 20, 30, 40]);
    list.first();
    assert_eq!(list.state.selected(), Some(0));
    list.previous();
    assert_eq!(list.state.selected(), Some(3));
}

#[test]
fn previous_from_no_selection_selects_first() {
    let mut list: StatefulList<u32> = StatefulList::with_items(vec![10, 20]);
    list.previous();
    assert_eq!(list.state.selected(), Some(0));
    list.previous();
    assert_eq!(list.state.selected(), Some(1));
}

#[test]
fn moves_on_empty_list_are_noops() {
    let mut list: StatefulList<u32> = StatefulList::with_items(vec![]);
    list.next();
    assert_eq!(list.state.selected(), None);
    list.previous();
    assert_eq!(list.state.selected(), None);
}

#[test]
fn first_and_last_jump_to_the_ends() {
    let mut list: StatefulList<u32> = StatefulList::with_items(vec![1, 2, 3, 4, 5]);
    list.last();
    assert_eq!(list.state.selected(), Some(4));
    list.first();
    assert_eq!(list.state.selected(), Some(0));
}

#[test]
fn moves_never_change_the_items() {
    let mut list: StatefulList<u32> = StatefulList::with_items(vec![7, 8]);
    list.next();
    list.previous();
    list.first();
    list.last();
    assert_eq!(list.items, vec![7, 8]);
}

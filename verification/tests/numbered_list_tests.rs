use svdocgen::numbered_list::NumberedList;

#[test]
fn starts_at_one() {
    let list = NumberedList::new();
    assert_eq!(list.recall(), "1");
}

#[test]
fn steps_and_levels() {
    let mut list = NumberedList::new();
    assert_eq!(list.recall_and_step_forward(), "1");
    assert_eq!(list.recall(), "2");
    assert_eq!(list.step_forward_and_recall(), "3");
    assert_eq!(list.recall_and_go_downstairs(), "3");
    assert_eq!(list.recall(), "3.1");
    assert_eq!(list.go_downstairs_and_recall(), "3.1.1");
    list.step_forward();
    assert_eq!(list.recall(), "3.1.2");
    assert_eq!(list.recall_and_go_upstairs(), "3.1.2");
    assert_eq!(list.recall(), "3.1");
    assert_eq!(list.go_upstairs_and_recall(), "3");
}

#[test]
fn go_upstairs_never_leaves_the_top_level() {
    let mut list = NumberedList::new();
    list.go_upstairs();
    assert_eq!(list.recall(), "1");
}

#[test]
fn force_replaces_the_counters() {
    let mut list = NumberedList::new();
    assert!(list.force("2.7.10").is_ok());
    assert_eq!(list.recall(), "2.7.10");
    list.step_forward();
    assert_eq!(list.recall(), "2.7.11");
}

#[test]
fn force_rejects_bad_input_and_keeps_the_state() {
    let mut list = NumberedList::new();
    list.step_forward();
    assert!(list.force("1.x.3").is_err());
    assert_eq!(list.recall(), "2");
    assert!(list.force("").is_err());
    assert_eq!(list.recall(), "2");
    assert!(list.force("1..2").is_err());
    assert_eq!(list.recall(), "2");
    // value out of the u32 range
    assert!(list.force("4294967296").is_err());
    assert_eq!(list.recall(), "2");
    // largest in-range value
    assert!(list.force("4294967295").is_ok());
    assert_eq!(list.recall(), "4294967295");
}

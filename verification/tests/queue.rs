use durable_queue::{Action, Queue, QueueError, Rewrite};

fn texts(items: &[&str]) -> Vec<String> {
    items.iter().map(|s| s.to_string()).collect()
}

#[test]
fn all() {
    let mut queue = Queue::new("");
    queue.add("fuad").unwrap();
    queue.add("ismail").unwrap();
    queue.add("faisal").unwrap();
    queue.add("ibrahim").unwrap();
    queue.remove("ismail").unwrap();
    queue.pop().unwrap();
    queue.pop().unwrap();
}

#[test]
fn all_leaves_the_last_item() {
    let mut queue = Queue::new("");
    queue.add("fuad").unwrap();
    queue.add("ismail").unwrap();
    queue.add("faisal").unwrap();
    queue.add("ibrahim").unwrap();
    assert_eq!(queue.remove("ismail").unwrap().0, "ismail");
    assert_eq!(queue.pop().unwrap().0, "fuad");
    assert_eq!(queue.pop().unwrap().0, "faisal");
    assert_eq!(queue.items(), texts(&["ibrahim"]));
    assert_eq!(queue.len(), 1);
}

#[test]
fn new_queue_from_empty_content_is_empty() {
    let queue = Queue::new("");
    assert!(queue.is_empty());
    assert_eq!(queue.len(), 0);
    assert_eq!(queue.items(), Vec::<String>::new());
}

#[test]
fn new_queue_holds_one_item_per_line() {
    let queue = Queue::new("first\nsecond\nthird\n");
    assert_eq!(queue.items(), texts(&["first", "second", "third"]));
    assert_eq!(queue.len(), 3);
    assert!(!queue.is_empty());
}

#[test]
fn pops_return_items_in_the_order_of_the_adds() {
    let mut queue = Queue::new("");
    let added = ["one", "two", "three", "four", "five"];
    for item in added {
        queue.add(item).unwrap();
    }
    for item in added {
        assert_eq!(queue.pop().unwrap().0, item);
    }
    assert!(queue.is_empty());
    assert_eq!(queue.pop().err(), Some(QueueError::EmptyQueue));
}

#[test]
fn remove_takes_the_first_of_two_equal_items() {
    let mut queue = Queue::new("");
    queue.add("a").unwrap();
    queue.add("b").unwrap();
    queue.add("a").unwrap();
    assert_eq!(queue.position("a"), Some(0));
    let (removed, _) = queue.remove("a").unwrap();
    assert_eq!(removed, "a");
    assert_eq!(queue.items(), texts(&["b", "a"]));
    assert_eq!(queue.position("a"), Some(1));
}

#[test]
fn remove_from_the_middle_keeps_the_order_of_the_rest() {
    let mut queue = Queue::new("a\nb\nc\nb\n");
    let (removed, _) = queue.remove("b").unwrap();
    assert_eq!(removed, "b");
    assert_eq!(queue.items(), texts(&["a", "c", "b"]));
}

#[test]
fn remove_on_an_empty_queue_is_not_found() {
    let mut queue = Queue::new("");
    assert_eq!(queue.remove("x").err(), Some(QueueError::NotFound));
    assert!(queue.is_empty());
}

#[test]
fn remove_of_an_absent_item_changes_nothing() {
    let mut queue = Queue::new("a\nb\n");
    assert_eq!(queue.remove("x").err(), Some(QueueError::NotFound));
    assert_eq!(queue.items(), texts(&["a", "b"]));
    assert_eq!(queue.position("x"), None);
}

#[test]
fn remove_compares_whole_items() {
    let mut queue = Queue::new("ab\n");
    assert_eq!(queue.remove("a").err(), Some(QueueError::NotFound));
    assert_eq!(queue.remove("abc").err(), Some(QueueError::NotFound));
    assert_eq!(queue.remove("AB").err(), Some(QueueError::NotFound));
    assert_eq!(queue.remove("ab").unwrap().0, "ab");
}

#[test]
fn pop_on_an_empty_queue_is_refused() {
    let mut queue = Queue::new("");
    assert_eq!(queue.pop().err(), Some(QueueError::EmptyQueue));
    assert!(queue.is_empty());
}

#[test]
fn add_refuses_an_empty_item() {
    let mut queue = Queue::new("a\n");
    assert_eq!(queue.add(""), Err(QueueError::InvalidItem));
    assert_eq!(queue.items(), texts(&["a"]));
}

#[test]
fn add_refuses_an_item_with_a_line_break() {
    let mut queue = Queue::new("a\n");
    assert_eq!(queue.add("b\nc"), Err(QueueError::InvalidItem));
    assert_eq!(queue.add("\n"), Err(QueueError::InvalidItem));
    assert_eq!(queue.add("b\n"), Err(QueueError::InvalidItem));
    assert_eq!(queue.items(), texts(&["a"]));
}

#[test]
fn add_accepts_duplicates_and_other_white_space() {
    let mut queue = Queue::new("");
    assert_eq!(queue.add("a"), Ok(()));
    assert_eq!(queue.add("a"), Ok(()));
    assert_eq!(queue.add(" "), Ok(()));
    assert_eq!(queue.add("tab\there"), Ok(()));
    assert_eq!(queue.add("cr\r"), Ok(()));
    assert_eq!(queue.add("höhe ☃"), Ok(()));
    assert_eq!(queue.items(), texts(&["a", "a", " ", "tab\there", "cr\r", "höhe ☃"]));
}

#[test]
fn position_finds_the_first_match_only() {
    let queue = Queue::new("x\ny\nx\ny\n");
    assert_eq!(queue.position("x"), Some(0));
    assert_eq!(queue.position("y"), Some(1));
    assert_eq!(queue.position("z"), None);
    assert_eq!(queue.position(""), None);
}

#[test]
fn removal_hands_out_a_replacement_for_the_items_that_are_left() {
    let mut queue = Queue::new("a\nb\nc\n");
    let (_, rewrite) = queue.pop().unwrap();
    let fresh = Rewrite::new(texts(&["b", "c"]));
    assert_eq!(rewrite.action(), fresh.action());
    let (_, rewrite) = queue.remove("c").unwrap();
    assert_eq!(
        rewrite.action(),
        Some(Action::RenameCurrentToStaging)
    );
}

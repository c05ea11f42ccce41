use logio::NewInternalLog;

#[test]
fn a_new_queue_holds_nothing() {
    let queue = NewInternalLog::Empty;
    assert!(!queue.is_new());
}

#[test]
fn is_new_tells_pending_text() {
    let queue = NewInternalLog::New("x".to_string());
    assert!(queue.is_new());
}

#[test]
fn reset_empties_the_queue() {
    let mut queue = NewInternalLog::New("x".to_string());
    queue.reset();
    assert!(!queue.is_new());
    assert!(matches!(queue, NewInternalLog::Empty));
}

#[test]
fn append_to_an_empty_queue_makes_it_pending() {
    let mut queue = NewInternalLog::Empty;
    queue.append("one\n");
    assert!(matches!(&queue, NewInternalLog::New(text) if text == "one\n"));
}

#[test]
fn appends_before_a_drain_lose_nothing() {
    let mut queue = NewInternalLog::Empty;
    let texts = ["first\n", "second\n", "third\n", "second\n"];
    for text in texts {
        queue.append(text);
    }
    assert_eq!(queue.take(), Some("first\nsecond\nthird\nsecond\n".to_string()));
}

#[test]
fn take_empties_the_queue() {
    let mut queue = NewInternalLog::New("a\n".to_string());
    assert_eq!(queue.take(), Some("a\n".to_string()));
    assert!(!queue.is_new());
    assert_eq!(queue.take(), None);
    assert!(!queue.is_new());
}

#[test]
fn append_after_take_starts_anew() {
    let mut queue = NewInternalLog::Empty;
    queue.append("a");
    queue.take();
    queue.append("b");
    assert_eq!(queue.take(), Some("b".to_string()));
}

#[test]
fn a_queue_is_empty_by_default() {
    assert!(matches!(NewInternalLog::default(), NewInternalLog::Empty));
}

#[test]
fn a_clone_holds_the_same_text() {
    let queue = NewInternalLog::New("x\n".to_string());
    let mut copy = queue.clone();
    assert_eq!(copy.take(), Some("x\n".to_string()));
    assert!(queue.is_new());
    assert!(matches!(NewInternalLog::Empty.clone(), NewInternalLog::Empty));
}

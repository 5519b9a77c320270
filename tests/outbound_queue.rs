use smartc::queue::OutboundQueue;

#[test]
fn push_when_full_hands_frame_back() {
    let mut q = OutboundQueue::new(2);
    assert_eq!(q.push("a".to_string()), Ok(()));
    assert_eq!(q.push("b".to_string()), Ok(()));
    assert!(q.is_full());
    assert_eq!(q.push("c".to_string()), Err("c".to_string()));
    assert_eq!(q.pending(), 2);
    assert_eq!(q.pop(), Some("a".to_string()));
    assert_eq!(q.push("c".to_string()), Ok(()));
    assert_eq!(q.pop(), Some("b".to_string()));
    assert_eq!(q.pop(), Some("c".to_string()));
    assert_eq!(q.pop(), None);
    assert!(q.is_empty());
}

#[test]
fn urgent_frames_first_in_their_own_order() {
    let mut q = OutboundQueue::new(3);
    q.push("a".to_string()).unwrap();
    q.push_urgent("pong-a".to_string());
    q.push("b".to_string()).unwrap();
    q.push_urgent("pong-b".to_string());
    assert_eq!(q.capacity(), 3);
    let mut out = Vec::new();
    while let Some(f) = q.pop() {
        out.push(f);
    }
    assert_eq!(out, vec!["pong-a", "pong-b", "a", "b"]);
}

#[test]
fn clear_empties() {
    let mut q = OutboundQueue::new(1);
    q.push("a".to_string()).unwrap();
    q.push_urgent("p".to_string());
    q.clear();
    assert!(q.is_empty());
    assert_eq!(q.pending(), 0);
}

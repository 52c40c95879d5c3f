use relayctl::queue::{FMemQueue, MsgFMQueue, QUEUE_LIMIT, START_INDEX};
use relayctl::telegram::SendMessage;

#[test]
fn fresh_queue_is_empty() {
    let q = FMemQueue::new();
    assert!(q.is_empty());
    assert!(!q.is_full());
    assert!(q.peek().is_none());
}

#[test]
fn remove_from_empty_is_noop() {
    let mut q = FMemQueue::new();
    assert!(!q.remove_first());
    assert!(q.dequeue().is_none());
    assert!(q.is_empty());
}

#[test]
fn enqueue_and_peek() {
    let mut q = FMemQueue::new();
    assert!(q.enqueue(&[1, 2, 3]));
    assert!(!q.is_empty());
    assert_eq!(q.peek().unwrap().as_slice(), &[1, 2, 3]);
    // peek does not remove
    assert_eq!(q.peek().unwrap().as_slice(), &[1, 2, 3]);
}

#[test]
fn fifo_order() {
    let mut q = FMemQueue::new();
    assert!(q.enqueue(b"A"));
    assert!(q.enqueue(b"B"));
    assert!(q.enqueue(b"C"));
    assert_eq!(q.peek().unwrap().as_slice(), b"A");
    assert!(q.remove_first());
    assert_eq!(q.peek().unwrap().as_slice(), b"B");
    assert!(q.remove_first());
    assert_eq!(q.peek().unwrap().as_slice(), b"C");
}

#[test]
fn dequeue_returns_and_removes() {
    let mut q = FMemQueue::new();
    assert!(q.enqueue(b"first"));
    assert!(q.enqueue(b"second"));
    assert_eq!(q.dequeue().unwrap().as_slice(), b"first");
    assert_eq!(q.peek().unwrap().as_slice(), b"second");
}

#[test]
fn twenty_enqueues_fill_to_nineteen() {
    let mut q = FMemQueue::new();
    for i in 0..(QUEUE_LIMIT - 1) {
        assert!(!q.is_full());
        assert!(q.enqueue(&[i]));
    }
    assert!(q.is_full());
    // the QUEUE_LIMIT-th enqueue is rejected and changes nothing
    let head = q.head;
    let tail = q.tail;
    assert!(!q.enqueue(&[99]));
    assert_eq!(q.head, head);
    assert_eq!(q.tail, tail);
    assert!(q.is_full());
    assert_eq!(q.peek().unwrap().as_slice(), &[0]);
}

#[test]
fn cursor_wraps_at_top_of_address_range() {
    let q = FMemQueue::new();
    assert_eq!(q.increment(START_INDEX), START_INDEX + 1);
    assert_eq!(q.increment(START_INDEX + QUEUE_LIMIT - 2), START_INDEX + QUEUE_LIMIT - 1);
    assert_eq!(q.increment(START_INDEX + QUEUE_LIMIT - 1), START_INDEX);
}

#[test]
fn order_survives_wraparound() {
    let mut q = FMemQueue::new();
    // drive the cursors around the ring several times
    for round in 0..3u8 {
        for i in 0..(QUEUE_LIMIT - 1) {
            assert!(q.enqueue(&[round, i]));
        }
        for i in 0..(QUEUE_LIMIT - 1) {
            assert_eq!(q.dequeue().unwrap().as_slice(), &[round, i]);
        }
        assert!(q.is_empty());
    }
}

#[test]
fn message_queue_round_trips_messages() {
    let mut q = MsgFMQueue::new();
    assert!(q.is_empty());
    assert!(q.enqueue(SendMessage { chat_id: 7, text: String::from("hello") }));
    assert!(q.enqueue(SendMessage { chat_id: 1 << 24, text: String::from("wörld") }));
    let first = q.peek().unwrap();
    assert_eq!(first.chat_id, 7);
    assert_eq!(first.text, "hello");
    assert!(q.remove_first());
    let second = q.peek().unwrap();
    assert_eq!(second.chat_id, 1 << 24);
    assert_eq!(second.text, "wörld");
    assert!(q.remove_first());
    assert!(!q.remove_first());
}

#[test]
fn message_queue_reports_full() {
    let mut q = MsgFMQueue::new();
    for i in 0..(QUEUE_LIMIT - 1) {
        assert!(q.enqueue(SendMessage { chat_id: i as u32, text: String::from("x") }));
    }
    assert!(q.is_full());
    assert!(!q.enqueue(SendMessage { chat_id: 999, text: String::from("overflow") }));
    let oldest = q.peek().unwrap();
    assert_eq!(oldest.chat_id, 0);
}

#[test]
fn restore_preserves_contents() {
    let mut q = MsgFMQueue::new();
    assert!(q.enqueue(SendMessage { chat_id: 5, text: String::from("persisted") }));
    assert!(q.enqueue(SendMessage { chat_id: 6, text: String::from("also") }));
    assert!(q.remove_first());
    let restored =
        MsgFMQueue::restore(q.inner.head, q.inner.tail, q.inner.slots.clone()).unwrap();
    let m = restored.peek().unwrap();
    assert_eq!(m.chat_id, 6);
    assert_eq!(m.text, "also");
}

#[test]
fn restore_rejects_bad_cursors() {
    let slots = vec![Vec::new(); QUEUE_LIMIT as usize];
    assert!(MsgFMQueue::restore(START_INDEX - 1, START_INDEX, slots.clone()).is_none());
    assert!(MsgFMQueue::restore(START_INDEX, START_INDEX + QUEUE_LIMIT, slots.clone()).is_none());
    assert!(MsgFMQueue::restore(START_INDEX, START_INDEX, vec![Vec::new(); 3]).is_none());
    assert!(MsgFMQueue::restore(START_INDEX, START_INDEX, slots).is_some());
}

#[test]
fn restore_rejects_corrupt_records() {
    // a record shorter than a chat id
    let mut slots = vec![Vec::new(); QUEUE_LIMIT as usize];
    slots[0] = vec![1, 2, 3];
    assert!(MsgFMQueue::restore(START_INDEX, START_INDEX + 1, slots).is_none());
    // a record whose text is not UTF-8
    let mut slots = vec![Vec::new(); QUEUE_LIMIT as usize];
    slots[0] = vec![0, 0, 0, 1, 0xFF];
    assert!(MsgFMQueue::restore(START_INDEX, START_INDEX + 1, slots).is_none());
    // a corrupt record outside the used window is ignored
    let mut slots = vec![Vec::new(); QUEUE_LIMIT as usize];
    slots[0] = vec![0, 0, 0, 1];
    slots[5] = vec![0xFF];
    assert!(MsgFMQueue::restore(START_INDEX, START_INDEX + 1, slots).is_some());
}

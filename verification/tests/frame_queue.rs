use waywall::frame_queue::{FrameQueue, WriteSlot, QUEUE_SIZE};

#[test]
fn new_queue_is_empty() {
    let q = FrameQueue::new();
    assert_eq!(q.len(), 0);
    assert!(q.try_get_read_slot().is_none());
}

#[test]
fn commit_write_makes_readable() {
    let mut q = FrameQueue::new();
    let _slot = q.get_write_slot();
    // no need to write real frame, just commit
    q.commit_write();
    assert_eq!(q.len(), 1);
    assert!(q.try_get_read_slot().is_some());
    q.commit_read();
    assert_eq!(q.len(), 0);
}

#[test]
fn frames_come_out_in_order_through_many_rounds() {
    let mut q = FrameQueue::default();
    let mut memory = [0u32; QUEUE_SIZE as usize];
    let mut next = 0u32;
    let mut expected = 0u32;
    for round in 0..20u32 {
        for _ in 0..(round % 4) {
            if let WriteSlot::Slot(i) = q.get_write_slot() {
                memory[i as usize] = next;
                next += 1;
                q.commit_write();
            }
        }
        if let Some(i) = q.try_get_read_slot() {
            assert_eq!(memory[i as usize], expected);
            assert_eq!(q.commit_read(), i);
            expected += 1;
        }
    }
    assert_eq!(q.len(), next - expected);
    assert_eq!(q.written(), next);
    assert_eq!(q.read(), expected);
}

#[test]
fn full_queue_hands_out_no_slot() {
    let mut q = FrameQueue::new();
    for i in 0..QUEUE_SIZE {
        assert_eq!(q.get_write_slot(), WriteSlot::Slot(i));
        q.commit_write();
    }
    assert_eq!(q.get_write_slot(), WriteSlot::Full);
    q.commit_read();
    assert_eq!(q.get_write_slot(), WriteSlot::Slot(0));
}

#[test]
fn closed_queue_keeps_its_frames() {
    let mut q = FrameQueue::new();
    q.commit_write();
    q.close();
    assert_eq!(q.get_write_slot(), WriteSlot::Closed);
    assert_eq!(q.try_get_read_slot(), Some(0));
    assert!(!q.is_empty());
}

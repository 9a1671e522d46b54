use plasma::api::error::Error;
use plasma::api::events::{Batch, CAPACITY, ConsumerLease, NoteQueue};
use plasma::api::synth::{queue_all_notes_off, queue_note_off, queue_note_on};

fn take(lease: &mut ConsumerLease, queue: &mut NoteQueue) -> Batch {
    let mut batch = Batch::new();
    lease.dispatch(queue, &mut batch);
    batch
}

#[test]
fn events_arrive_in_fifo_order_with_velocity() {
    let mut queue = NoteQueue::new();
    let mut lease = ConsumerLease::acquire(&mut queue).unwrap();
    for (note, velocity) in [(60, 100), (64, 40), (60, 0), (60, 75), (67, 127), (64, 0)] {
        queue_note_on(&mut queue, note, velocity).unwrap();
    }
    let batch = take(&mut lease, &mut queue);
    assert!(!batch.release_all);
    assert_eq!(batch.events, vec![(60, 100), (64, 40), (60, 0), (60, 75), (67, 127), (64, 0)]);
    assert!(take(&mut lease, &mut queue).events.is_empty());
}

#[test]
fn overflow_requests_release_and_discards_stale_events() {
    let mut queue = NoteQueue::new();
    let mut lease = ConsumerLease::acquire(&mut queue).unwrap();
    for _ in 0..CAPACITY {
        queue.push(64, 100).unwrap();
    }
    let error = queue.push(60, 0).unwrap_err();
    assert_eq!(error, "Note queue is full; all notes will be released at the next audio buffer");
    assert_eq!(queue_note_off(&mut queue, 60), Err(Error::QueueFull));
    let batch = take(&mut lease, &mut queue);
    assert!(batch.release_all);
    assert!(batch.events.is_empty());
    queue_note_on(&mut queue, 67, 127).unwrap();
    let batch = take(&mut lease, &mut queue);
    assert!(!batch.release_all);
    assert_eq!(batch.events, vec![(67, 127)]);
}

#[test]
fn all_notes_off_succeeds_at_capacity_and_keeps_later_events() {
    let mut queue = NoteQueue::new();
    let mut lease = ConsumerLease::acquire(&mut queue).unwrap();
    for _ in 0..CAPACITY {
        queue_note_on(&mut queue, 60, 127).unwrap();
    }
    assert_eq!(queue_all_notes_off(&mut queue), Ok(()));
    let batch = take(&mut lease, &mut queue);
    assert!(batch.release_all);
    assert!(batch.events.is_empty());
    queue_note_on(&mut queue, 60, 127).unwrap();
    queue_all_notes_off(&mut queue).unwrap();
    queue_note_on(&mut queue, 64, 127).unwrap();
    let batch = take(&mut lease, &mut queue);
    assert!(batch.release_all);
    assert_eq!(batch.events, vec![(64, 127)]);
}

#[test]
fn consumers_are_exclusive_until_released() {
    let mut queue = NoteQueue::new();
    let lease = ConsumerLease::acquire(&mut queue).unwrap();
    assert_eq!(
        ConsumerLease::acquire(&mut queue).err(),
        Some("This Synth already has an audio consumer".to_string())
    );
    lease.release(&mut queue);
    let mut replacement = ConsumerLease::acquire(&mut queue).unwrap();
    queue_note_on(&mut queue, 60, 127).unwrap();
    assert_eq!(take(&mut replacement, &mut queue).events, vec![(60, 127)]);
}

#[test]
fn midi_ranges_are_validated_before_queueing() {
    let mut queue = NoteQueue::new();
    let mut lease = ConsumerLease::acquire(&mut queue).unwrap();
    assert_eq!(queue_note_on(&mut queue, 128, 100), Err(Error::InvalidMidi));
    assert_eq!(queue_note_on(&mut queue, 60, 128), Err(Error::InvalidMidi));
    assert_eq!(queue_note_off(&mut queue, 255), Err(Error::InvalidMidi));
    assert!(take(&mut lease, &mut queue).events.is_empty());
}

#[test]
fn unvalidated_high_notes_keep_their_low_seven_bits() {
    let mut queue = NoteQueue::new();
    let mut lease = ConsumerLease::acquire(&mut queue).unwrap();
    queue.push(200, 255).unwrap();
    assert_eq!(take(&mut lease, &mut queue).events, vec![(72, 255)]);
}

#[test]
fn positions_wrap_around_the_ring() {
    let mut queue = NoteQueue::new();
    let mut lease = ConsumerLease::acquire(&mut queue).unwrap();
    for round in 0..3u8 {
        for i in 0..100u8 {
            queue.push(i, round).unwrap();
        }
        let events = take(&mut lease, &mut queue).events;
        assert_eq!(events.len(), 100);
        assert_eq!(events[99], (99, round));
    }
}

#[test]
fn a_reused_batch_holds_only_the_latest_buffer() {
    let mut queue = NoteQueue::new();
    let mut lease = ConsumerLease::acquire(&mut queue).unwrap();
    let mut batch = Batch::new();
    queue.reset();
    queue.push(60, 90).unwrap();
    lease.dispatch(&mut queue, &mut batch);
    assert!(batch.release_all);
    assert_eq!(batch.events, vec![(60, 90)]);
    queue.push(62, 80).unwrap();
    lease.dispatch(&mut queue, &mut batch);
    assert!(!batch.release_all);
    assert_eq!(batch.events, vec![(62, 80)]);
    lease.dispatch(&mut queue, &mut batch);
    assert!(batch.events.is_empty());
}

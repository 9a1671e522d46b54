//! Validation rules of the control handle: MIDI ranges, the indices of
//! oscillators, global controls and modulation routes, the queueing of note
//! events, and the audio device configuration the engine accepts.
use vstd::prelude::*;
use crate::api::error::Error;
use crate::api::events::NoteQueue;
use crate::kernel::params::{GLOBAL_COUNT, OSCILLATOR_COUNT, SOURCE_COUNT, TARGET_COUNT};

verus! {

/// Queues a MIDI note in FIFO order; velocity zero queues a note-off. Note
/// and velocity must be in 0..=127. At capacity the event is refused and a
/// release of every voice is requested instead.
pub fn queue_note_on(queue: &mut NoteQueue, note: u8, velocity: u8) -> (r: Result<(), Error>)
    requires
        old(queue).wf(),
    ensures
        final(queue).wf(),
        note > 127 || velocity > 127 ==> r == Err::<(), Error>(Error::InvalidMidi) && final(queue)@
            == old(queue)@,
        note <= 127 && velocity <= 127 && old(queue)@.has_room() ==> r is Ok && final(queue)@
            == old(queue)@.after_push(note, velocity),
        note <= 127 && velocity <= 127 && !old(queue)@.has_room() ==> r == Err::<(), Error>(
            Error::QueueFull,
        ) && final(queue)@ == old(queue)@.after_reset(),
{
    if note > 127 || velocity > 127 {
        return Err(Error::InvalidMidi);
    }
    match queue.push(note, velocity) {
        Ok(()) => Ok(()),
        Err(_) => Err(Error::QueueFull),
    }
}

/// Queues the release of this note only.
pub fn queue_note_off(queue: &mut NoteQueue, note: u8) -> (r: Result<(), Error>)
    requires
        old(queue).wf(),
    ensures
        final(queue).wf(),
        note > 127 ==> r == Err::<(), Error>(Error::InvalidMidi) && final(queue)@ == old(queue)@,
        note <= 127 && old(queue)@.has_room() ==> r is Ok && final(queue)@ == old(queue)@.after_push(
            note,
            0,
        ),
        note <= 127 && !old(queue)@.has_room() ==> r == Err::<(), Error>(Error::QueueFull)
            && final(queue)@ == old(queue)@.after_reset(),
{
    queue_note_on(queue, note, 0)
}

/// Requests release of every voice, even when the queue is full. Earlier
/// queued events are discarded; later ones stay ordered after this boundary.
pub fn queue_all_notes_off(queue: &mut NoteQueue) -> (r: Result<(), Error>)
    requires
        old(queue).wf(),
    ensures
        final(queue).wf(),
        r is Ok,
        final(queue)@ == old(queue)@.after_reset(),
{
    queue.reset();
    Ok(())
}

/// An oscillator index, which must be below OSCILLATOR_COUNT.
pub fn oscillator_index(index: usize) -> (r: Result<usize, Error>)
    ensures
        index < OSCILLATOR_COUNT ==> r == Ok::<usize, Error>(index),
        index >= OSCILLATOR_COUNT ==> r == Err::<usize, Error>(Error::InvalidOscillator),
{
    if index < OSCILLATOR_COUNT {
        Ok(index)
    } else {
        Err(Error::InvalidOscillator)
    }
}

/// A global-control index, which must be below GLOBAL_COUNT.
pub fn global_index(index: usize) -> (r: Result<usize, Error>)
    ensures
        index < GLOBAL_COUNT ==> r == Ok::<usize, Error>(index),
        index >= GLOBAL_COUNT ==> r == Err::<usize, Error>(Error::InvalidGlobal),
{
    if index < GLOBAL_COUNT {
        Ok(index)
    } else {
        Err(Error::InvalidGlobal)
    }
}

/// A modulation route: `source` below SOURCE_COUNT and `target` below
/// TARGET_COUNT.
pub fn route_index(target: usize, source: usize) -> (r: Result<(usize, usize), Error>)
    ensures
        target < TARGET_COUNT && source < SOURCE_COUNT ==> r == Ok::<(usize, usize), Error>(
            (source, target),
        ),
        !(target < TARGET_COUNT && source < SOURCE_COUNT) ==> r == Err::<(usize, usize), Error>(
            Error::InvalidRoute,
        ),
{
    if source < SOURCE_COUNT && target < TARGET_COUNT {
        Ok((source, target))
    } else {
        Err(Error::InvalidRoute)
    }
}

/// A device configuration needs at least one channel and a nonzero sample
/// rate.
pub fn check_device_format(channels: u16, sample_rate: u32) -> (r: Result<(), Error>)
    ensures
        channels > 0 && sample_rate > 0 ==> r is Ok,
        channels == 0 || sample_rate == 0 ==> r == Err::<(), Error>(Error::InvalidDeviceFormat),
{
    if channels == 0 || sample_rate == 0 {
        Err(Error::InvalidDeviceFormat)
    } else {
        Ok(())
    }
}

} // verus!

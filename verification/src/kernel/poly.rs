//! Fixed-capacity voice allocation: which of the eight slots a MIDI event
//! reaches, the age order used for stealing, the legato key stack and the
//! sustain pedal. The audio of each slot is rendered elsewhere; every event
//! here answers with the voice operations that rendering must perform.
use vstd::prelude::*;
use crate::kernel::error::Error;

verus! {

/// Number of independent voice slots.
pub const POLYPHONY: usize = 8;

/// Number of MIDI keys the legato stack can remember.
pub const KEY_COUNT: usize = 128;

/// Allocation state of one voice slot.
#[derive(Clone, Copy, Debug, PartialEq, Eq)]
pub struct Slot {
    /// The MIDI note of the slot; `None` when the slot is idle.
    pub note: Option<u8>,
    /// The key is physically held.
    pub held: bool,
    /// The key was released while the sustain pedal was down.
    pub pedal: bool,
    /// Age rank: 0 is the most recently triggered slot, 7 the oldest.
    pub rank: usize,
    /// Velocity of the note that last triggered the slot.
    pub velocity: u8,
    /// Frames left of the crossfade that started at the last trigger.
    pub transition_left: usize,
}

/// The slots a search considers.
#[derive(Clone, Copy, Debug, PartialEq, Eq)]
pub enum SlotFilter {
    /// No note assigned.
    Idle,
    /// A note assigned, including release tails.
    Active,
    /// Key not physically held.
    Unheld,
    /// Key held, or kept by the sustain pedal.
    Engaged,
    /// Key physically held.
    Held,
    /// Every slot.
    Any,
    /// Held or pedaled and playing this note.
    Sounding(u8),
    /// Held and of this age rank.
    HeldRank(usize),
    /// Held and playing this note.
    HeldNote(u8),
}

impl SlotFilter {
    pub open spec fn admits(self, s: Slot) -> bool {
        match self {
            SlotFilter::Idle => s.note is None,
            SlotFilter::Active => s.note is Some,
            SlotFilter::Unheld => !s.held,
            SlotFilter::Engaged => s.held || s.pedal,
            SlotFilter::Held => s.held,
            SlotFilter::Any => true,
            SlotFilter::Sounding(n) => s.note == Some(n) && (s.held || s.pedal),
            SlotFilter::HeldRank(r) => s.held && s.rank == r,
            SlotFilter::HeldNote(n) => s.held && s.note == Some(n),
        }
    }

    pub fn admits_slot(&self, s: &Slot) -> (b: bool)
        ensures
            b == self.admits(*s),
    {
        match self {
            SlotFilter::Idle => s.note.is_none(),
            SlotFilter::Active => s.note.is_some(),
            SlotFilter::Unheld => !s.held,
            SlotFilter::Engaged => s.held || s.pedal,
            SlotFilter::Held => s.held,
            SlotFilter::Any => true,
            SlotFilter::Sounding(n) => s.note == Some(*n) && (s.held || s.pedal),
            SlotFilter::HeldRank(r) => s.held && s.rank == *r,
            SlotFilter::HeldNote(n) => s.held && s.note == Some(*n),
        }
    }
}

/// The first admitted slot at index `k` or later.
pub open spec fn first_from(s: Seq<Slot>, f: SlotFilter, k: int) -> Option<int>
    decreases s.len() - k,
{
    if k < 0 || k >= s.len() {
        None
    } else if f.admits(s[k]) {
        Some(k)
    } else {
        first_from(s, f, k + 1)
    }
}

/// The admitted slot of greatest rank at index `k` or later; among equal
/// ranks the later index.
pub open spec fn oldest_from(s: Seq<Slot>, f: SlotFilter, k: int) -> Option<int>
    decreases s.len() - k,
{
    if k < 0 || k >= s.len() {
        None
    } else {
        let rest = oldest_from(s, f, k + 1);
        if f.admits(s[k]) && (rest is None || s[k].rank > s[rest->0].rank) {
            Some(k)
        } else {
            rest
        }
    }
}

/// The admitted slot of least rank at index `k` or later; among equal ranks
/// the earlier index.
pub open spec fn newest_from(s: Seq<Slot>, f: SlotFilter, k: int) -> Option<int>
    decreases s.len() - k,
{
    if k < 0 || k >= s.len() {
        None
    } else {
        let rest = newest_from(s, f, k + 1);
        if f.admits(s[k]) && (rest is None || s[k].rank <= s[rest->0].rank) {
            Some(k)
        } else {
            rest
        }
    }
}

/// Number of admitted slots at index `k` or later.
pub open spec fn count_from(s: Seq<Slot>, f: SlotFilter, k: int) -> nat
    decreases s.len() - k,
{
    if k < 0 || k >= s.len() {
        0
    } else {
        (if f.admits(s[k]) { 1nat } else { 0nat }) + count_from(s, f, k + 1)
    }
}

pub open spec fn as_int(o: Option<usize>) -> Option<int> {
    match o {
        Some(i) => Some(i as int),
        None => None,
    }
}

proof fn lemma_first_from(s: Seq<Slot>, f: SlotFilter, k: int)
    requires
        0 <= k,
    ensures
        first_from(s, f, k) matches Some(i) ==> k <= i < s.len() && f.admits(s[i]) && (forall|j: int|
            k <= j < i ==> !f.admits(#[trigger] s[j])),
        first_from(s, f, k) is None ==> forall|j: int| k <= j < s.len() ==> !f.admits(#[trigger] s[j]),
    decreases s.len() - k,
{
    if k < s.len() {
        lemma_first_from(s, f, k + 1);
    }
}

proof fn lemma_oldest_from(s: Seq<Slot>, f: SlotFilter, k: int)
    requires
        0 <= k,
    ensures
        oldest_from(s, f, k) matches Some(i) ==> k <= i < s.len() && f.admits(s[i]) && (forall|j: int|
            k <= j < s.len() && f.admits(#[trigger] s[j]) ==> s[j].rank <= s[i].rank),
        oldest_from(s, f, k) is None ==> forall|j: int| k <= j < s.len() ==> !f.admits(#[trigger] s[j]),
    decreases s.len() - k,
{
    if k < s.len() {
        lemma_oldest_from(s, f, k + 1);
    }
}

proof fn lemma_newest_from(s: Seq<Slot>, f: SlotFilter, k: int)
    requires
        0 <= k,
    ensures
        newest_from(s, f, k) matches Some(i) ==> k <= i < s.len() && f.admits(s[i]) && (forall|j: int|
            k <= j < s.len() && f.admits(#[trigger] s[j]) ==> s[i].rank <= s[j].rank),
        newest_from(s, f, k) is None ==> forall|j: int| k <= j < s.len() ==> !f.admits(#[trigger] s[j]),
    decreases s.len() - k,
{
    if k < s.len() {
        lemma_newest_from(s, f, k + 1);
    }
}

fn find_first(slots: &Vec<Slot>, f: SlotFilter) -> (r: Option<usize>)
    ensures
        as_int(r) == first_from(slots@, f, 0),
{
    let mut i = slots.len();
    let mut best: Option<usize> = None;
    while i > 0
        invariant
            i <= slots.len(),
            as_int(best) == first_from(slots@, f, i as int),
        decreases i,
    {
        i = i - 1;
        if f.admits_slot(&slots[i]) {
            best = Some(i);
        }
    }
    best
}

fn find_oldest(slots: &Vec<Slot>, f: SlotFilter) -> (r: Option<usize>)
    ensures
        as_int(r) == oldest_from(slots@, f, 0),
{
    let mut i = slots.len();
    let mut best: Option<usize> = None;
    while i > 0
        invariant
            i <= slots.len(),
            as_int(best) == oldest_from(slots@, f, i as int),
            best matches Some(b) ==> b < slots.len(),
        decreases i,
    {
        i = i - 1;
        proof {
            lemma_oldest_from(slots@, f, i + 1);
        }
        if f.admits_slot(&slots[i]) {
            match best {
                None => {
                    best = Some(i);
                },
                Some(b) => {
                    if slots[i].rank > slots[b].rank {
                        best = Some(i);
                    }
                },
            }
        }
    }
    best
}

fn find_newest(slots: &Vec<Slot>, f: SlotFilter) -> (r: Option<usize>)
    ensures
        as_int(r) == newest_from(slots@, f, 0),
{
    let mut i = slots.len();
    let mut best: Option<usize> = None;
    while i > 0
        invariant
            i <= slots.len(),
            as_int(best) == newest_from(slots@, f, i as int),
            best matches Some(b) ==> b < slots.len(),
        decreases i,
    {
        i = i - 1;
        proof {
            lemma_newest_from(slots@, f, i + 1);
        }
        if f.admits_slot(&slots[i]) {
            match best {
                None => {
                    best = Some(i);
                },
                Some(b) => {
                    if slots[i].rank <= slots[b].rank {
                        best = Some(i);
                    }
                },
            }
        }
    }
    best
}

fn count_admitted(slots: &Vec<Slot>, f: SlotFilter) -> (n: usize)
    ensures
        n == count_from(slots@, f, 0),
{
    let mut i = slots.len();
    let mut n: usize = 0;
    while i > 0
        invariant
            i <= slots.len(),
            n == count_from(slots@, f, i as int),
            n <= slots.len() - i,
        decreases i,
    {
        i = i - 1;
        if f.admits_slot(&slots[i]) {
            n = n + 1;
        }
    }
    n
}


/// Random seed of slot `index`'s voice: the synthesizer seed advanced by
/// `index` SplitMix64 increments, so that every slot draws independent
/// phases.
pub fn voice_seed(seed: u64, index: u64) -> (r: u64)
    ensures
        r == seed.wrapping_add(index.wrapping_mul(0x9e3779b97f4a7c15u64)),
{
    seed.wrapping_add(index.wrapping_mul(0x9e3779b97f4a7c15u64))
}

/// A voice (re)start requested by an event.
#[derive(Clone, Copy, Debug, PartialEq, Eq)]
pub struct Trigger {
    pub slot: usize,
    pub note: u8,
    pub velocity: u8,
    /// The slot is reassigned to a new note: its previous envelopes, note
    /// sources and filter state are cleared before the trigger.
    pub reset_note: bool,
}

/// Voice operations an event asks of the renderer: `release[i]` sends
/// note-off to slot `i`'s envelopes; `trigger` starts or retunes one slot and
/// starts its crossfade from that slot's last output.
pub struct Actions {
    pub release: [bool; POLYPHONY],
    pub trigger: Option<Trigger>,
}

/// Mathematical form of [`Actions`].
#[verifier::ext_equal]
pub struct Effect {
    pub release: Seq<bool>,
    pub trigger: Option<Trigger>,
}

impl View for Actions {
    type V = Effect;

    open spec fn view(&self) -> Effect {
        Effect { release: self.release@, trigger: self.trigger }
    }
}

pub open spec fn no_release() -> Seq<bool> {
    Seq::new(POLYPHONY as nat, |i: int| false)
}

pub open spec fn quiet() -> Effect {
    Effect { release: no_release(), trigger: None }
}

pub open spec fn engaged(s: Slot) -> bool {
    s.held || s.pedal
}

/// Index of the stack entry for `note` at position `k` or later.
pub open spec fn key_index_from(keys: Seq<(u8, u8)>, note: u8, k: int) -> Option<int>
    decreases keys.len() - k,
{
    if k < 0 || k >= keys.len() {
        None
    } else if keys[k].0 == note {
        Some(k)
    } else {
        key_index_from(keys, note, k + 1)
    }
}

/// The key stack without `note`.
pub open spec fn remove_key(keys: Seq<(u8, u8)>, note: u8) -> Seq<(u8, u8)> {
    match key_index_from(keys, note, 0) {
        Some(i) => keys.remove(i),
        None => keys,
    }
}

/// The key stack with `note` moved to (or placed on) the top.
pub open spec fn push_key(keys: Seq<(u8, u8)>, note: u8, velocity: u8) -> Seq<(u8, u8)> {
    let rest = remove_key(keys, note);
    if rest.len() < KEY_COUNT {
        rest.push((note, velocity))
    } else {
        rest
    }
}

/// Slot `idx` becomes the newest; every slot younger than it ages by one.
pub open spec fn promoted(s: Seq<Slot>, idx: int) -> Seq<Slot> {
    Seq::new(
        s.len(),
        |i: int|
            if i == idx {
                Slot { rank: 0, ..s[i] }
            } else if s[i].rank < s[idx].rank {
                Slot { rank: (s[i].rank + 1) as usize, ..s[i] }
            } else {
                s[i]
            },
    )
}

/// Slot `idx` promoted and (re)started on `note` as a held key.
pub open spec fn started(s: Seq<Slot>, idx: int, note: u8, velocity: u8, frames: usize) -> Seq<Slot> {
    promoted(s, idx).update(
        idx,
        Slot { note: Some(note), held: true, pedal: false, rank: 0, velocity, transition_left: frames },
    )
}

/// Slot `idx` promoted and retuned to `note`; its pedal flag is kept.
pub open spec fn retuned(s: Seq<Slot>, idx: int, note: u8, velocity: u8, frames: usize) -> Seq<Slot> {
    promoted(s, idx).update(
        idx,
        Slot {
            note: Some(note),
            held: true,
            pedal: s[idx].pedal,
            rank: 0,
            velocity,
            transition_left: frames,
        },
    )
}

/// Mathematical state of the allocator.
#[verifier::ext_equal]
pub struct PolyState {
    pub slots: Seq<Slot>,
    /// Legato key stack, oldest first; the last entry is the sounding key.
    pub keys: Seq<(u8, u8)>,
    pub legato: bool,
    pub sustain: bool,
    /// Length of the trigger crossfade in frames.
    pub transition_frames: usize,
}

impl PolyState {
    pub open spec fn initial(transition_frames: usize) -> PolyState {
        PolyState {
            slots: Seq::new(
                POLYPHONY as nat,
                |i: int|
                    Slot {
                        note: None,
                        held: false,
                        pedal: false,
                        rank: i as usize,
                        velocity: 0,
                        transition_left: 0,
                    },
            ),
            keys: Seq::empty(),
            legato: false,
            sustain: false,
            transition_frames,
        }
    }

    /// Ranks are a permutation of `0..POLYPHONY`.
    pub open spec fn ranks_permute(s: Seq<Slot>) -> bool {
        &&& s.len() == POLYPHONY
        &&& forall|i: int| 0 <= i < POLYPHONY ==> #[trigger] s[i].rank < POLYPHONY
        &&& forall|i: int, j: int|
            0 <= i < POLYPHONY && 0 <= j < POLYPHONY && i != j ==> #[trigger] s[i].rank
                != #[trigger] s[j].rank
    }

    pub open spec fn inv(self) -> bool {
        let s = self.slots;
        let keys = self.keys;
        &&& Self::ranks_permute(s)
        &&& self.transition_frames >= 2
        &&& forall|i: int|
            0 <= i < POLYPHONY ==> {
                let sl = #[trigger] s[i];
                &&& sl.note is None ==> !sl.held && !sl.pedal
                &&& sl.note matches Some(n) ==> n < 128
                &&& sl.velocity <= 127
                &&& sl.transition_left <= self.transition_frames
                &&& !(sl.held && sl.pedal)
                &&& !self.sustain ==> !sl.pedal
                &&& self.legato && sl.held ==> keys.len() > 0 && sl.note == Some(keys.last().0)
                &&& self.legato && sl.pedal ==> keys.len() == 0
            }
        // No note sounds on two engaged slots.
        &&& forall|i: int, j: int|
            0 <= i < POLYPHONY && 0 <= j < POLYPHONY && i != j && engaged(#[trigger] s[i])
                && engaged(#[trigger] s[j]) ==> s[i].note != s[j].note
        // Legato keeps at most one engaged slot.
        &&& self.legato ==> forall|i: int, j: int|
            0 <= i < POLYPHONY && 0 <= j < POLYPHONY && i != j && engaged(#[trigger] s[i]) ==> !engaged(
                #[trigger] s[j],
            )
        &&& keys.len() <= KEY_COUNT
        &&& forall|k: int| 0 <= k < keys.len() ==> #[trigger] keys[k].0 < 128 && keys[k].1 <= 127
        &&& forall|a: int, b: int|
            0 <= a < keys.len() && 0 <= b < keys.len() && a != b ==> #[trigger] keys[a].0
                != #[trigger] keys[b].0
        &&& !self.legato ==> keys.len() == 0
    }
}


impl PolyState {
    /// The held or pedaled slot already playing `note`.
    pub open spec fn repeated(self, note: u8) -> Option<int> {
        first_from(self.slots, SlotFilter::Sounding(note), 0)
    }

    /// The most recently triggered held or pedaled slot.
    pub open spec fn legato_slot(self) -> Option<int> {
        newest_from(self.slots, SlotFilter::Engaged, 0)
    }

    /// Under legato, a new key reuses the engaged slot.
    pub open spec fn legato_held(self, note: u8) -> Option<int> {
        if self.legato && self.repeated(note) is None {
            self.legato_slot()
        } else {
            None
        }
    }

    /// Slot for a new note: an idle slot, else the oldest slot whose key is
    /// not held, else the oldest slot.
    pub open spec fn steal_index(self) -> int {
        let s = self.slots;
        match first_from(s, SlotFilter::Idle, 0) {
            Some(i) => i,
            None => match oldest_from(s, SlotFilter::Unheld, 0) {
                Some(i) => i,
                None => match oldest_from(s, SlotFilter::Any, 0) {
                    Some(i) => i,
                    None => 0,
                },
            },
        }
    }

    /// Slot that a note-on of `note` triggers.
    pub open spec fn trigger_index(self, note: u8) -> int {
        match self.repeated(note) {
            Some(i) => i,
            None => match self.legato_held(note) {
                Some(i) => i,
                None => self.steal_index(),
            },
        }
    }

    /// State and voice operations after a note-on with nonzero velocity.
    pub open spec fn note_on_result(self, note: u8, velocity: u8) -> (PolyState, Effect) {
        let idx = self.trigger_index(note);
        let keys = if self.legato {
            push_key(self.keys, note, velocity)
        } else {
            self.keys
        };
        (
            PolyState {
                slots: started(self.slots, idx, note, velocity, self.transition_frames),
                keys,
                ..self
            },
            Effect {
                release: no_release(),
                trigger: Some(
                    Trigger {
                        slot: idx as usize,
                        note,
                        velocity,
                        reset_note: self.repeated(note) is None && self.legato_held(note) is None,
                    },
                ),
            },
        )
    }

    /// Every slot holding `note` loses its key: with the pedal down it is
    /// kept by the pedal, otherwise its envelopes are released.
    pub open spec fn release_key(self, note: u8) -> (PolyState, Effect) {
        let s = self.slots;
        (
            PolyState {
                slots: Seq::new(
                    s.len(),
                    |i: int|
                        if s[i].held && s[i].note == Some(note) {
                            Slot { held: false, pedal: self.sustain, ..s[i] }
                        } else {
                            s[i]
                        },
                ),
                ..self
            },
            Effect {
                release: Seq::new(
                    POLYPHONY as nat,
                    |i: int| s[i].held && s[i].note == Some(note) && !self.sustain,
                ),
                trigger: None,
            },
        )
    }

    /// State and voice operations after a note-off of `note`.
    pub open spec fn note_off_result(self, note: u8) -> (PolyState, Effect) {
        if self.legato {
            let keys = self.keys;
            let was_top = keys.len() > 0 && keys.last().0 == note;
            let rest = remove_key(keys, note);
            let forgot = PolyState { keys: rest, ..self };
            if was_top && rest.len() > 0 && self.legato_slot() is Some {
                let idx = self.legato_slot()->0;
                let previous = rest.last();
                (
                    PolyState {
                        slots: retuned(
                            self.slots,
                            idx,
                            previous.0,
                            previous.1,
                            self.transition_frames,
                        ),
                        ..forgot
                    },
                    Effect {
                        release: no_release(),
                        trigger: Some(
                            Trigger {
                                slot: idx as usize,
                                note: previous.0,
                                velocity: previous.1,
                                reset_note: false,
                            },
                        ),
                    },
                )
            } else if was_top && rest.len() == 0 && self.sustain {
                let slots = match self.legato_slot() {
                    Some(idx) => self.slots.update(
                        idx,
                        Slot { held: false, pedal: true, ..self.slots[idx] },
                    ),
                    None => self.slots,
                };
                (PolyState { slots, ..forgot }, quiet())
            } else if !was_top && first_from(self.slots, SlotFilter::HeldNote(note), 0) is None {
                (forgot, quiet())
            } else {
                forgot.release_key(note)
            }
        } else {
            self.release_key(note)
        }
    }
}

impl PolyState {
    /// Every key and pedal is released; the key stack is forgotten.
    pub open spec fn all_notes_off_result(self) -> (PolyState, Effect) {
        let s = self.slots;
        (
            PolyState {
                slots: Seq::new(s.len(), |i: int| Slot { held: false, pedal: false, ..s[i] }),
                keys: Seq::empty(),
                ..self
            },
            Effect { release: Seq::new(POLYPHONY as nat, |i: int| true), trigger: None },
        )
    }

    /// Every slot whose key is up and that still has a note loses the pedal
    /// and is released.
    pub open spec fn release_unheld_result(self) -> (PolyState, Effect) {
        let s = self.slots;
        (
            PolyState {
                slots: Seq::new(
                    s.len(),
                    |i: int|
                        if !s[i].held && s[i].note is Some {
                            Slot { pedal: false, ..s[i] }
                        } else {
                            s[i]
                        },
                ),
                ..self
            },
            Effect {
                release: Seq::new(POLYPHONY as nat, |i: int| !s[i].held && s[i].note is Some),
                trigger: None,
            },
        )
    }

    /// The slot kept when legato is enabled: the most recently triggered
    /// held slot, else the most recently triggered pedaled slot.
    pub open spec fn keep_index(self) -> Option<int> {
        match newest_from(self.slots, SlotFilter::Held, 0) {
            Some(i) => Some(i),
            None => newest_from(self.slots, SlotFilter::Engaged, 0),
        }
    }

    /// Enabling legato: held keys enter the stack in trigger order and every
    /// other engaged slot is released, so that one remains.
    pub open spec fn capture_result(self) -> (PolyState, Effect) {
        let s = self.slots;
        let keys = captured(s, 0);
        match self.keep_index() {
            Some(k) => (
                PolyState {
                    slots: promoted(
                        Seq::new(
                            s.len(),
                            |i: int|
                                if i != k && engaged(s[i]) {
                                    Slot { held: false, pedal: false, ..s[i] }
                                } else {
                                    s[i]
                                },
                        ),
                        k,
                    ),
                    keys,
                    ..self
                },
                Effect {
                    release: Seq::new(POLYPHONY as nat, |i: int| i != k && engaged(s[i])),
                    trigger: None,
                },
            ),
            None => (PolyState { keys, ..self }, quiet()),
        }
    }

    /// Both switches set, with the consequences of the legato switch.
    pub open spec fn legato_switch(self, legato: bool, sustain: bool) -> (PolyState, Effect) {
        let switched = PolyState { legato, sustain, ..self };
        if !legato {
            (PolyState { keys: Seq::empty(), ..switched }, quiet())
        } else if !self.legato {
            switched.capture_result()
        } else {
            (switched, quiet())
        }
    }

    /// State and voice operations after the legato and sustain switches are
    /// set.
    pub open spec fn set_modes_result(self, legato: bool, sustain: bool) -> (PolyState, Effect) {
        let first = self.legato_switch(legato, sustain);
        let second = if self.sustain && !sustain {
            first.0.release_unheld_result()
        } else {
            (first.0, quiet())
        };
        (
            second.0,
            Effect {
                release: Seq::new(
                    POLYPHONY as nat,
                    |i: int| first.1.release[i] || second.1.release[i],
                ),
                trigger: None,
            },
        )
    }

    /// After one rendered frame: crossfades advance, and a slot whose voice
    /// is silent and whose crossfade has finished becomes idle.
    pub open spec fn frame_result(self, silent: Seq<bool>) -> PolyState {
        let s = self.slots;
        PolyState {
            slots: Seq::new(
                s.len(),
                |i: int|
                    {
                        let left = (if s[i].transition_left > 0 {
                            s[i].transition_left - 1
                        } else {
                            0
                        }) as usize;
                        if silent[i] && left == 0 {
                            Slot { note: None, held: false, pedal: false, transition_left: left, ..s[i] }
                        } else {
                            Slot { transition_left: left, ..s[i] }
                        }
                    },
            ),
            ..self
        }
    }
}

/// Keys of the held slots of rank `r` and older, oldest first.
pub open spec fn captured(s: Seq<Slot>, r: int) -> Seq<(u8, u8)>
    decreases POLYPHONY - r,
{
    if r < 0 || r >= POLYPHONY {
        Seq::empty()
    } else {
        let older = captured(s, r + 1);
        match first_from(s, SlotFilter::HeldRank(r as usize), 0) {
            Some(i) => match s[i].note {
                Some(n) => push_key(older, n, s[i].velocity),
                None => older,
            },
            None => older,
        }
    }
}

impl View for PolySynth {
    type V = PolyState;

    closed spec fn view(&self) -> PolyState {
        PolyState {
            slots: self.slots@,
            keys: self.keys@,
            legato: self.legato,
            sustain: self.sustain,
            transition_frames: self.transition_frames,
        }
    }
}

/// Allocation state of the eight-voice synthesizer.
pub struct PolySynth {
    slots: Vec<Slot>,
    keys: Vec<(u8, u8)>,
    legato: bool,
    sustain: bool,
    transition_frames: usize,
}

fn no_release_array() -> (v: [bool; POLYPHONY])
    ensures
        v@ == no_release(),
{
    let v: [bool; POLYPHONY] = [false; POLYPHONY];
    assert(v@ =~= no_release());
    v
}

fn remove_held(keys: &mut Vec<(u8, u8)>, note: u8)
    ensures
        final(keys)@ == remove_key(old(keys)@, note),
{
    let mut i: usize = 0;
    while i < keys.len()
        invariant
            i <= keys.len(),
            keys@ == old(keys)@,
            key_index_from(keys@, note, 0) == key_index_from(keys@, note, i as int),
        decreases keys.len() - i,
    {
        if keys[i].0 == note {
            keys.remove(i);
            return;
        }
        i = i + 1;
    }
}

fn push_held(keys: &mut Vec<(u8, u8)>, note: u8, velocity: u8)
    ensures
        final(keys)@ == push_key(old(keys)@, note, velocity),
{
    remove_held(keys, note);
    if keys.len() < KEY_COUNT {
        keys.push((note, velocity));
    }
}

fn promote(slots: &mut Vec<Slot>, index: usize)
    requires
        index < old(slots).len(),
    ensures
        final(slots)@ == promoted(old(slots)@, index as int),
{
    let old_rank = slots[index].rank;
    let mut i: usize = 0;
    while i < slots.len()
        invariant
            slots.len() == old(slots).len(),
            index < slots.len(),
            old_rank == old(slots)@[index as int].rank,
            i <= slots.len(),
            forall|j: int|
                0 <= j < i ==> #[trigger] slots@[j] == (if old(slots)@[j].rank < old_rank {
                    Slot { rank: (old(slots)@[j].rank + 1) as usize, ..old(slots)@[j] }
                } else {
                    old(slots)@[j]
                }),
            forall|j: int| i <= j < slots.len() ==> #[trigger] slots@[j] == old(slots)@[j],
        decreases slots.len() - i,
    {
        let current = slots[i];
        if current.rank < old_rank {
            slots[i] = Slot { rank: current.rank + 1, ..current };
        }
        i = i + 1;
    }
    let chosen = slots[index];
    slots[index] = Slot { rank: 0, ..chosen };
    assert(slots@ =~= promoted(old(slots)@, index as int));
}

impl PolySynth {
    pub open spec fn wf(&self) -> bool {
        self@.inv()
    }

    fn steal_index(&self) -> (i: usize)
        requires
            self.wf(),
        ensures
            i as int == self@.steal_index(),
            i < POLYPHONY,
    {
        proof {
            lemma_first_from(self.slots@, SlotFilter::Idle, 0);
            lemma_oldest_from(self.slots@, SlotFilter::Unheld, 0);
            lemma_oldest_from(self.slots@, SlotFilter::Any, 0);
            assert(SlotFilter::Any.admits(self.slots@[0]));
        }
        match find_first(&self.slots, SlotFilter::Idle) {
            Some(i) => i,
            None => match find_oldest(&self.slots, SlotFilter::Unheld) {
                Some(i) => i,
                None => match find_oldest(&self.slots, SlotFilter::Any) {
                    Some(i) => i,
                    None => 0,
                },
            },
        }
    }

    /// Starts `note` at `velocity`; velocity zero is a note-off. MIDI note and
    /// velocity must be in 0..=127; a rejected event changes nothing.
    pub fn note_on(&mut self, note: u8, velocity: u8) -> (r: Result<Actions, Error>)
        requires
            old(self).wf(),
        ensures
            final(self).wf(),
            match r {
                Ok(a) => note <= 127 && velocity <= 127 && (if velocity == 0 {
                    (final(self)@, a@) == old(self)@.note_off_result(note)
                } else {
                    (final(self)@, a@) == old(self)@.note_on_result(note, velocity)
                }),
                Err(e) => final(self)@ == old(self)@ && (if note > 127 {
                    e == Error::InvalidParameter("MIDI note")
                } else {
                    velocity > 127 && e == Error::InvalidParameter("MIDI velocity")
                }),
            },
    {
        if note > 127 {
            return Err(Error::InvalidParameter("MIDI note"));
        }
        if velocity > 127 {
            return Err(Error::InvalidParameter("MIDI velocity"));
        }
        if velocity == 0 {
            return self.note_off(note);
        }
        let ghost before = self@;
        proof {
            lemma_note_on_inv(before, note, velocity);
            lemma_first_from(before.slots, SlotFilter::Sounding(note), 0);
            lemma_newest_from(before.slots, SlotFilter::Engaged, 0);
        }
        if self.legato {
            push_held(&mut self.keys, note, velocity);
        }
        let repeated = find_first(&self.slots, SlotFilter::Sounding(note));
        let legato_held = if self.legato && repeated.is_none() {
            find_newest(&self.slots, SlotFilter::Engaged)
        } else {
            None
        };
        let index = match repeated {
            Some(i) => i,
            None => match legato_held {
                Some(i) => i,
                None => self.steal_index(),
            },
        };
        let reset_note = repeated.is_none() && legato_held.is_none();
        promote(&mut self.slots, index);
        self.slots[index] = Slot {
            note: Some(note),
            held: true,
            pedal: false,
            rank: 0,
            velocity,
            transition_left: self.transition_frames,
        };
        let actions = Actions {
            release: no_release_array(),
            trigger: Some(Trigger { slot: index, note, velocity, reset_note }),
        };
        assert(self@ =~= before.note_on_result(note, velocity).0);
        Ok(actions)
    }

    /// Releases `note`. MIDI note must be in 0..=127; a rejected event
    /// changes nothing.
    pub fn note_off(&mut self, note: u8) -> (r: Result<Actions, Error>)
        requires
            old(self).wf(),
        ensures
            final(self).wf(),
            match r {
                Ok(a) => note <= 127 && (final(self)@, a@) == old(self)@.note_off_result(note),
                Err(e) => note > 127 && final(self)@ == old(self)@ && e == Error::InvalidParameter(
                    "MIDI note",
                ),
            },
    {
        if note > 127 {
            return Err(Error::InvalidParameter("MIDI note"));
        }
        let ghost before = self@;
        proof {
            lemma_note_off_inv(before, note);
            lemma_newest_from(before.slots, SlotFilter::Engaged, 0);
        }
        if self.legato {
            let was_top = self.keys.len() > 0 && self.keys[self.keys.len() - 1].0 == note;
            remove_held(&mut self.keys, note);
            if was_top {
                if self.keys.len() > 0 {
                    if let Some(index) = find_newest(&self.slots, SlotFilter::Engaged) {
                        let previous = self.keys[self.keys.len() - 1];
                        promote(&mut self.slots, index);
                        let slot = self.slots[index];
                        self.slots[index] = Slot {
                            note: Some(previous.0),
                            held: true,
                            velocity: previous.1,
                            transition_left: self.transition_frames,
                            ..slot
                        };
                        assert(self@ =~= before.note_off_result(note).0);
                        return Ok(
                            Actions {
                                release: no_release_array(),
                                trigger: Some(
                                    Trigger {
                                        slot: index,
                                        note: previous.0,
                                        velocity: previous.1,
                                        reset_note: false,
                                    },
                                ),
                            },
                        );
                    }
                } else if self.sustain {
                    if let Some(index) = find_newest(&self.slots, SlotFilter::Engaged) {
                        let slot = self.slots[index];
                        self.slots[index] = Slot { held: false, pedal: true, ..slot };
                    }
                    assert(self@ =~= before.note_off_result(note).0);
                    return Ok(Actions { release: no_release_array(), trigger: None });
                }
            } else if find_first(&self.slots, SlotFilter::HeldNote(note)).is_none() {
                assert(self@ =~= before.note_off_result(note).0);
                return Ok(Actions { release: no_release_array(), trigger: None });
            }
        }
        let ghost forgot = self@;
        let actions = self.release_key(note);
        assert(forgot.release_key(note).0 =~= before.note_off_result(note).0);
        Ok(actions)
    }

    fn release_key(&mut self, note: u8) -> (a: Actions)
        requires
            old(self).slots.len() == POLYPHONY,
        ensures
            (final(self)@, a@) == old(self)@.release_key(note),
    {
        let ghost before = self@;
        let mut release: [bool; POLYPHONY] = no_release_array();
        let mut i: usize = 0;
        while i < POLYPHONY
            invariant
                i <= POLYPHONY,
                self.slots.len() == POLYPHONY,
                before == old(self)@,
                before.slots.len() == POLYPHONY,
                self.keys == old(self).keys,
                self.legato == old(self).legato,
                self.sustain == old(self).sustain,
                self.transition_frames == old(self).transition_frames,
                release@.len() == POLYPHONY,
                forall|j: int|
                    0 <= j < i ==> #[trigger] self.slots@[j] == before.release_key(note).0.slots[j],
                forall|j: int|
                    0 <= j < i ==> #[trigger] release@[j] == before.release_key(note).1.release[j],
                forall|j: int| i <= j < POLYPHONY ==> #[trigger] self.slots@[j] == before.slots[j],
            decreases POLYPHONY - i,
        {
            let slot = self.slots[i];
            if slot.held && slot.note == Some(note) {
                self.slots[i] = Slot { held: false, pedal: self.sustain, ..slot };
                release[i] = !self.sustain;
            } else {
                release[i] = false;
            }
            i = i + 1;
        }
        assert(self@ =~= before.release_key(note).0);
        assert(release@ =~= before.release_key(note).1.release);
        Actions { release, trigger: None }
    }

    /// Allocator with eight idle slots, legato and sustain off.
    /// `transition_frames` is the length of the trigger crossfade.
    pub fn new(transition_frames: usize) -> (p: Self)
        requires
            transition_frames >= 2,
        ensures
            p.wf(),
            p@ == PolyState::initial(transition_frames),
    {
        let mut slots: Vec<Slot> = Vec::with_capacity(POLYPHONY);
        let mut i: usize = 0;
        while i < POLYPHONY
            invariant
                i <= POLYPHONY,
                slots@ == PolyState::initial(transition_frames).slots.take(i as int),
            decreases POLYPHONY - i,
        {
            slots.push(
                Slot { note: None, held: false, pedal: false, rank: i, velocity: 0, transition_left: 0 },
            );
            i = i + 1;
            assert(slots@ =~= PolyState::initial(transition_frames).slots.take(i as int));
        }
        let p = PolySynth {
            slots,
            keys: Vec::with_capacity(KEY_COUNT),
            legato: false,
            sustain: false,
            transition_frames,
        };
        assert(p@ =~= PolyState::initial(transition_frames));
        p
    }

    /// Releases every slot normally, including pedaled ones, and forgets the
    /// legato key stack.
    pub fn all_notes_off(&mut self) -> (a: Actions)
        requires
            old(self).wf(),
        ensures
            final(self).wf(),
            (final(self)@, a@) == old(self)@.all_notes_off_result(),
    {
        let ghost before = self@;
        self.keys.clear();
        let mut release: [bool; POLYPHONY] = no_release_array();
        let mut i: usize = 0;
        while i < POLYPHONY
            invariant
                i <= POLYPHONY,
                self.slots.len() == POLYPHONY,
                before == old(self)@,
                before.slots.len() == POLYPHONY,
                self.keys@ == Seq::<(u8, u8)>::empty(),
                self.legato == old(self).legato,
                self.sustain == old(self).sustain,
                self.transition_frames == old(self).transition_frames,
                release@.len() == POLYPHONY,
                forall|j: int| 0 <= j < i ==> #[trigger] release@[j],
                forall|j: int|
                    0 <= j < i ==> #[trigger] self.slots@[j] == before.all_notes_off_result().0.slots[j],
                forall|j: int| i <= j < POLYPHONY ==> #[trigger] self.slots@[j] == before.slots[j],
            decreases POLYPHONY - i,
        {
            let slot = self.slots[i];
            self.slots[i] = Slot { held: false, pedal: false, ..slot };
            release[i] = true;
            i = i + 1;
        }
        assert(self@ =~= before.all_notes_off_result().0);
        assert(release@ =~= before.all_notes_off_result().1.release);
        proof {
            lemma_all_notes_off_inv(before);
        }
        Actions { release, trigger: None }
    }

    fn release_unheld(&mut self) -> (a: Actions)
        requires
            old(self).slots.len() == POLYPHONY,
        ensures
            (final(self)@, a@) == old(self)@.release_unheld_result(),
    {
        let ghost before = self@;
        let mut release: [bool; POLYPHONY] = no_release_array();
        let mut i: usize = 0;
        while i < POLYPHONY
            invariant
                i <= POLYPHONY,
                self.slots.len() == POLYPHONY,
                before == old(self)@,
                before.slots.len() == POLYPHONY,
                self.keys == old(self).keys,
                self.legato == old(self).legato,
                self.sustain == old(self).sustain,
                self.transition_frames == old(self).transition_frames,
                release@.len() == POLYPHONY,
                forall|j: int|
                    0 <= j < i ==> #[trigger] self.slots@[j] == before.release_unheld_result().0.slots[j],
                forall|j: int|
                    0 <= j < i ==> #[trigger] release@[j] == before.release_unheld_result().1.release[j],
                forall|j: int| i <= j < POLYPHONY ==> #[trigger] self.slots@[j] == before.slots[j],
            decreases POLYPHONY - i,
        {
            let slot = self.slots[i];
            if !slot.held && slot.note.is_some() {
                self.slots[i] = Slot { pedal: false, ..slot };
                release[i] = true;
            } else {
                release[i] = false;
            }
            i = i + 1;
        }
        assert(self@ =~= before.release_unheld_result().0);
        assert(release@ =~= before.release_unheld_result().1.release);
        Actions { release, trigger: None }
    }

    fn capture_held_keys(&mut self) -> (a: Actions)
        requires
            PolyState::ranks_permute(old(self).slots@),
        ensures
            (final(self)@, a@) == old(self)@.capture_result(),
    {
        let ghost before = self@;
        self.keys.clear();
        let mut rank = POLYPHONY;
        while rank > 0
            invariant
                rank <= POLYPHONY,
                before == old(self)@,
                self.legato == before.legato,
                self.sustain == before.sustain,
                self.transition_frames == before.transition_frames,
                self.slots@ == before.slots,
                self.slots.len() == POLYPHONY,
                self.keys@ == captured(before.slots, rank as int),
            decreases rank,
        {
            rank = rank - 1;
            proof {
                lemma_first_from(before.slots, SlotFilter::HeldRank(rank), 0);
            }
            if let Some(i) = find_first(&self.slots, SlotFilter::HeldRank(rank)) {
                let slot = self.slots[i];
                if let Some(note) = slot.note {
                    push_held(&mut self.keys, note, slot.velocity);
                }
            }
        }
        let keep = match find_newest(&self.slots, SlotFilter::Held) {
            Some(i) => Some(i),
            None => find_newest(&self.slots, SlotFilter::Engaged),
        };
        proof {
            lemma_newest_from(before.slots, SlotFilter::Held, 0);
            lemma_newest_from(before.slots, SlotFilter::Engaged, 0);
        }
        match keep {
            Some(k) => {
                let mut release: [bool; POLYPHONY] = no_release_array();
                let ghost cleared = Seq::new(
                    before.slots.len(),
                    |i: int|
                        if i != k && engaged(before.slots[i]) {
                            Slot { held: false, pedal: false, ..before.slots[i] }
                        } else {
                            before.slots[i]
                        },
                );
                let mut i: usize = 0;
                while i < POLYPHONY
                    invariant
                        i <= POLYPHONY,
                        k < POLYPHONY,
                        self.slots.len() == POLYPHONY,
                        before.slots.len() == POLYPHONY,
                        cleared.len() == POLYPHONY,
                        cleared == Seq::new(
                            before.slots.len(),
                            |i: int|
                                if i != k && engaged(before.slots[i]) {
                                    Slot { held: false, pedal: false, ..before.slots[i] }
                                } else {
                                    before.slots[i]
                                },
                        ),
                        self.keys@ == captured(before.slots, 0),
                        self.legato == before.legato,
                        self.sustain == before.sustain,
                        self.transition_frames == before.transition_frames,
                        release@.len() == POLYPHONY,
                        forall|j: int|
                            0 <= j < i ==> #[trigger] release@[j] == (j != k && engaged(before.slots[j])),
                        forall|j: int| 0 <= j < i ==> #[trigger] self.slots@[j] == cleared[j],
                        forall|j: int| i <= j < POLYPHONY ==> #[trigger] self.slots@[j] == before.slots[j],
                    decreases POLYPHONY - i,
                {
                    let slot = self.slots[i];
                    if i != k && (slot.held || slot.pedal) {
                        self.slots[i] = Slot { held: false, pedal: false, ..slot };
                        release[i] = true;
                    } else {
                        release[i] = false;
                    }
                    i = i + 1;
                }
                assert(self.slots@ =~= cleared);
                promote(&mut self.slots, k);
                assert(self@ =~= before.capture_result().0);
                assert(release@ =~= before.capture_result().1.release);
                Actions { release, trigger: None }
            },
            None => {
                assert(self@ =~= before.capture_result().0);
                Actions { release: no_release_array(), trigger: None }
            },
        }
    }

    /// Sets the legato and sustain switches. Disabling legato forgets the key
    /// stack; enabling it captures the held keys and keeps one voice.
    /// Lifting the pedal releases every slot whose key is up.
    pub fn set_modes(&mut self, legato: bool, sustain: bool) -> (a: Actions)
        requires
            old(self).wf(),
        ensures
            final(self).wf(),
            (final(self)@, a@) == old(self)@.set_modes_result(legato, sustain),
    {
        let ghost before = self@;
        proof {
            lemma_set_modes_inv(before, legato, sustain);
        }
        let was_legato = self.legato;
        let was_sustain = self.sustain;
        self.legato = legato;
        self.sustain = sustain;
        let first = if !legato {
            self.keys.clear();
            Actions { release: no_release_array(), trigger: None }
        } else if !was_legato {
            self.capture_held_keys()
        } else {
            Actions { release: no_release_array(), trigger: None }
        };
        let second = if was_sustain && !sustain {
            self.release_unheld()
        } else {
            Actions { release: no_release_array(), trigger: None }
        };
        let mut release: [bool; POLYPHONY] = no_release_array();
        let mut i: usize = 0;
        while i < POLYPHONY
            invariant
                i <= POLYPHONY,
                first.release@.len() == POLYPHONY,
                second.release@.len() == POLYPHONY,
                release@.len() == POLYPHONY,
                forall|j: int|
                    0 <= j < i ==> #[trigger] release@[j] == (first.release@[j] || second.release@[j]),
            decreases POLYPHONY - i,
        {
            release[i] = first.release[i] || second.release[i];
            i = i + 1;
        }
        assert(self@ =~= before.set_modes_result(legato, sustain).0);
        assert(release@ =~= before.set_modes_result(legato, sustain).1.release);
        Actions { release, trigger: None }
    }

    /// Finishes one rendered frame: `silent[i]` tells whether slot `i`'s AMP
    /// envelope is idle. Crossfades advance; silent slots whose crossfade is
    /// over become idle.
    pub fn advance_frame(&mut self, silent: &[bool; POLYPHONY])
        requires
            old(self).wf(),
        ensures
            final(self).wf(),
            final(self)@ == old(self)@.frame_result(silent@),
    {
        let ghost before = self@;
        let mut i: usize = 0;
        while i < POLYPHONY
            invariant
                i <= POLYPHONY,
                silent@.len() == POLYPHONY,
                self.slots.len() == POLYPHONY,
                before == old(self)@,
                before.slots.len() == POLYPHONY,
                self.keys == old(self).keys,
                self.legato == old(self).legato,
                self.sustain == old(self).sustain,
                self.transition_frames == old(self).transition_frames,
                forall|j: int|
                    0 <= j < i ==> #[trigger] self.slots@[j] == before.frame_result(silent@).slots[j],
                forall|j: int| i <= j < POLYPHONY ==> #[trigger] self.slots@[j] == before.slots[j],
            decreases POLYPHONY - i,
        {
            let slot = self.slots[i];
            let left = if slot.transition_left > 0 {
                slot.transition_left - 1
            } else {
                0
            };
            if silent[i] && left == 0 {
                self.slots[i] = Slot {
                    note: None,
                    held: false,
                    pedal: false,
                    transition_left: left,
                    ..slot
                };
            } else {
                self.slots[i] = Slot { transition_left: left, ..slot };
            }
            i = i + 1;
        }
        assert(self@ =~= before.frame_result(silent@));
        proof {
            lemma_frame_inv(before, silent@);
        }
    }

    /// The most recently triggered slot that still has a note.
    pub fn telemetry_slot(&self) -> (r: Option<usize>)
        ensures
            as_int(r) == newest_from(self@.slots, SlotFilter::Active, 0),
    {
        find_newest(&self.slots, SlotFilter::Active)
    }

    /// Slots that still have a note: held keys, pedaled keys, release tails
    /// and unfinished trigger crossfades.
    pub fn active_voice_count(&self) -> (n: usize)
        ensures
            n == count_from(self@.slots, SlotFilter::Active, 0),
    {
        count_admitted(&self.slots, SlotFilter::Active)
    }

    pub fn slot(&self, index: usize) -> (s: Slot)
        requires
            self.wf(),
            index < POLYPHONY,
        ensures
            s == self@.slots[index as int],
    {
        self.slots[index]
    }

    pub fn transition_frames(&self) -> (n: usize)
        ensures
            n == self@.transition_frames,
    {
        self.transition_frames
    }

    pub fn legato(&self) -> (b: bool)
        ensures
            b == self@.legato,
    {
        self.legato
    }

    pub fn sustain(&self) -> (b: bool)
        ensures
            b == self@.sustain,
    {
        self.sustain
    }
}

proof fn lemma_all_notes_off_inv(st: PolyState)
    requires
        st.inv(),
    ensures
        st.all_notes_off_result().0.inv(),
{
    let n = st.all_notes_off_result().0.slots;
    assert(PolyState::ranks_permute(n));
}

proof fn lemma_frame_inv(st: PolyState, silent: Seq<bool>)
    requires
        st.inv(),
        silent.len() == POLYPHONY,
    ensures
        st.frame_result(silent).inv(),
{
    let s = st.slots;
    let n = st.frame_result(silent).slots;
    assert(PolyState::ranks_permute(n));
    assert forall|i: int, j: int|
        0 <= i < POLYPHONY && 0 <= j < POLYPHONY && i != j && engaged(#[trigger] n[i]) && engaged(
            #[trigger] n[j],
        ) implies n[i].note != n[j].note by {
        assert(engaged(s[i]) && engaged(s[j]));
    }
}

proof fn lemma_captured(s: Seq<Slot>, r: int)
    requires
        PolyState::ranks_permute(s),
        0 <= r,
        forall|i: int|
            0 <= i < POLYPHONY ==> {
                let sl = #[trigger] s[i];
                &&& sl.held ==> sl.note is Some
                &&& sl.note matches Some(n) ==> n < 128
                &&& sl.velocity <= 127
            },
    ensures
        keys_ok(captured(s, r)),
        forall|j: int|
            0 <= j < POLYPHONY && s[j].held && s[j].rank >= r && (forall|k: int|
                0 <= k < POLYPHONY && #[trigger] s[k].held && s[k].rank >= r ==> s[j].rank
                    <= s[k].rank) ==> captured(s, r).len() > 0 && captured(s, r).last() == (
            s[j].note->0,
            #[trigger] s[j].velocity,
        ),
        (forall|j: int| 0 <= j < POLYPHONY && #[trigger] s[j].held ==> s[j].rank < r) ==> captured(
            s,
            r,
        ).len() == 0,
    decreases POLYPHONY - r,
{
    if r < POLYPHONY {
        lemma_captured(s, r + 1);
        let older = captured(s, r + 1);
        lemma_first_from(s, SlotFilter::HeldRank(r as usize), 0);
        match first_from(s, SlotFilter::HeldRank(r as usize), 0) {
            Some(i) => {
                lemma_push_key(older, s[i].note->0, s[i].velocity);
                assert forall|j: int|
                    0 <= j < POLYPHONY && s[j].held && s[j].rank >= r && (forall|k: int|
                        0 <= k < POLYPHONY && #[trigger] s[k].held && s[k].rank >= r ==> s[j].rank
                            <= s[k].rank) implies captured(s, r).len() > 0 && captured(s, r).last()
                    == (s[j].note->0, #[trigger] s[j].velocity) by {
                    assert(s[j].rank <= s[i].rank);
                    if j != i {
                        assert(s[j].rank != s[i].rank);
                    }
                }
            },
            None => {
                assert forall|j: int|
                    0 <= j < POLYPHONY && s[j].held && s[j].rank >= r && (forall|k: int|
                        0 <= k < POLYPHONY && #[trigger] s[k].held && s[k].rank >= r ==> s[j].rank
                            <= s[k].rank) implies captured(s, r).len() > 0 && captured(s, r).last()
                    == (s[j].note->0, #[trigger] s[j].velocity) by {
                    assert(!SlotFilter::HeldRank(r as usize).admits(s[j]));
                    assert(s[j].rank >= r + 1);
                    assert forall|k: int|
                        0 <= k < POLYPHONY && #[trigger] s[k].held && s[k].rank >= r + 1 implies s[j].rank
                        <= s[k].rank by {}
                }
                assert((forall|j: int| 0 <= j < POLYPHONY && #[trigger] s[j].held ==> s[j].rank < r)
                    ==> (forall|j: int| 0 <= j < POLYPHONY && #[trigger] s[j].held ==> s[j].rank < r
                    + 1));
            },
        }
    } else {
        assert forall|j: int| 0 <= j < POLYPHONY implies #[trigger] s[j].rank < r by {}
    }
}

/// Facts about the state after the legato switch, before the pedal switch.
proof fn lemma_legato_switch(st: PolyState, legato: bool, sustain: bool)
    requires
        st.inv(),
    ensures
        ({
            let mid = st.legato_switch(legato, sustain).0;
            let m = mid.slots;
            &&& PolyState::ranks_permute(m)
            &&& mid.transition_frames == st.transition_frames
            &&& mid.legato == legato
            &&& mid.sustain == sustain
            &&& keys_ok(mid.keys)
            &&& !legato ==> mid.keys.len() == 0
            &&& forall|i: int|
                0 <= i < POLYPHONY ==> {
                    let sl = #[trigger] m[i];
                    &&& sl.note is None ==> !sl.held && !sl.pedal
                    &&& sl.note matches Some(n) ==> n < 128
                    &&& sl.velocity <= 127
                    &&& sl.transition_left <= st.transition_frames
                    &&& !(sl.held && sl.pedal)
                    &&& !st.sustain ==> !sl.pedal
                    &&& legato && sl.held ==> mid.keys.len() > 0 && sl.note == Some(mid.keys.last().0)
                    &&& legato && sl.pedal ==> mid.keys.len() == 0
                    &&& sl.held ==> st.slots[i].held
                }
            &&& forall|i: int, j: int|
                0 <= i < POLYPHONY && 0 <= j < POLYPHONY && i != j && engaged(#[trigger] m[i])
                    && engaged(#[trigger] m[j]) ==> m[i].note != m[j].note
            &&& legato ==> forall|i: int, j: int|
                0 <= i < POLYPHONY && 0 <= j < POLYPHONY && i != j && engaged(#[trigger] m[i])
                    ==> !engaged(#[trigger] m[j])
        }),
{
    let s = st.slots;
    assert(keys_ok(st.keys));
    let switched = PolyState { legato, sustain, ..st };
    if legato && !st.legato {
        lemma_captured(s, 0);
        lemma_newest_from(s, SlotFilter::Held, 0);
        lemma_newest_from(s, SlotFilter::Engaged, 0);
        let mid = switched.capture_result().0;
        let m = mid.slots;
        match st.keep_index() {
            Some(k) => {
                lemma_promoted(
                    Seq::new(
                        s.len(),
                        |i: int|
                            if i != k && engaged(s[i]) {
                                Slot { held: false, pedal: false, ..s[i] }
                            } else {
                                s[i]
                            },
                    ),
                    k,
                );
                assert forall|i: int| 0 <= i < POLYPHONY && i != k implies !engaged(#[trigger] m[i]) by {}
                if s[k].held {
                    assert(newest_from(s, SlotFilter::Held, 0) == Some(k));
                    assert forall|j: int| 0 <= j < POLYPHONY && #[trigger] s[j].held && s[j].rank >= 0 implies s[k].rank
                        <= s[j].rank by {}
                    assert(captured(s, 0).last() == (s[k].note->0, s[k].velocity));
                } else {
                    assert(newest_from(s, SlotFilter::Held, 0) is None);
                    assert(captured(s, 0).len() == 0);
                }
            },
            None => {
                assert(newest_from(s, SlotFilter::Held, 0) is None);
                assert(captured(s, 0).len() == 0);
            },
        }
    }
}

proof fn lemma_set_modes_inv(st: PolyState, legato: bool, sustain: bool)
    requires
        st.inv(),
    ensures
        st.set_modes_result(legato, sustain).0.inv(),
{
    lemma_legato_switch(st, legato, sustain);
    let post = st.set_modes_result(legato, sustain).0;
    let n = post.slots;
    let mid = st.legato_switch(legato, sustain).0;
    let m = mid.slots;
    assert(post.keys == mid.keys);
    assert forall|i: int| 0 <= i < POLYPHONY implies {
        &&& (#[trigger] n[i]).note == m[i].note
        &&& n[i].held == m[i].held
        &&& n[i].rank == m[i].rank
        &&& n[i].velocity == m[i].velocity
        &&& n[i].transition_left == m[i].transition_left
        &&& n[i].pedal ==> m[i].pedal
        &&& !sustain ==> !n[i].pedal
    } by {
        let sl = m[i];
        if st.sustain && !sustain {
            assert(n[i] == (if !sl.held && sl.note is Some {
                Slot { pedal: false, ..sl }
            } else {
                sl
            }));
        } else {
            assert(n[i] == sl);
        }
    }
    assert forall|i: int, j: int|
        0 <= i < POLYPHONY && 0 <= j < POLYPHONY && i != j && engaged(#[trigger] n[i]) && engaged(
            #[trigger] n[j],
        ) implies n[i].note != n[j].note by {
        assert(engaged(m[i]) && engaged(m[j]));
    }
    if legato {
        assert forall|i: int, j: int|
            0 <= i < POLYPHONY && 0 <= j < POLYPHONY && i != j && engaged(#[trigger] n[i]) implies !engaged(
            #[trigger] n[j]) by {
            assert(engaged(m[i]));
            assert(!engaged(m[j]));
        }
    }
    assert(PolyState::ranks_permute(n));
}

/// Key stacks with distinct MIDI notes.
pub open spec fn keys_ok(keys: Seq<(u8, u8)>) -> bool {
    &&& keys.len() <= KEY_COUNT
    &&& forall|k: int| 0 <= k < keys.len() ==> #[trigger] keys[k].0 < 128 && keys[k].1 <= 127
    &&& forall|a: int, b: int|
        0 <= a < keys.len() && 0 <= b < keys.len() && a != b ==> #[trigger] keys[a].0
            != #[trigger] keys[b].0
}

/// A stack of distinct MIDI notes without `note` has room for one more.
proof fn lemma_keys_room(keys: Seq<(u8, u8)>, note: u8)
    requires
        keys_ok(keys),
        note < 128,
        forall|k: int| 0 <= k < keys.len() ==> #[trigger] keys[k].0 != note,
    ensures
        keys.len() < KEY_COUNT,
{
    let ns = Seq::new(keys.len(), |k: int| keys[k].0 as int);
    assert(ns.no_duplicates()) by {
        assert forall|a: int, b: int| 0 <= a < ns.len() && 0 <= b < ns.len() && a != b implies ns[a]
            != ns[b] by {
            assert(keys[a].0 != keys[b].0);
        }
    }
    ns.unique_seq_to_set();
    let range = vstd::set_lib::set_int_range(0, 128).remove(note as int);
    vstd::set_lib::lemma_int_range(0, 128);
    assert(ns.to_set().subset_of(range)) by {
        assert forall|x: int| ns.to_set().contains(x) implies range.contains(x) by {
            let k = choose|k: int| 0 <= k < ns.len() && ns[k] == x;
            assert(keys[k].0 < 128);
            assert(keys[k].0 != note);
        }
    }
    vstd::set_lib::lemma_len_subset(ns.to_set(), range);
}

proof fn lemma_key_index_from(keys: Seq<(u8, u8)>, note: u8, k: int)
    requires
        0 <= k,
    ensures
        key_index_from(keys, note, k) matches Some(i) ==> k <= i < keys.len() && keys[i].0 == note,
        key_index_from(keys, note, k) is None ==> forall|j: int|
            k <= j < keys.len() ==> #[trigger] keys[j].0 != note,
    decreases keys.len() - k,
{
    if k < keys.len() {
        lemma_key_index_from(keys, note, k + 1);
    }
}

proof fn lemma_remove_key(keys: Seq<(u8, u8)>, note: u8)
    requires
        keys_ok(keys),
    ensures
        keys_ok(remove_key(keys, note)),
        forall|k: int|
            0 <= k < remove_key(keys, note).len() ==> #[trigger] remove_key(keys, note)[k].0 != note,
        forall|k: int|
            0 <= k < remove_key(keys, note).len() ==> keys.contains(#[trigger] remove_key(keys, note)[k]),
        remove_key(keys, note).len() <= keys.len(),
        key_index_from(keys, note, 0) is None ==> remove_key(keys, note) == keys,
{
    lemma_key_index_from(keys, note, 0);
    let r = remove_key(keys, note);
    match key_index_from(keys, note, 0) {
        Some(i) => {
            assert forall|k: int| 0 <= k < r.len() implies #[trigger] r[k].0 != note && keys.contains(r[k]) by {
                if k < i {
                    assert(r[k] == keys[k]);
                } else {
                    assert(r[k] == keys[k + 1]);
                }
            }
            assert forall|a: int, b: int| 0 <= a < r.len() && 0 <= b < r.len() && a != b implies #[trigger] r[a].0
                != #[trigger] r[b].0 by {
                let ia = if a < i { a } else { a + 1 };
                let ib = if b < i { b } else { b + 1 };
                assert(r[a] == keys[ia]);
                assert(r[b] == keys[ib]);
            }
            assert forall|k: int| 0 <= k < r.len() implies #[trigger] r[k].0 < 128 && r[k].1 <= 127 by {
                let ik = if k < i { k } else { k + 1 };
                assert(r[k] == keys[ik]);
            }
        },
        None => {
            assert forall|k: int| 0 <= k < r.len() implies keys.contains(#[trigger] r[k]) by {
                assert(r[k] == keys[k]);
            }
        },
    }
}

proof fn lemma_push_key(keys: Seq<(u8, u8)>, note: u8, velocity: u8)
    requires
        keys_ok(keys),
        note < 128,
        velocity <= 127,
    ensures
        keys_ok(push_key(keys, note, velocity)),
        push_key(keys, note, velocity) == remove_key(keys, note).push((note, velocity)),
        push_key(keys, note, velocity).len() > 0,
        push_key(keys, note, velocity).last() == (note, velocity),
{
    lemma_remove_key(keys, note);
    let rest = remove_key(keys, note);
    lemma_keys_room(rest, note);
    let p = rest.push((note, velocity));
    assert forall|a: int, b: int| 0 <= a < p.len() && 0 <= b < p.len() && a != b implies #[trigger] p[a].0
        != #[trigger] p[b].0 by {
        if a < rest.len() && b < rest.len() {
            assert(p[a] == rest[a] && p[b] == rest[b]);
        } else if a < rest.len() {
            assert(p[a] == rest[a]);
        } else {
            assert(p[b] == rest[b]);
        }
    }
    assert forall|k: int| 0 <= k < p.len() implies #[trigger] p[k].0 < 128 && p[k].1 <= 127 by {
        if k < rest.len() {
            assert(p[k] == rest[k]);
        }
    }
}

proof fn lemma_promoted(s: Seq<Slot>, idx: int)
    requires
        PolyState::ranks_permute(s),
        0 <= idx < POLYPHONY,
    ensures
        PolyState::ranks_permute(promoted(s, idx)),
        promoted(s, idx)[idx].rank == 0,
        forall|i: int|
            0 <= i < POLYPHONY ==> {
                let p = #[trigger] promoted(s, idx)[i];
                &&& p.note == s[i].note
                &&& p.held == s[i].held
                &&& p.pedal == s[i].pedal
                &&& p.velocity == s[i].velocity
                &&& p.transition_left == s[i].transition_left
            },
{
    let p = promoted(s, idx);
    assert forall|i: int| 0 <= i < POLYPHONY implies #[trigger] p[i].rank < POLYPHONY by {
        if i != idx && s[i].rank < s[idx].rank {
            assert(s[idx].rank < POLYPHONY);
        }
    }
    assert forall|i: int, j: int|
        0 <= i < POLYPHONY && 0 <= j < POLYPHONY && i != j implies #[trigger] p[i].rank
        != #[trigger] p[j].rank by {
        assert(s[i].rank != s[j].rank);
        if i != idx {
            assert(s[i].rank != s[idx].rank);
        }
        if j != idx {
            assert(s[j].rank != s[idx].rank);
        }
    }
}

proof fn lemma_remove_key_keeps_top(keys: Seq<(u8, u8)>, note: u8)
    requires
        keys_ok(keys),
        keys.len() > 0,
        keys.last().0 != note,
    ensures
        remove_key(keys, note).len() > 0,
        remove_key(keys, note).last() == keys.last(),
{
    lemma_key_index_from(keys, note, 0);
}

proof fn lemma_note_off_inv(st: PolyState, note: u8)
    requires
        st.inv(),
        note < 128,
    ensures
        st.note_off_result(note).0.inv(),
{
    let s = st.slots;
    let keys = st.keys;
    lemma_newest_from(s, SlotFilter::Engaged, 0);
    lemma_first_from(s, SlotFilter::HeldNote(note), 0);
    assert(keys_ok(keys));
    lemma_remove_key(keys, note);
    let rest = remove_key(keys, note);
    let post = st.note_off_result(note).0;
    let n = post.slots;
    if st.legato {
        let was_top = keys.len() > 0 && keys.last().0 == note;
        if was_top && rest.len() > 0 && st.legato_slot() is Some {
            let idx = st.legato_slot()->0;
            lemma_promoted(s, idx);
            assert(!s[idx].pedal);
            assert forall|i: int| 0 <= i < POLYPHONY && i != idx implies !engaged(#[trigger] s[i]) by {
                assert(engaged(s[idx]));
            }
            assert(keys.contains(rest.last()));
            assert forall|i: int, j: int|
                0 <= i < POLYPHONY && 0 <= j < POLYPHONY && i != j && engaged(#[trigger] n[i])
                    && engaged(#[trigger] n[j]) implies n[i].note != n[j].note by {
                if i != idx {
                    assert(!engaged(s[i]));
                } else {
                    assert(!engaged(s[j]));
                }
            }
        } else if was_top && rest.len() == 0 && st.sustain {
            assert forall|i: int, j: int|
                0 <= i < POLYPHONY && 0 <= j < POLYPHONY && i != j && engaged(#[trigger] n[i])
                    implies !engaged(#[trigger] n[j]) by {
                assert(engaged(s[i]));
                assert(!engaged(s[j]));
            }
        } else if !was_top && first_from(s, SlotFilter::HeldNote(note), 0) is None {
            if keys.len() > 0 {
                lemma_remove_key_keeps_top(keys, note);
            }
        } else {
            assert forall|i: int| 0 <= i < POLYPHONY implies !(#[trigger] n[i]).held && (
            n[i].pedal ==> rest.len() == 0) by {
                if s[i].held {
                    assert(s[i].note == Some(keys.last().0));
                }
                if s[i].pedal {
                    assert(keys.len() == 0);
                }
            }
            assert forall|i: int, j: int|
                0 <= i < POLYPHONY && 0 <= j < POLYPHONY && i != j && engaged(#[trigger] n[i])
                    implies !engaged(#[trigger] n[j]) by {
                assert(engaged(s[i]));
            }
            assert forall|i: int, j: int|
                0 <= i < POLYPHONY && 0 <= j < POLYPHONY && i != j && engaged(#[trigger] n[i])
                    && engaged(#[trigger] n[j]) implies n[i].note != n[j].note by {
                assert(engaged(s[i]) && engaged(s[j]));
            }
        }
    } else {
        assert forall|i: int, j: int|
            0 <= i < POLYPHONY && 0 <= j < POLYPHONY && i != j && engaged(#[trigger] n[i]) && engaged(
                #[trigger] n[j],
            ) implies n[i].note != n[j].note by {
            assert(engaged(s[i]) && engaged(s[j]));
        }
    }
}

proof fn lemma_note_on_inv(st: PolyState, note: u8, velocity: u8)
    requires
        st.inv(),
        note < 128,
        1 <= velocity <= 127,
    ensures
        st.note_on_result(note, velocity).0.inv(),
{
    let s = st.slots;
    let idx = st.trigger_index(note);
    lemma_first_from(s, SlotFilter::Sounding(note), 0);
    lemma_newest_from(s, SlotFilter::Engaged, 0);
    lemma_first_from(s, SlotFilter::Idle, 0);
    lemma_oldest_from(s, SlotFilter::Unheld, 0);
    lemma_oldest_from(s, SlotFilter::Any, 0);
    assert(SlotFilter::Any.admits(s[0]));
    assert(0 <= idx < POLYPHONY);
    lemma_promoted(s, idx);
    assert(keys_ok(st.keys));
    if st.legato {
        lemma_push_key(st.keys, note, velocity);
    }
    let post = st.note_on_result(note, velocity).0;
    let n = post.slots;
    // Apart from the triggered slot, no slot is engaged under legato.
    assert forall|i: int| 0 <= i < POLYPHONY && i != idx && st.legato implies !engaged(#[trigger] s[i]) by {
        if engaged(s[i]) {
            match st.repeated(note) {
                Some(r) => {
                    assert(engaged(s[r]));
                },
                None => {
                    let l = st.legato_slot()->0;
                    assert(engaged(s[l]));
                },
            }
        }
    }
    // No other engaged slot plays the triggered note.
    assert forall|i: int| 0 <= i < POLYPHONY && i != idx && engaged(#[trigger] s[i]) implies s[i].note
        != Some(note) by {
        if s[i].note == Some(note) {
            assert(SlotFilter::Sounding(note).admits(s[i]));
            match st.repeated(note) {
                Some(r) => {
                    assert(engaged(s[r]));
                },
                None => {},
            }
        }
    }
    assert forall|i: int, j: int|
        0 <= i < POLYPHONY && 0 <= j < POLYPHONY && i != j && engaged(#[trigger] n[i]) && engaged(
            #[trigger] n[j],
        ) implies n[i].note != n[j].note by {
        if i != idx && j != idx {
            assert(n[i].note == s[i].note && n[j].note == s[j].note);
        }
    }
    assert(PolyState::ranks_permute(n));
}


/// Without a repeated or legato slot, a new note takes an idle slot if there
/// is one; otherwise the oldest slot whose key is up (released or pedaled);
/// otherwise the oldest held slot.
pub proof fn law_allocation_order(st: PolyState, note: u8, velocity: u8)
    requires
        st.inv(),
        note < 128,
        1 <= velocity <= 127,
        st.repeated(note) is None,
        st.legato_held(note) is None,
    ensures
        ({
            let idx = st.note_on_result(note, velocity).1.trigger->0.slot as int;
            let s = st.slots;
            &&& 0 <= idx < POLYPHONY
            &&& (exists|i: int| 0 <= i < POLYPHONY && (#[trigger] s[i]).note is None) ==> s[idx].note is None
            &&& (forall|i: int| 0 <= i < POLYPHONY ==> (#[trigger] s[i]).note is Some) && (exists|i: int|
                0 <= i < POLYPHONY && !(#[trigger] s[i]).held) ==> !s[idx].held && forall|j: int|
                0 <= j < POLYPHONY && !(#[trigger] s[j]).held ==> s[j].rank <= s[idx].rank
            &&& (forall|i: int| 0 <= i < POLYPHONY ==> (#[trigger] s[i]).held) ==> s[idx].rank
                == POLYPHONY - 1
        }),
{
    let s = st.slots;
    lemma_first_from(s, SlotFilter::Idle, 0);
    lemma_oldest_from(s, SlotFilter::Unheld, 0);
    lemma_oldest_from(s, SlotFilter::Any, 0);
    assert(SlotFilter::Any.admits(s[0]));
    let idx = st.steal_index();
    if forall|i: int| 0 <= i < POLYPHONY ==> (#[trigger] s[i]).held {
        assert(s[0].note is Some);
        // The oldest of eight distinct ranks below eight is seven.
        let ranks = Seq::new(POLYPHONY as nat, |i: int| s[i].rank as int);
        assert(ranks.no_duplicates());
        ranks.unique_seq_to_set();
        let below = vstd::set_lib::set_int_range(0, s[idx].rank + 1);
        vstd::set_lib::lemma_int_range(0, s[idx].rank + 1);
        assert(ranks.to_set().subset_of(below)) by {
            assert forall|x: int| ranks.to_set().contains(x) implies below.contains(x) by {
                let k = choose|k: int| 0 <= k < ranks.len() && ranks[k] == x;
                assert(SlotFilter::Any.admits(s[k]));
            }
        }
        vstd::set_lib::lemma_len_subset(ranks.to_set(), below);
    }
}

/// A note-on for a note already held or pedaled retriggers that slot,
/// without clearing it; afterwards exactly one held or pedaled slot plays the
/// note.
pub proof fn law_repeated_note_retriggers_its_slot(st: PolyState, note: u8, velocity: u8)
    requires
        st.inv(),
        note < 128,
        1 <= velocity <= 127,
    ensures
        ({
            let (post, effect) = st.note_on_result(note, velocity);
            let idx = effect.trigger->0.slot as int;
            &&& (exists|i: int|
                0 <= i < POLYPHONY && SlotFilter::Sounding(note).admits(#[trigger] st.slots[i]))
                ==> SlotFilter::Sounding(note).admits(st.slots[idx]) && !effect.trigger->0.reset_note
            &&& post.slots[idx].note == Some(note) && post.slots[idx].held
            &&& forall|j: int|
                0 <= j < POLYPHONY && engaged(#[trigger] post.slots[j]) && post.slots[j].note == Some(
                    note,
                ) ==> j == idx
        }),
{
    lemma_note_on_inv(st, note, velocity);
    lemma_first_from(st.slots, SlotFilter::Sounding(note), 0);
    lemma_first_from(st.slots, SlotFilter::Idle, 0);
    lemma_oldest_from(st.slots, SlotFilter::Unheld, 0);
    lemma_oldest_from(st.slots, SlotFilter::Any, 0);
    lemma_newest_from(st.slots, SlotFilter::Engaged, 0);
    assert(SlotFilter::Any.admits(st.slots[0]));
}

/// The triggered slot becomes the most recently triggered one, and telemetry
/// follows it.
pub proof fn law_trigger_is_newest(st: PolyState, note: u8, velocity: u8)
    requires
        st.inv(),
        note < 128,
        1 <= velocity <= 127,
    ensures
        ({
            let (post, effect) = st.note_on_result(note, velocity);
            let idx = effect.trigger->0.slot as int;
            &&& post.slots[idx].rank == 0
            &&& newest_from(post.slots, SlotFilter::Active, 0) == Some(idx)
        }),
{
    lemma_note_on_inv(st, note, velocity);
    lemma_first_from(st.slots, SlotFilter::Sounding(note), 0);
    lemma_first_from(st.slots, SlotFilter::Idle, 0);
    lemma_oldest_from(st.slots, SlotFilter::Unheld, 0);
    lemma_oldest_from(st.slots, SlotFilter::Any, 0);
    lemma_newest_from(st.slots, SlotFilter::Engaged, 0);
    assert(SlotFilter::Any.admits(st.slots[0]));
    let (post, effect) = st.note_on_result(note, velocity);
    let idx = effect.trigger->0.slot as int;
    lemma_newest_from(post.slots, SlotFilter::Active, 0);
    assert(SlotFilter::Active.admits(post.slots[idx]));
    let w = newest_from(post.slots, SlotFilter::Active, 0)->0;
    if w != idx {
        assert(post.slots[w].rank != post.slots[idx].rank);
    }
}

/// Without legato, releasing a note touches only the slots playing that
/// note: a stolen note's late release never reaches its replacement.
pub proof fn law_note_off_only_touches_its_note(st: PolyState, note: u8)
    requires
        st.inv(),
        !st.legato,
        note < 128,
    ensures
        ({
            let (post, effect) = st.note_off_result(note);
            forall|i: int|
                0 <= i < POLYPHONY && (#[trigger] st.slots[i]).note != Some(note) ==> post.slots[i]
                    == st.slots[i] && !effect.release[i]
        }),
{
}

/// With the pedal down (and legato off), a note-off releases nothing: the
/// slots holding the note keep sounding, kept by the pedal.
pub proof fn law_sustain_defers_release(st: PolyState, note: u8)
    requires
        st.inv(),
        !st.legato,
        st.sustain,
        note < 128,
    ensures
        ({
            let (post, effect) = st.note_off_result(note);
            &&& effect.trigger is None
            &&& forall|i: int| 0 <= i < POLYPHONY ==> !#[trigger] effect.release[i]
            &&& forall|i: int|
                0 <= i < POLYPHONY && (#[trigger] st.slots[i]).held && st.slots[i].note == Some(note)
                    ==> post.slots[i].pedal && post.slots[i].note == Some(note)
        }),
{
}

/// Lifting the pedal releases exactly the slots whose key is up and that
/// still have a note; afterwards no slot is kept by the pedal.
pub proof fn law_lifting_pedal_releases_unheld(st: PolyState)
    requires
        st.inv(),
        st.sustain,
    ensures
        ({
            let (post, effect) = st.set_modes_result(st.legato, false);
            &&& forall|i: int|
                0 <= i < POLYPHONY ==> #[trigger] effect.release[i] == (!st.slots[i].held
                    && st.slots[i].note is Some)
            &&& forall|i: int| 0 <= i < POLYPHONY ==> !(#[trigger] post.slots[i]).pedal
        }),
{
    lemma_set_modes_inv(st, st.legato, false);
}

/// All-notes-off releases every slot, despite the pedal, and forgets the
/// legato key stack.
pub proof fn law_all_notes_off_releases_everything(st: PolyState)
    requires
        st.inv(),
    ensures
        ({
            let (post, effect) = st.all_notes_off_result();
            &&& forall|i: int| 0 <= i < POLYPHONY ==> #[trigger] effect.release[i]
            &&& forall|i: int| 0 <= i < POLYPHONY ==> !engaged(#[trigger] post.slots[i])
            &&& post.keys.len() == 0
        }),
{
}

/// Under legato, a new key reuses the held or pedaled slot instead of
/// taking another one, and does not clear it.
pub proof fn law_legato_reuses_engaged_slot(st: PolyState, note: u8, velocity: u8)
    requires
        st.inv(),
        st.legato,
        note < 128,
        1 <= velocity <= 127,
        exists|i: int| 0 <= i < POLYPHONY && engaged(#[trigger] st.slots[i]),
    ensures
        ({
            let effect = st.note_on_result(note, velocity).1;
            &&& engaged(st.slots[effect.trigger->0.slot as int])
            &&& !effect.trigger->0.reset_note
        }),
{
    lemma_first_from(st.slots, SlotFilter::Sounding(note), 0);
    lemma_newest_from(st.slots, SlotFilter::Engaged, 0);
}

/// Under legato, releasing the sounding key retunes the voice to the
/// previous still-held key (last-note priority), with that key's velocity,
/// without releasing or clearing the voice.
pub proof fn law_legato_last_note_priority(st: PolyState)
    requires
        st.inv(),
        st.legato,
        st.keys.len() >= 2,
        exists|i: int| 0 <= i < POLYPHONY && engaged(#[trigger] st.slots[i]),
    ensures
        ({
            let top = st.keys.last();
            let previous = st.keys[st.keys.len() - 2];
            let (post, effect) = st.note_off_result(top.0);
            &&& effect.trigger matches Some(t) && t.note == previous.0 && t.velocity == previous.1
                && !t.reset_note && engaged(st.slots[t.slot as int])
            &&& forall|i: int| 0 <= i < POLYPHONY ==> !#[trigger] effect.release[i]
            &&& post.keys == st.keys.drop_last()
        }),
{
    let keys = st.keys;
    let top = keys.last();
    lemma_newest_from(st.slots, SlotFilter::Engaged, 0);
    lemma_key_index_from(keys, top.0, 0);
    let i = key_index_from(keys, top.0, 0)->0;
    assert(i == keys.len() - 1) by {
        if i != keys.len() - 1 {
            assert(keys[i].0 != keys[keys.len() - 1].0);
        }
    }
    assert(remove_key(keys, top.0) =~= keys.drop_last());
}

/// Under legato, releasing a key that is not sounding only forgets it.
pub proof fn law_legato_forgets_silent_key(st: PolyState, note: u8)
    requires
        st.inv(),
        st.legato,
        note < 128,
        !(st.keys.len() > 0 && st.keys.last().0 == note),
    ensures
        ({
            let (post, effect) = st.note_off_result(note);
            &&& post.slots == st.slots
            &&& post.keys == remove_key(st.keys, note)
            &&& effect.trigger is None
            &&& forall|i: int| 0 <= i < POLYPHONY ==> !#[trigger] effect.release[i]
        }),
{
    lemma_first_from(st.slots, SlotFilter::HeldNote(note), 0);
    match first_from(st.slots, SlotFilter::HeldNote(note), 0) {
        Some(i) => {
            assert(st.slots[i].held);
        },
        None => {},
    }
}

/// Under legato, a note-off takes exactly that key's entry off the key
/// stack and keeps every other key, in order, for last-note priority; a key
/// that is not on the stack leaves it as it was.
pub proof fn law_legato_note_off_removes_only_its_key(st: PolyState, note: u8, i: int)
    requires
        st.inv(),
        st.legato,
    ensures
        0 <= i < st.keys.len() && st.keys[i].0 == note ==> st.note_off_result(note).0.keys
            == st.keys.remove(i),
        (forall|j: int| 0 <= j < st.keys.len() ==> st.keys[j].0 != note)
            ==> st.note_off_result(note).0.keys == st.keys,
{
    let keys = st.keys;
    lemma_key_index_from(keys, note, 0);
    if 0 <= i < keys.len() && keys[i].0 == note {
        match key_index_from(keys, note, 0) {
            Some(j) => {
                if j != i {
                    assert(keys[j].0 != keys[i].0);
                }
            },
            None => {
                assert(keys[i].0 != note);
            },
        }
    }
}

/// Enabling legato leaves at most one held or pedaled slot, keeps a held
/// slot over a pedaled one, and stacks the held keys so that the kept slot's
/// key is on top.
pub proof fn law_enabling_legato_keeps_one_voice(st: PolyState, sustain: bool)
    requires
        st.inv(),
        !st.legato,
    ensures
        ({
            let (post, effect) = st.set_modes_result(true, sustain);
            &&& forall|i: int, j: int|
                0 <= i < POLYPHONY && 0 <= j < POLYPHONY && i != j && engaged(#[trigger] post.slots[i])
                    ==> !engaged(#[trigger] post.slots[j])
            &&& (exists|i: int| 0 <= i < POLYPHONY && (#[trigger] st.slots[i]).held) ==> exists|k: int|
                0 <= k < POLYPHONY && (#[trigger] post.slots[k]).held && post.keys.len() > 0
                    && post.slots[k].note == Some(post.keys.last().0)
            &&& post.keys == captured(st.slots, 0)
        }),
{
    lemma_set_modes_inv(st, true, sustain);
    lemma_legato_switch(st, true, sustain);
    let s = st.slots;
    lemma_newest_from(s, SlotFilter::Held, 0);
    let (post, effect) = st.set_modes_result(true, sustain);
    if exists|i: int| 0 <= i < POLYPHONY && (#[trigger] s[i]).held {
        let k = newest_from(s, SlotFilter::Held, 0)->0;
        lemma_promoted(
            Seq::new(
                s.len(),
                |i: int|
                    if i != k && engaged(s[i]) {
                        Slot { held: false, pedal: false, ..s[i] }
                    } else {
                        s[i]
                    },
            ),
            k,
        );
        assert(post.slots[k].held);
    }
}

/// The number of sounding voices never exceeds the polyphony.
pub proof fn law_voice_count_bounded(s: Seq<Slot>, f: SlotFilter, k: int)
    requires
        0 <= k <= s.len(),
    ensures
        count_from(s, f, k) <= s.len() - k,
    decreases s.len() - k,
{
    if k < s.len() {
        law_voice_count_bounded(s, f, k + 1);
    }
}


/// A slot becomes idle only when its voice is silent and its trigger
/// crossfade has finished; release tails and unfinished fades stay active.
pub proof fn law_slot_frees_only_when_silent_and_faded(st: PolyState, silent: Seq<bool>)
    requires
        st.inv(),
        silent.len() == POLYPHONY,
    ensures
        forall|i: int|
            0 <= i < POLYPHONY && (#[trigger] st.slots[i]).note is Some && st.frame_result(
                silent,
            ).slots[i].note is None ==> silent[i] && st.slots[i].transition_left <= 1,
        forall|i: int|
            0 <= i < POLYPHONY ==> (#[trigger] st.frame_result(silent).slots[i]).transition_left
                == (if st.slots[i].transition_left > 0 {
                st.slots[i].transition_left - 1
            } else {
                0
            }),
{
}

/// Telemetry follows the most recently triggered slot that still has a
/// note; there is none exactly when no voice is active.
pub proof fn law_telemetry_follows_newest_active(s: Seq<Slot>)
    ensures
        newest_from(s, SlotFilter::Active, 0) matches Some(i) ==> 0 <= i < s.len() && s[i].note is Some
            && forall|j: int| 0 <= j < s.len() && (#[trigger] s[j]).note is Some ==> s[i].rank <= s[j].rank,
        newest_from(s, SlotFilter::Active, 0) is None <==> count_from(s, SlotFilter::Active, 0) == 0,
{
    lemma_newest_from(s, SlotFilter::Active, 0);
    lemma_count_zero(s, SlotFilter::Active, 0);
}

proof fn lemma_count_zero(s: Seq<Slot>, f: SlotFilter, k: int)
    requires
        0 <= k,
    ensures
        count_from(s, f, k) == 0 <==> forall|j: int| k <= j < s.len() ==> !f.admits(#[trigger] s[j]),
    decreases s.len() - k,
{
    if k < s.len() {
        lemma_count_zero(s, f, k + 1);
    }
}

} // verus!

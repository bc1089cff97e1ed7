//! The plain time queue: frames stored under their presentation time, without
//! channels.

use vstd::prelude::*;
use crate::frame::gen::partition::{lemma_filter_keeps_prefix, lemma_filter_keeps_suffix};
use crate::frame::gen::FrameGenerator;
use crate::frame::{Frame, FrameView};

verus! {

/// What the queue holds for one submission.
pub struct TimedEntry {
    /// The presentation time, in microseconds since the Unix epoch.
    pub unix_micros: u128,
    /// The frame to present.
    pub frame: FrameView,
}

/// The entries that are due at `now`.
#[verifier::opaque]
pub open spec fn due(entries: Seq<TimedEntry>, now: u128) -> Seq<TimedEntry> {
    entries.filter(|e: TimedEntry| e.unix_micros <= now)
}

/// The entries that are still in the future at `now`.
#[verifier::opaque]
pub open spec fn pending(entries: Seq<TimedEntry>, now: u128) -> Seq<TimedEntry> {
    entries.filter(|e: TimedEntry| e.unix_micros > now)
}

/// The entries that stay when room is made for one more: all of them below
/// capacity, else the `capacity - 1` earliest.
pub open spec fn evicted(entries: Seq<TimedEntry>, capacity: nat) -> Seq<TimedEntry> {
    if entries.len() >= capacity {
        entries.take(capacity - 1)
    } else {
        entries
    }
}

/// The entries after `new` has been submitted: it stands behind the entries
/// that are due no later, so that of two frames for one time the one
/// submitted later is presented later.
pub open spec fn inserted(entries: Seq<TimedEntry>, new: TimedEntry) -> Seq<TimedEntry> {
    due(entries, new.unix_micros) + seq![new] + pending(entries, new.unix_micros)
}

/// Whether the times of `entries` never descend.
#[verifier::opaque]
pub open spec fn ascending(entries: Seq<TimedEntry>) -> bool {
    forall|i: int, j: int|
        0 <= i < j < entries.len() ==> entries[i].unix_micros <= entries[j].unix_micros
}

/// Whether index `cut` parts `entries` behind `now`: the entries before it are
/// due at `now`, the others are not.
#[verifier::opaque]
pub open spec fn parts_behind(entries: Seq<TimedEntry>, now: u128, cut: int) -> bool {
    &&& 0 <= cut <= entries.len()
    &&& forall|j: int| 0 <= j < cut ==> (#[trigger] entries[j]).unix_micros <= now
    &&& forall|j: int| cut <= j < entries.len() ==> (#[trigger] entries[j]).unix_micros > now
}

/// What the queue is: its entries in time order and its bound.
pub struct TimeQueueView {
    /// The stored entries, earliest first.
    pub entries: Seq<TimedEntry>,
    /// The most entries that the queue holds.
    pub capacity: nat,
}

impl TimeQueueView {
    /// The entries are in time order and within capacity.
    pub open spec fn wf(self) -> bool {
        &&& ascending(self.entries)
        &&& 0 < self.capacity
        &&& self.entries.len() <= self.capacity
    }

    /// The queue after `new` has been submitted.
    pub open spec fn add(self, new: TimedEntry) -> TimeQueueView {
        TimeQueueView { entries: inserted(evicted(self.entries, self.capacity), new), ..self }
    }

    /// The frame that a query at `now` answers: that of the latest entry that
    /// is due.
    pub open spec fn served(self, now: u128) -> Option<FrameView> {
        if due(self.entries, now).len() > 0 {
            Some(due(self.entries, now).last().frame)
        } else {
            None
        }
    }

    /// The queue after a query at `now`: the due entries are consumed.
    pub open spec fn after_query(self, now: u128) -> TimeQueueView {
        TimeQueueView { entries: pending(self.entries, now), ..self }
    }
}

/// Entries in time order are parted behind every instant.
pub proof fn lemma_parted_somewhere(entries: Seq<TimedEntry>, now: u128)
    requires
        ascending(entries),
    ensures
        exists|cut: int| parts_behind(entries, now, cut),
    decreases entries.len(),
{
    reveal(ascending);
    reveal(parts_behind);
    if entries.len() == 0 {
        assert(parts_behind(entries, now, 0));
    } else if entries.last().unix_micros <= now {
        assert forall|j: int| 0 <= j < entries.len() implies (#[trigger] entries[j]).unix_micros
            <= now by {
            if j < entries.len() - 1 {
                assert(entries[j].unix_micros <= entries[entries.len() - 1].unix_micros);
            }
        }
        assert(parts_behind(entries, now, entries.len() as int));
    } else {
        let front = entries.drop_last();
        assert(ascending(front)) by {
            assert forall|i: int, j: int| 0 <= i < j < front.len() implies front[i].unix_micros
                <= front[j].unix_micros by {
                assert(front[i] == entries[i] && front[j] == entries[j]);
            }
        }
        lemma_parted_somewhere(front, now);
        let cut = choose|cut: int| parts_behind(front, now, cut);
        assert forall|j: int| 0 <= j < cut implies (#[trigger] entries[j]).unix_micros <= now by {
            assert(front[j] == entries[j]);
        }
        assert forall|j: int| cut <= j < entries.len() implies (#[trigger] entries[j]).unix_micros
            > now by {
            if j < front.len() {
                assert(front[j] == entries[j]);
            }
        }
        assert(parts_behind(entries, now, cut));
    }
}

/// Where `cut` parts the entries behind `now`, the due entries are those
/// before `cut`, and the pending ones are the others.
pub proof fn lemma_due_is_prefix(entries: Seq<TimedEntry>, now: u128, cut: int)
    requires
        parts_behind(entries, now, cut),
    ensures
        0 <= cut <= entries.len(),
        due(entries, now) == entries.take(cut),
        pending(entries, now) == entries.skip(cut),
{
    reveal(parts_behind);
    reveal(due);
    reveal(pending);
    let is_due = |e: TimedEntry| e.unix_micros <= now;
    let is_pending = |e: TimedEntry| e.unix_micros > now;
    assert forall|j: int| 0 <= j < cut implies is_due(#[trigger] entries[j]) by {}
    assert forall|j: int| cut <= j < entries.len() implies !is_due(#[trigger] entries[j]) by {}
    assert forall|j: int| 0 <= j < cut implies !is_pending(#[trigger] entries[j]) by {}
    assert forall|j: int| cut <= j < entries.len() implies is_pending(#[trigger] entries[j]) by {}
    lemma_filter_keeps_prefix(entries, is_due, cut);
    lemma_filter_keeps_suffix(entries, is_pending, cut);
}

/// Submitting to entries in time order puts the new entry in where `cut`
/// parts them behind its time, and leaves them in time order.
pub proof fn lemma_inserted_in_order(entries: Seq<TimedEntry>, new: TimedEntry, cut: int)
    requires
        ascending(entries),
        parts_behind(entries, new.unix_micros, cut),
    ensures
        0 <= cut <= entries.len(),
        inserted(entries, new) == entries.insert(cut, new),
        ascending(inserted(entries, new)),
{
    lemma_due_is_prefix(entries, new.unix_micros, cut);
    let result = entries.insert(cut, new);
    assert(result =~= entries.take(cut) + seq![new] + entries.skip(cut));
    reveal(ascending);
    reveal(parts_behind);
    assert forall|i: int, j: int| 0 <= i < j < result.len() implies result[i].unix_micros
        <= result[j].unix_micros by {
        let a = if i < cut { i } else { i - 1 };
        let b = if j < cut { j } else { j - 1 };
        if i != cut && j != cut {
            assert(result[i] == entries[a] && result[j] == entries[b]);
            if a < b {
                assert(entries[a].unix_micros <= entries[b].unix_micros);
            }
        } else if i == cut {
            assert(result[j] == entries[b]);
        } else {
            assert(result[i] == entries[a]);
        }
    }
}

/// Submitting an entry keeps a well-formed queue well-formed and within its
/// capacity.
pub proof fn lemma_add_keeps_wf(queue: TimeQueueView, new: TimedEntry)
    requires
        queue.wf(),
    ensures
        queue.add(new).wf(),
        queue.add(new).entries.len() <= queue.capacity,
{
    let kept = evicted(queue.entries, queue.capacity);
    assert(ascending(kept)) by {
        reveal(ascending);
    }
    lemma_parted_somewhere(kept, new.unix_micros);
    let cut = choose|cut: int| parts_behind(kept, new.unix_micros, cut);
    lemma_inserted_in_order(kept, new, cut);
}

/// A query keeps a well-formed queue well-formed, and the entry whose frame
/// it answers is a stored one that is due.
pub proof fn lemma_query_keeps_wf(queue: TimeQueueView, now: u128)
    requires
        queue.wf(),
    ensures
        queue.after_query(now).wf(),
        queue.served(now) matches Some(frame) ==> exists|i: int|
            0 <= i < queue.entries.len() && (#[trigger] queue.entries[i]).frame == frame
                && queue.entries[i].unix_micros <= now,
{
    lemma_parted_somewhere(queue.entries, now);
    let cut = choose|cut: int| parts_behind(queue.entries, now, cut);
    lemma_due_is_prefix(queue.entries, now, cut);
    assert(ascending(queue.after_query(now).entries)) by {
        reveal(ascending);
    }
    if cut > 0 {
        reveal(parts_behind);
        assert(queue.entries.take(cut).last() == queue.entries[cut - 1]);
    }
}

/// A frame with the time it was submitted for.
pub struct TimedFrame {
    unix_micros: u128,
    frame: Frame,
}

impl View for TimedFrame {
    type V = TimedEntry;

    closed spec fn view(&self) -> TimedEntry {
        TimedEntry { unix_micros: self.unix_micros, frame: self.frame@ }
    }
}

/// What a vector of stored frames holds.
spec fn entries_of(frames: Seq<TimedFrame>) -> Seq<TimedEntry> {
    frames.map_values(|f: TimedFrame| f@)
}

/// A bounded reservoir of future frames that answers, at each instant, the
/// latest frame that is due.
pub struct TimeQueuedFrameGenerator {
    frames: Vec<TimedFrame>,
    buffer_size: usize,
}

impl View for TimeQueuedFrameGenerator {
    type V = TimeQueueView;

    closed spec fn view(&self) -> TimeQueueView {
        TimeQueueView { entries: entries_of(self.frames@), capacity: self.buffer_size as nat }
    }
}

impl TimeQueuedFrameGenerator {
    /// The queue is well-formed.
    pub open spec fn wf(&self) -> bool {
        self@.wf()
    }

    /// An empty queue that holds at most `buffer_size` entries.
    pub fn new(buffer_size: usize) -> (queue: Self)
        requires
            buffer_size > 0,
        ensures
            queue.wf(),
            queue@ == (TimeQueueView { entries: Seq::empty(), capacity: buffer_size as nat }),
    {
        let queue = Self { frames: Vec::new(), buffer_size };
        assert(queue@.entries =~= Seq::empty());
        assert(ascending(queue@.entries)) by {
            reveal(ascending);
        }
        queue
    }

    /// The number of stored entries.
    pub fn len(&self) -> (n: usize)
        ensures
            n == self@.entries.len(),
    {
        self.frames.len()
    }

    /// Submits `frame` for `unix_micros`.
    ///
    /// A full queue first gives up its latest entries until one place is free.
    /// Then the frame is stored behind every frame that is due no later.
    pub fn add_frame(&mut self, unix_micros: u128, frame: Frame)
        requires
            old(self).wf(),
        ensures
            final(self).wf(),
            final(self)@ == old(self)@.add(TimedEntry { unix_micros, frame: frame@ }),
            final(self)@.entries.len() <= final(self)@.capacity,
    {
        let ghost new = TimedEntry { unix_micros, frame: frame@ };
        let ghost before = self@;
        if self.frames.len() >= self.buffer_size {
            self.frames.truncate(self.buffer_size - 1);
        }
        let ghost kept = entries_of(self.frames@);
        assert(kept =~= evicted(before.entries, before.capacity));
        assert(ascending(kept)) by {
            reveal(ascending);
        }
        let mut position = self.frames.len();
        while position > 0 && self.frames[position - 1].unix_micros > unix_micros
            invariant
                position <= self.frames.len(),
                kept == entries_of(self.frames@),
                forall|j: int|
                    position <= j < kept.len() ==> (#[trigger] kept[j]).unix_micros > unix_micros,
            decreases position,
        {
            position = position - 1;
        }
        proof {
            assert(parts_behind(kept, unix_micros, position as int)) by {
                reveal(ascending);
                reveal(parts_behind);
                assert forall|j: int| 0 <= j < position implies (#[trigger] kept[j]).unix_micros
                    <= unix_micros by {
                    assert(kept[position - 1].unix_micros <= unix_micros);
                    if j < position - 1 {
                        assert(kept[j].unix_micros <= kept[position - 1].unix_micros);
                    }
                }
            }
            lemma_inserted_in_order(kept, new, position as int);
        }
        self.frames.insert(position, TimedFrame { unix_micros, frame });
        assert(entries_of(self.frames@) =~= kept.insert(position as int, new));
    }
}

impl FrameGenerator for TimeQueuedFrameGenerator {
    open spec fn inv(&self) -> bool {
        self.wf()
    }

    /// A query consumes the entries that are due and answers the frame of the
    /// latest of them.
    open spec fn answers(
        &self,
        unix_micros: u128,
        next: &Self,
        frame: Option<FrameView>,
    ) -> bool {
        next@ == self@.after_query(unix_micros) && frame == self@.served(unix_micros)
    }

    /// The frame that is due at `unix_micros`: the latest stored frame for a
    /// time up to then. Every frame that is due is consumed.
    fn generate(&mut self, unix_micros: u128) -> (frame: Option<Frame>) {
        let ghost before = self@;
        let ghost entries = before.entries;
        let total = self.frames.len();
        let mut count: usize = 0;
        while count < total && self.frames[count].unix_micros <= unix_micros
            invariant
                count <= total,
                total == self.frames.len(),
                entries == entries_of(self.frames@),
                forall|j: int|
                    0 <= j < count ==> (#[trigger] entries[j]).unix_micros <= unix_micros,
            decreases total - count,
        {
            count = count + 1;
        }
        proof {
            assert(parts_behind(entries, unix_micros, count as int)) by {
                reveal(ascending);
                reveal(parts_behind);
                assert forall|j: int| count <= j < entries.len() implies (
                #[trigger] entries[j]).unix_micros > unix_micros by {
                    if j > count {
                        assert(entries[count as int].unix_micros <= entries[j].unix_micros);
                    }
                }
            }
            lemma_due_is_prefix(entries, unix_micros, count as int);
            lemma_query_keeps_wf(before, unix_micros);
        }
        let rest = self.frames.split_off(count);
        assert(entries_of(rest@) =~= entries.skip(count as int));
        assert(entries_of(self.frames@) =~= entries.take(count as int));
        let frame = match self.frames.pop() {
            Some(entry) => {
                let frame = entry.frame;
                let _ = frame.dimensions();
                Some(frame)
            },
            None => None,
        };
        self.frames = rest;
        frame
    }
}

} // verus!

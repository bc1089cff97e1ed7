//! The channel-prioritised time queue.
//!
//! Producers submit frames for a presentation time on a priority channel. A
//! query at an instant consumes every frame that is due by then and answers
//! the latest of them that no frame of a higher channel shadows.

use vstd::prelude::*;
use crate::frame::gen::partition::{
    lemma_filter_keeps_none,
    lemma_filter_keeps_one,
    lemma_filter_keeps_prefix,
    lemma_filter_keeps_suffix,
};
use crate::frame::gen::{frame_view, FrameGenerator};
use crate::frame::{Frame, FrameView};

verus! {

/// What the queue holds for one presentation time.
pub struct QueuedEntry {
    /// The producer's priority: a higher channel shadows a lower one.
    pub channel: i8,
    /// The presentation time, in microseconds since the Unix epoch.
    pub unix_micros: u128,
    /// The frame to present.
    pub frame: FrameView,
}

/// The end of the window that opens at `start` and lasts `idle_window`
/// microseconds, held at the largest instant there is.
pub open spec fn window_end(start: u128, idle_window: u128) -> int {
    if start + idle_window > u128::MAX {
        u128::MAX as int
    } else {
        start + idle_window
    }
}

/// Whether a frame of `channel` served or accepted for `unix_micros` shadows
/// `entry`: its channel is higher, and `entry` is due before its window ends.
pub open spec fn shadows(
    channel: i8,
    unix_micros: u128,
    idle_window: u128,
    entry: QueuedEntry,
) -> bool {
    channel > entry.channel && window_end(unix_micros, idle_window) > entry.unix_micros
}

/// Whether the frame that was served last shadows `entry`.
pub open spec fn shadowed_by_served(
    last_served: Option<(i8, u128)>,
    idle_window: u128,
    entry: QueuedEntry,
) -> bool {
    last_served matches Some(served) && shadows(served.0, served.1, idle_window, entry)
}

/// Whether the candidate that a pass has accepted so far shadows `entry`.
pub open spec fn shadowed_by_candidate(
    accepted: Option<QueuedEntry>,
    idle_window: u128,
    entry: QueuedEntry,
) -> bool {
    accepted matches Some(earlier) && shadows(
        earlier.channel,
        earlier.unix_micros,
        idle_window,
        entry,
    )
}

/// The candidate that stands after a pass over `due` in time order: each entry
/// replaces the candidate unless the frame served last, or the candidate
/// itself, shadows it.
pub open spec fn candidate(
    due: Seq<QueuedEntry>,
    last_served: Option<(i8, u128)>,
    idle_window: u128,
) -> Option<QueuedEntry>
    decreases due.len(),
{
    if due.len() == 0 {
        None
    } else {
        let accepted = candidate(due.drop_last(), last_served, idle_window);
        let entry = due.last();
        if shadowed_by_served(last_served, idle_window, entry) || shadowed_by_candidate(
            accepted,
            idle_window,
            entry,
        ) {
            accepted
        } else {
            Some(entry)
        }
    }
}

/// The entries that are due at `now`.
#[verifier::opaque]
pub open spec fn due(entries: Seq<QueuedEntry>, now: u128) -> Seq<QueuedEntry> {
    entries.filter(|e: QueuedEntry| e.unix_micros <= now)
}

/// The entries that are still in the future at `now`.
#[verifier::opaque]
pub open spec fn pending(entries: Seq<QueuedEntry>, now: u128) -> Seq<QueuedEntry> {
    entries.filter(|e: QueuedEntry| e.unix_micros > now)
}

/// The entries for a time before `unix_micros`.
#[verifier::opaque]
pub open spec fn earlier(entries: Seq<QueuedEntry>, unix_micros: u128) -> Seq<QueuedEntry> {
    entries.filter(|e: QueuedEntry| e.unix_micros < unix_micros)
}

/// The entries that stay when room is made for one more: all of them below
/// capacity, else the `capacity - 1` earliest.
pub open spec fn evicted(entries: Seq<QueuedEntry>, capacity: nat) -> Seq<QueuedEntry> {
    if entries.len() >= capacity {
        entries.take(capacity - 1)
    } else {
        entries
    }
}

/// The entry stored for `unix_micros`, if there is one.
#[verifier::opaque]
pub open spec fn holder(entries: Seq<QueuedEntry>, unix_micros: u128) -> Option<QueuedEntry> {
    let same = entries.filter(|e: QueuedEntry| e.unix_micros == unix_micros);
    if same.len() > 0 {
        Some(same[0])
    } else {
        None
    }
}

/// The entry that holds the time of `new` once `new` has been submitted: the
/// one stored there if its channel is higher, else `new`.
pub open spec fn winner(entries: Seq<QueuedEntry>, new: QueuedEntry) -> QueuedEntry {
    match holder(entries, new.unix_micros) {
        Some(stored) if stored.channel > new.channel => stored,
        _ => new,
    }
}

/// The entries after `new` has been submitted: the earlier ones, the winner at
/// the time of `new`, the later ones.
pub open spec fn inserted(entries: Seq<QueuedEntry>, new: QueuedEntry) -> Seq<QueuedEntry> {
    earlier(entries, new.unix_micros) + seq![winner(entries, new)] + pending(
        entries,
        new.unix_micros,
    )
}

/// Whether `entry` supersedes a frame of `channel` for `unix_micros`: it is
/// due no later, its channel is higher, and its window reaches `unix_micros`.
pub open spec fn supersedes(
    entry: QueuedEntry,
    idle_window: u128,
    channel: i8,
    unix_micros: u128,
) -> bool {
    &&& entry.unix_micros <= unix_micros
    &&& entry.channel > channel
    &&& window_end(entry.unix_micros, idle_window) >= unix_micros
}

/// Whether the times of `entries` strictly ascend.
#[verifier::opaque]
pub open spec fn ascending(entries: Seq<QueuedEntry>) -> bool {
    forall|i: int, j: int|
        0 <= i < j < entries.len() ==> entries[i].unix_micros < entries[j].unix_micros
}

/// What the queue is: its entries in time order, what it served last, its
/// bounds, and every entry that was ever submitted to it.
pub struct QueueView {
    /// The stored entries, earliest first.
    pub entries: Seq<QueuedEntry>,
    /// Channel and time of the entry that a query answered last.
    pub last_served: Option<(i8, u128)>,
    /// The most entries that the queue holds.
    pub capacity: nat,
    /// How long a frame shadows lower channels, in microseconds.
    pub idle_window: u128,
    /// Every entry that was submitted since the queue was made.
    pub submitted: Set<QueuedEntry>,
}

impl QueueView {
    /// No two entries share a time, the entries are in time order and within
    /// capacity, and what is stored or was served had been submitted.
    pub open spec fn wf(self) -> bool {
        &&& ascending(self.entries)
        &&& 0 < self.capacity
        &&& self.entries.len() <= self.capacity
        &&& forall|i: int| 0 <= i < self.entries.len() ==> self.submitted.contains(self.entries[i])
        &&& self.last_served matches Some(served) ==> exists|e: QueuedEntry|
            #[trigger] self.submitted.contains(e) && e.channel == served.0 && e.unix_micros
                == served.1
    }

    /// The queue after `new` has been submitted.
    pub open spec fn add(self, new: QueuedEntry) -> QueueView {
        QueueView {
            entries: inserted(evicted(self.entries, self.capacity), new),
            submitted: self.submitted.insert(new),
            ..self
        }
    }

    /// Whether a stored entry supersedes a frame of `channel` for
    /// `unix_micros`.
    pub open spec fn superseded(self, channel: i8, unix_micros: u128) -> bool {
        exists|i: int|
            0 <= i < self.entries.len() && supersedes(
                #[trigger] self.entries[i],
                self.idle_window,
                channel,
                unix_micros,
            )
    }

    /// The entry that a query at `now` answers, if any.
    pub open spec fn served(self, now: u128) -> Option<QueuedEntry> {
        candidate(due(self.entries, now), self.last_served, self.idle_window)
    }

    /// The queue after a query at `now`: the due entries are consumed, and the
    /// entry that was answered, if any, is the one served last.
    pub open spec fn after_query(self, now: u128) -> QueueView {
        QueueView {
            entries: pending(self.entries, now),
            last_served: match self.served(now) {
                Some(e) => Some((e.channel, e.unix_micros)),
                None => self.last_served,
            },
            ..self
        }
    }
}

/// Whether index `cut` parts `entries` at the instant `unix_micros`: the
/// entries before it are earlier, the others are not.
#[verifier::opaque]
pub open spec fn parts_at(entries: Seq<QueuedEntry>, unix_micros: int, cut: int) -> bool {
    &&& 0 <= cut <= entries.len()
    &&& forall|j: int| 0 <= j < cut ==> (#[trigger] entries[j]).unix_micros < unix_micros
    &&& forall|j: int|
        cut <= j < entries.len() ==> (#[trigger] entries[j]).unix_micros >= unix_micros
}

/// Entries in time order are parted at every instant.
pub proof fn lemma_parted_somewhere(entries: Seq<QueuedEntry>, unix_micros: int)
    requires
        ascending(entries),
    ensures
        exists|cut: int| parts_at(entries, unix_micros, cut),
    decreases entries.len(),
{
    reveal(ascending);
    reveal(parts_at);
    if entries.len() == 0 {
        assert(parts_at(entries, unix_micros, 0));
    } else if entries.last().unix_micros < unix_micros {
        assert forall|j: int| 0 <= j < entries.len() implies (#[trigger] entries[j]).unix_micros
            < unix_micros by {
            if j < entries.len() - 1 {
                assert(entries[j].unix_micros < entries[entries.len() - 1].unix_micros);
            }
        }
        assert(parts_at(entries, unix_micros, entries.len() as int));
    } else {
        let front = entries.drop_last();
        assert(ascending(front)) by {
            assert forall|i: int, j: int| 0 <= i < j < front.len() implies front[i].unix_micros
                < front[j].unix_micros by {
                assert(front[i] == entries[i] && front[j] == entries[j]);
            }
        }
        lemma_parted_somewhere(front, unix_micros);
        let cut = choose|cut: int| parts_at(front, unix_micros, cut);
        assert forall|j: int| 0 <= j < cut implies (#[trigger] entries[j]).unix_micros
            < unix_micros by {
            assert(front[j] == entries[j]);
        }
        assert forall|j: int| cut <= j < entries.len() implies (#[trigger] entries[j]).unix_micros
            >= unix_micros by {
            if j < front.len() {
                assert(front[j] == entries[j]);
            }
        }
        assert(parts_at(entries, unix_micros, cut));
    }
}

/// What submitting `new` does to entries in time order that `cut` parts at
/// the time of `new`: an entry stored for that time stays if its channel is
/// higher and gives way to `new` otherwise; without one, `new` goes in at
/// `cut`.
pub open spec fn placed(entries: Seq<QueuedEntry>, new: QueuedEntry, cut: int) -> Seq<
    QueuedEntry,
> {
    if cut < entries.len() && entries[cut].unix_micros == new.unix_micros {
        if entries[cut].channel > new.channel {
            entries
        } else {
            entries.update(cut, new)
        }
    } else {
        entries.insert(cut, new)
    }
}

/// On entries in time order that `cut` parts at `unix_micros`, the entries
/// before `cut` are the earlier ones, and an entry stored for `unix_micros`
/// stands at `cut`, before the later ones.
pub proof fn lemma_parted_filters(entries: Seq<QueuedEntry>, unix_micros: u128, cut: int)
    requires
        ascending(entries),
        parts_at(entries, unix_micros as int, cut),
    ensures
        earlier(entries, unix_micros) == entries.take(cut),
        cut < entries.len() && entries[cut].unix_micros == unix_micros ==> {
            &&& holder(entries, unix_micros) == Some(entries[cut])
            &&& pending(entries, unix_micros) == entries.skip(cut + 1)
        },
        !(cut < entries.len() && entries[cut].unix_micros == unix_micros) ==> {
            &&& holder(entries, unix_micros) is None
            &&& pending(entries, unix_micros) == entries.skip(cut)
        },
{
    reveal(ascending);
    reveal(parts_at);
    reveal(earlier);
    reveal(pending);
    reveal(holder);
    let is_earlier = |e: QueuedEntry| e.unix_micros < unix_micros;
    let later = |e: QueuedEntry| e.unix_micros > unix_micros;
    let same = |e: QueuedEntry| e.unix_micros == unix_micros;
    assert forall|j: int| 0 <= j < cut implies is_earlier(#[trigger] entries[j]) by {}
    assert forall|j: int| cut <= j < entries.len() implies !is_earlier(
        #[trigger] entries[j],
    ) by {}
    lemma_filter_keeps_prefix(entries, is_earlier, cut);
    if cut < entries.len() && entries[cut].unix_micros == unix_micros {
        assert forall|j: int| cut + 1 <= j < entries.len() implies later(
            #[trigger] entries[j],
        ) by {
            assert(entries[cut].unix_micros < entries[j].unix_micros);
        }
        assert forall|j: int| 0 <= j < cut + 1 implies !later(#[trigger] entries[j]) by {}
        lemma_filter_keeps_suffix(entries, later, cut + 1);
        assert forall|j: int| 0 <= j < entries.len() && j != cut implies !same(
            #[trigger] entries[j],
        ) by {
            if j > cut {
                assert(entries[cut].unix_micros < entries[j].unix_micros);
            }
        }
        lemma_filter_keeps_one(entries, same, cut);
    } else {
        assert forall|j: int| cut <= j < entries.len() implies later(#[trigger] entries[j]) by {
            if j > cut {
                assert(entries[cut].unix_micros < entries[j].unix_micros);
            }
        }
        assert forall|j: int| 0 <= j < cut implies !later(#[trigger] entries[j]) by {}
        lemma_filter_keeps_suffix(entries, later, cut);
        assert forall|j: int| 0 <= j < entries.len() implies !same(#[trigger] entries[j]) by {
            if j > cut {
                assert(entries[cut].unix_micros < entries[j].unix_micros);
            }
        }
        lemma_filter_keeps_none(entries, same);
    }
}

/// A sequence is what stands before an index, the element there, and what
/// stands behind it; to replace that element or to put one in before it
/// changes the middle part only.
proof fn lemma_around_index(entries: Seq<QueuedEntry>, new: QueuedEntry, cut: int)
    requires
        0 <= cut <= entries.len(),
    ensures
        entries.insert(cut, new) == entries.take(cut) + seq![new] + entries.skip(cut),
        cut < entries.len() ==> entries == entries.take(cut) + seq![entries[cut]] + entries.skip(
            cut + 1,
        ),
        cut < entries.len() ==> entries.update(cut, new) == entries.take(cut) + seq![new]
            + entries.skip(cut + 1),
{
    assert(entries.insert(cut, new) =~= entries.take(cut) + seq![new] + entries.skip(cut));
    if cut < entries.len() {
        assert(entries =~= entries.take(cut) + seq![entries[cut]] + entries.skip(cut + 1));
        assert(entries.update(cut, new) =~= entries.take(cut) + seq![new] + entries.skip(
            cut + 1,
        ));
    }
}

/// Submitting is placing, where the entries around the time of `new` are
/// known: the earlier ones end at `cut`, and an entry stored for that time
/// stands there.
proof fn lemma_placed_from_parts(entries: Seq<QueuedEntry>, new: QueuedEntry, cut: int)
    requires
        0 <= cut <= entries.len(),
        earlier(entries, new.unix_micros) == entries.take(cut),
        cut < entries.len() && entries[cut].unix_micros == new.unix_micros ==> {
            &&& holder(entries, new.unix_micros) == Some(entries[cut])
            &&& pending(entries, new.unix_micros) == entries.skip(cut + 1)
        },
        !(cut < entries.len() && entries[cut].unix_micros == new.unix_micros) ==> {
            &&& holder(entries, new.unix_micros) is None
            &&& pending(entries, new.unix_micros) == entries.skip(cut)
        },
    ensures
        inserted(entries, new) == placed(entries, new, cut),
{
    lemma_around_index(entries, new, cut);
}

/// On entries in time order, submitting is placing at the index that parts
/// the entries.
pub proof fn lemma_inserted_is_placed(entries: Seq<QueuedEntry>, new: QueuedEntry, cut: int)
    requires
        ascending(entries),
        parts_at(entries, new.unix_micros as int, cut),
    ensures
        inserted(entries, new) == placed(entries, new, cut),
{
    lemma_parted_filters(entries, new.unix_micros, cut);
    assert(0 <= cut <= entries.len()) by {
        reveal(parts_at);
    }
    lemma_placed_from_parts(entries, new, cut);
}

/// Placing an entry into entries in time order leaves them in time order,
/// adds at most one entry, and brings in no entry but the new one.
pub proof fn lemma_placed_in_order(entries: Seq<QueuedEntry>, new: QueuedEntry, cut: int)
    requires
        ascending(entries),
        parts_at(entries, new.unix_micros as int, cut),
    ensures
        ascending(placed(entries, new, cut)),
        placed(entries, new, cut).len() <= entries.len() + 1,
        forall|i: int|
            0 <= i < placed(entries, new, cut).len() ==> (#[trigger] placed(entries, new, cut)[i])
                == new || entries.contains(placed(entries, new, cut)[i]),
{
    reveal(ascending);
    reveal(parts_at);
    let t = new.unix_micros;
    let collides = cut < entries.len() && entries[cut].unix_micros == t;
    let result = placed(entries, new, cut);
    assert forall|i: int, j: int| 0 <= i < j < result.len() implies result[i].unix_micros
        < result[j].unix_micros by {
        if collides {
            assert(entries[i].unix_micros < entries[j].unix_micros);
            assert(result[i].unix_micros == entries[i].unix_micros);
            assert(result[j].unix_micros == entries[j].unix_micros);
        } else {
            let a = if i < cut { i } else { i - 1 };
            let b = if j < cut { j } else { j - 1 };
            if i != cut && j != cut {
                assert(result[i] == entries[a] && result[j] == entries[b]);
                assert(entries[a].unix_micros < entries[b].unix_micros);
            } else if i == cut {
                assert(result[j] == entries[b]);
                assert(entries[b].unix_micros >= t);
                assert(entries[cut].unix_micros != t);
                if b > cut {
                    assert(entries[cut].unix_micros < entries[b].unix_micros);
                }
            } else {
                assert(result[i] == entries[a]);
                assert(entries[a].unix_micros < t);
            }
        }
    }
    assert forall|i: int| 0 <= i < result.len() implies (#[trigger] result[i]) == new
        || entries.contains(result[i]) by {
        if collides {
            if result[i] != new {
                assert(result[i] == entries[i]);
            }
        } else {
            if i < cut {
                assert(result[i] == entries[i]);
            } else if i > cut {
                assert(result[i] == entries[i - 1]);
            }
        }
    }
}

/// Where `cut` parts the entries just behind `now`, the due entries are those
/// before `cut`, and the pending ones are the others.
pub proof fn lemma_due_is_prefix(entries: Seq<QueuedEntry>, now: u128, cut: int)
    requires
        parts_at(entries, now + 1, cut),
    ensures
        0 <= cut <= entries.len(),
        due(entries, now) == entries.take(cut),
        pending(entries, now) == entries.skip(cut),
        forall|j: int| 0 <= j < cut ==> (#[trigger] entries[j]).unix_micros <= now,
{
    reveal(parts_at);
    reveal(due);
    reveal(pending);
    let is_due = |e: QueuedEntry| e.unix_micros <= now;
    let is_pending = |e: QueuedEntry| e.unix_micros > now;
    assert forall|j: int| 0 <= j < cut implies is_due(#[trigger] entries[j]) by {}
    assert forall|j: int| cut <= j < entries.len() implies !is_due(#[trigger] entries[j]) by {}
    assert forall|j: int| 0 <= j < cut implies !is_pending(#[trigger] entries[j]) by {}
    assert forall|j: int| cut <= j < entries.len() implies is_pending(#[trigger] entries[j]) by {}
    lemma_filter_keeps_prefix(entries, is_due, cut);
    lemma_filter_keeps_suffix(entries, is_pending, cut);
}

/// The candidate of a pass is one of the entries that the pass went over.
pub proof fn lemma_candidate_is_passed(
    passed: Seq<QueuedEntry>,
    last_served: Option<(i8, u128)>,
    idle_window: u128,
)
    ensures
        candidate(passed, last_served, idle_window) matches Some(e) ==> passed.contains(e),
    decreases passed.len(),
{
    if passed.len() > 0 {
        let front = passed.drop_last();
        lemma_candidate_is_passed(front, last_served, idle_window);
        match candidate(passed, last_served, idle_window) {
            Some(e) => {
                if e == passed.last() {
                    assert(passed[passed.len() - 1] == e);
                } else {
                    let i = choose|i: int| 0 <= i < front.len() && front[i] == e;
                    assert(passed[i] == e);
                }
            },
            None => {},
        }
    }
}

/// A frame with the channel and the time it was submitted for.
pub struct ChannelTimedFrame {
    channel: i8,
    unix_micros: u128,
    frame: Frame,
}

impl View for ChannelTimedFrame {
    type V = QueuedEntry;

    closed spec fn view(&self) -> QueuedEntry {
        QueuedEntry { channel: self.channel, unix_micros: self.unix_micros, frame: self.frame@ }
    }
}

/// What a vector of stored frames holds.
spec fn entries_of(frames: Seq<ChannelTimedFrame>) -> Seq<QueuedEntry> {
    frames.map_values(|f: ChannelTimedFrame| f@)
}

/// A bounded reservoir of future frames, each stored under its presentation
/// time, that answers which frame is due.
pub struct ChannelTimeQueuedFrameGenerator {
    frames: Vec<ChannelTimedFrame>,
    last_frame_meta: Option<(i8, u128)>,
    buffer_size: usize,
    idle_micros: u128,
    submitted: Ghost<Set<QueuedEntry>>,
}

impl View for ChannelTimeQueuedFrameGenerator {
    type V = QueueView;

    closed spec fn view(&self) -> QueueView {
        QueueView {
            entries: entries_of(self.frames@),
            last_served: self.last_frame_meta,
            capacity: self.buffer_size as nat,
            idle_window: self.idle_micros,
            submitted: self.submitted@,
        }
    }
}

impl ChannelTimeQueuedFrameGenerator {
    /// The queue is well-formed.
    pub open spec fn wf(&self) -> bool {
        self@.wf()
    }

    /// An empty queue that holds at most `buffer_size` entries and lets a
    /// frame shadow lower channels for `idle_micros` microseconds.
    pub fn new(buffer_size: usize, idle_micros: u128) -> (queue: Self)
        requires
            buffer_size > 0,
        ensures
            queue.wf(),
            queue@ == (QueueView {
                entries: Seq::empty(),
                last_served: None,
                capacity: buffer_size as nat,
                idle_window: idle_micros,
                submitted: Set::empty(),
            }),
    {
        let queue = Self {
            frames: Vec::new(),
            last_frame_meta: None,
            buffer_size,
            idle_micros,
            submitted: Ghost(Set::empty()),
        };
        assert(queue@.entries =~= Seq::empty());
        assert(ascending(queue@.entries)) by {
            reveal(ascending);
        }
        queue
    }

    /// The most entries that the queue holds.
    pub fn capacity(&self) -> (n: usize)
        ensures
            n == self@.capacity,
    {
        self.buffer_size
    }

    /// The number of stored entries.
    pub fn len(&self) -> (n: usize)
        ensures
            n == self@.entries.len(),
    {
        self.frames.len()
    }

    /// Channel and time of the entry that a query answered last.
    pub fn last_served(&self) -> (served: Option<(i8, u128)>)
        ensures
            served == self@.last_served,
    {
        self.last_frame_meta
    }

    /// Submits `frame` for `unix_micros` on `channel`.
    ///
    /// A full queue first gives up its latest entries until one place is free.
    /// Then the frame is stored under its time, unless a frame of a higher
    /// channel is stored there already; one of the same or a lower channel is
    /// replaced.
    pub fn add_frame(&mut self, channel: i8, unix_micros: u128, frame: Frame)
        requires
            old(self).wf(),
        ensures
            final(self).wf(),
            final(self)@ == old(self)@.add(
                QueuedEntry { channel, unix_micros, frame: frame@ },
            ),
            final(self)@.entries.len() <= final(self)@.capacity,
    {
        let ghost new = QueuedEntry { channel, unix_micros, frame: frame@ };
        let ghost before = self@;
        if self.frames.len() >= self.buffer_size {
            self.frames.truncate(self.buffer_size - 1);
        }
        let ghost kept = entries_of(self.frames@);
        assert(kept =~= evicted(before.entries, before.capacity));
        assert(ascending(kept)) by {
            reveal(ascending);
        }
        let mut position = self.frames.len();
        while position > 0 && self.frames[position - 1].unix_micros >= unix_micros
            invariant
                position <= self.frames.len(),
                kept == entries_of(self.frames@),
                forall|j: int|
                    position <= j < kept.len() ==> (#[trigger] kept[j]).unix_micros >= unix_micros,
            decreases position,
        {
            position = position - 1;
        }
        proof {
            reveal(ascending);
            reveal(parts_at);
            assert forall|j: int| 0 <= j < position implies (#[trigger] kept[j]).unix_micros
                < unix_micros by {
                assert(kept[position - 1].unix_micros < unix_micros);
                if j < position - 1 {
                    assert(kept[j].unix_micros < kept[position - 1].unix_micros);
                }
            }
            assert(parts_at(kept, unix_micros as int, position as int));
            lemma_inserted_is_placed(kept, new, position as int);
            lemma_add_keeps_wf(before, new);
        }
        self.submitted = Ghost(self.submitted@.insert(new));
        if position < self.frames.len() && self.frames[position].unix_micros == unix_micros {
            if self.frames[position].channel <= channel {
                self.frames.set(position, ChannelTimedFrame { channel, unix_micros, frame });
                assert(entries_of(self.frames@) =~= kept.update(position as int, new));
            }
        } else {
            self.frames.insert(position, ChannelTimedFrame { channel, unix_micros, frame });
            assert(entries_of(self.frames@) =~= kept.insert(position as int, new));
        }
    }

    /// Whether a frame of `channel` for `unix_micros` would be shadowed if it
    /// were submitted: whether a stored entry that is due no later has a
    /// higher channel and a window that reaches `unix_micros`.
    pub fn is_frame_superseded(&self, channel: i8, unix_micros: u128) -> (superseded: bool)
        requires
            self.wf(),
        ensures
            superseded == self@.superseded(channel, unix_micros),
    {
        let ghost entries = self@.entries;
        proof {
            reveal(ascending);
        }
        let mut i: usize = 0;
        while i < self.frames.len()
            invariant
                i <= self.frames.len(),
                entries == self@.entries,
                entries == entries_of(self.frames@),
                forall|a: int, b: int|
                    0 <= a < b < entries.len() ==> entries[a].unix_micros < entries[b].unix_micros,
                forall|j: int|
                    0 <= j < i ==> !supersedes(
                        #[trigger] entries[j],
                        self.idle_micros,
                        channel,
                        unix_micros,
                    ),
            decreases self.frames.len() - i,
        {
            let stored = &self.frames[i];
            if stored.unix_micros > unix_micros {
                assert forall|j: int| i <= j < entries.len() implies !supersedes(
                    #[trigger] entries[j],
                    self.idle_micros,
                    channel,
                    unix_micros,
                ) by {
                    assert(entries[i as int].unix_micros <= entries[j].unix_micros);
                }
                return false;
            }
            if stored.channel > channel && stored.unix_micros.saturating_add(self.idle_micros)
                >= unix_micros {
                assert(supersedes(entries[i as int], self.idle_micros, channel, unix_micros));
                return true;
            }
            i = i + 1;
        }
        false
    }
}

/// Submitting an entry keeps a well-formed queue well-formed.
pub proof fn lemma_add_keeps_wf(queue: QueueView, new: QueuedEntry)
    requires
        queue.wf(),
    ensures
        queue.add(new).wf(),
        queue.add(new).entries.len() <= queue.capacity,
{
    let kept = evicted(queue.entries, queue.capacity);
    assert(ascending(kept)) by {
        reveal(ascending);
    }
    assert(kept.len() < queue.capacity);
    lemma_parted_somewhere(kept, new.unix_micros as int);
    let cut = choose|cut: int| parts_at(kept, new.unix_micros as int, cut);
    lemma_inserted_is_placed(kept, new, cut);
    lemma_placed_in_order(kept, new, cut);
    let after = queue.add(new);
    assert forall|i: int| 0 <= i < after.entries.len() implies after.submitted.contains(
        after.entries[i],
    ) by {
        if after.entries[i] != new {
            let k = choose|k: int| 0 <= k < kept.len() && kept[k] == after.entries[i];
            assert(kept[k] == queue.entries[k]);
        }
    }
    if let Some(served) = queue.last_served {
        let e = choose|e: QueuedEntry|
            #[trigger] queue.submitted.contains(e) && e.channel == served.0 && e.unix_micros
                == served.1;
        assert(after.submitted.contains(e));
    }
}

/// A query keeps a well-formed queue well-formed, and what it answers is a
/// stored entry that is due and had been submitted.
pub proof fn lemma_query_keeps_wf(queue: QueueView, now: u128)
    requires
        queue.wf(),
    ensures
        queue.after_query(now).wf(),
        queue.served(now) matches Some(e) ==> {
            &&& e.unix_micros <= now
            &&& queue.entries.contains(e)
            &&& queue.submitted.contains(e)
        },
{
    let behind: int = now + 1;
    lemma_parted_somewhere(queue.entries, behind);
    let cut = choose|cut: int| parts_at(queue.entries, behind, cut);
    lemma_due_is_prefix(queue.entries, now, cut);
    let passed = queue.entries.take(cut);
    lemma_candidate_is_passed(passed, queue.last_served, queue.idle_window);
    let after = queue.after_query(now);
    assert(ascending(after.entries)) by {
        reveal(ascending);
    }
    if let Some(e) = queue.served(now) {
        let i = choose|i: int| 0 <= i < passed.len() && passed[i] == e;
        assert(queue.entries[i] == e);
        assert(after.submitted.contains(e));
    } else {
        if let Some(served) = queue.last_served {
            let e = choose|e: QueuedEntry|
                #[trigger] queue.submitted.contains(e) && e.channel == served.0 && e.unix_micros
                    == served.1;
            assert(after.submitted.contains(e));
        }
    }
}

/// A stored entry supersedes a frame exactly if it is due no later, has a
/// higher channel, and lies no more than the idle window before the frame's
/// time: that the window's end is held at the largest instant changes nothing.
pub proof fn lemma_superseded_by_some_entry(queue: QueueView, channel: i8, unix_micros: u128)
    ensures
        queue.superseded(channel, unix_micros) <==> exists|e: QueuedEntry|
            {
                &&& #[trigger] queue.entries.contains(e)
                &&& e.unix_micros <= unix_micros
                &&& e.channel > channel
                &&& e.unix_micros + queue.idle_window >= unix_micros
            },
{
    if queue.superseded(channel, unix_micros) {
        let i = choose|i: int|
            0 <= i < queue.entries.len() && supersedes(
                #[trigger] queue.entries[i],
                queue.idle_window,
                channel,
                unix_micros,
            );
        assert(queue.entries.contains(queue.entries[i]));
    }
    if exists|e: QueuedEntry|
        {
            &&& #[trigger] queue.entries.contains(e)
            &&& e.unix_micros <= unix_micros
            &&& e.channel > channel
            &&& e.unix_micros + queue.idle_window >= unix_micros
        } {
        let e = choose|e: QueuedEntry|
            {
                &&& #[trigger] queue.entries.contains(e)
                &&& e.unix_micros <= unix_micros
                &&& e.channel > channel
                &&& e.unix_micros + queue.idle_window >= unix_micros
            };
        let i = choose|i: int| 0 <= i < queue.entries.len() && queue.entries[i] == e;
        assert(supersedes(queue.entries[i], queue.idle_window, channel, unix_micros));
    }
}

/// The frame of an optional entry.
pub open spec fn frame_of(entry: Option<QueuedEntry>) -> Option<FrameView> {
    match entry {
        Some(e) => Some(e.frame),
        None => None,
    }
}

impl FrameGenerator for ChannelTimeQueuedFrameGenerator {
    open spec fn inv(&self) -> bool {
        self.wf()
    }

    /// A query consumes the entries that are due and answers the frame of the
    /// entry that is served.
    open spec fn answers(
        &self,
        unix_micros: u128,
        next: &Self,
        frame: Option<FrameView>,
    ) -> bool {
        next@ == self@.after_query(unix_micros) && frame == frame_of(self@.served(unix_micros))
    }

    /// The frame that is due at `unix_micros`: the latest stored frame for a
    /// time up to then that neither the frame served last nor an earlier
    /// frame of this query shadows. Every frame that is due is consumed.
    fn generate(&mut self, unix_micros: u128) -> (frame: Option<Frame>)
        ensures
            frame matches Some(f) ==> exists|e: QueuedEntry|
                #[trigger] old(self)@.submitted.contains(e) && e.frame == f@ && e.unix_micros
                    <= unix_micros,
    {
        let ghost before = self@;
        let ghost entries = before.entries;
        let total = self.frames.len();
        let mut count: usize = 0;
        proof {
            reveal(ascending);
        }
        while count < total && self.frames[count].unix_micros <= unix_micros
            invariant
                count <= total,
                total == self.frames.len(),
                entries == entries_of(self.frames@),
                forall|j: int|
                    0 <= j < count ==> (#[trigger] entries[j]).unix_micros <= unix_micros,
            decreases total - count,
        {
            count = count + 1;
        }
        proof {
            assert forall|j: int| count <= j < entries.len() implies (
            #[trigger] entries[j]).unix_micros > unix_micros by {
                if j > count {
                    assert(entries[count as int].unix_micros < entries[j].unix_micros);
                }
            }
            assert(parts_at(entries, unix_micros + 1, count as int)) by {
                reveal(parts_at);
            }
            lemma_due_is_prefix(entries, unix_micros, count as int);
            lemma_query_keeps_wf(before, unix_micros);
        }
        let mut chosen: Option<usize> = None;
        let mut i: usize = 0;
        while i < count
            invariant
                i <= count <= self.frames.len(),
                entries == entries_of(self.frames@),
                self.last_frame_meta == before.last_served,
                self.idle_micros == before.idle_window,
                match chosen {
                    Some(c) => c < i && candidate(
                        entries.take(i as int),
                        before.last_served,
                        before.idle_window,
                    ) == Some(entries[c as int]),
                    None => candidate(
                        entries.take(i as int),
                        before.last_served,
                        before.idle_window,
                    ) is None,
                },
            decreases count - i,
        {
            let current = &self.frames[i];
            let by_served = match self.last_frame_meta {
                Some((channel, served_micros)) => channel > current.channel
                    && served_micros.saturating_add(self.idle_micros) > current.unix_micros,
                None => false,
            };
            let by_candidate = match chosen {
                Some(c) => {
                    let accepted = &self.frames[c];
                    accepted.channel > current.channel && accepted.unix_micros.saturating_add(
                        self.idle_micros,
                    ) > current.unix_micros
                },
                None => false,
            };
            proof {
                let passed = entries.take(i + 1);
                assert(passed.drop_last() =~= entries.take(i as int));
                assert(passed.last() == entries[i as int]);
            }
            if !by_served && !by_candidate {
                chosen = Some(i);
            }
            i = i + 1;
        }
        let rest = self.frames.split_off(count);
        assert(entries_of(rest@) =~= entries.skip(count as int));
        let frame = match chosen {
            Some(c) => {
                let entry = self.frames.swap_remove(c);
                assert(entry@ == entries[c as int]);
                self.last_frame_meta = Some((entry.channel, entry.unix_micros));
                let frame = entry.frame;
                let _ = frame.dimensions();
                Some(frame)
            },
            None => None,
        };
        self.frames = rest;
        frame
    }
}

} // verus!

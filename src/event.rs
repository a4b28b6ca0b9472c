//! A doubly-buffered feed of events, and cursors that read it.
//!
//! A feed keeps the events of the current generation and of the one before;
//! each event has an id, one more than the event written before it. A cursor
//! holds the id of the first event that its reader has not seen yet.

use vstd::prelude::*;

verus! {

/// The id of an event within its feed.
#[derive(Clone, Copy, Debug, PartialEq, Eq, Hash, Structural)]
pub struct EventId {
    pub id: usize,
}

/// What a feed holds: the older and the newer generation, and the id of the
/// first event of the older one. The events of both, oldest first, have
/// consecutive ids.
pub struct EventsView<E> {
    pub older: Seq<E>,
    pub newer: Seq<E>,
    pub older_start: nat,
}

impl<E> EventsView<E> {
    pub open spec fn empty() -> EventsView<E> {
        EventsView { older: Seq::empty(), newer: Seq::empty(), older_start: 0 }
    }

    /// The id of the first event of the newer generation.
    pub open spec fn newer_start(self) -> nat {
        self.older_start + self.older.len()
    }

    /// How many events were ever written: the id the next event gets.
    pub open spec fn event_count(self) -> nat {
        self.newer_start() + self.newer.len()
    }

    /// The events still held, oldest first.
    pub open spec fn entries(self) -> Seq<E> {
        self.older + self.newer
    }

    /// How many of the held events come before a cursor at `cursor`.
    pub open spec fn seen(self, cursor: nat) -> nat {
        if cursor <= self.older_start {
            0
        } else if cursor - self.older_start <= self.entries().len() {
            (cursor - self.older_start) as nat
        } else {
            self.entries().len()
        }
    }

    /// The held events whose id is at least `cursor`, oldest first.
    pub open spec fn unread(self, cursor: nat) -> Seq<E> {
        self.entries().skip(self.seen(cursor) as int)
    }

    /// The id of the `j`-th event that a cursor at `cursor` has not seen.
    pub open spec fn unread_id(self, cursor: nat, j: int) -> nat {
        (self.older_start + self.seen(cursor) + j) as nat
    }

    /// `unread`, each event paired with its id.
    pub open spec fn unread_with_ids(self, cursor: nat) -> Seq<(E, EventId)> {
        Seq::new(
            self.unread(cursor).len(),
            |j: int| (self.unread(cursor)[j], EventId { id: self.unread_id(cursor, j) as usize }),
        )
    }

    /// Where a cursor stands after it has read all it had not seen: past the
    /// newest event if it read any, where it was otherwise.
    pub open spec fn cursor_after_read(self, cursor: nat) -> nat {
        if self.unread(cursor).len() > 0 {
            self.event_count()
        } else {
            cursor
        }
    }

    /// The feed after one more event was written.
    pub open spec fn written(self, event: E) -> EventsView<E> {
        EventsView { newer: self.newer.push(event), ..self }
    }

    /// The feed after a change of generation: the older events are dropped,
    /// the newer ones become the older, and the newer generation is empty.
    pub open spec fn rotated(self) -> EventsView<E> {
        EventsView { older: self.newer, newer: Seq::empty(), older_start: self.newer_start() }
    }
}

/// A feed of events that keeps two generations.
#[derive(Debug)]
pub struct Events<E> {
    older: Vec<E>,
    newer: Vec<E>,
    older_start: usize,
    event_count: usize,
}

impl<E> View for Events<E> {
    type V = EventsView<E>;

    closed spec fn view(&self) -> EventsView<E> {
        EventsView { older: self.older@, newer: self.newer@, older_start: self.older_start as nat }
    }
}

impl<E> Events<E> {
    /// The count of written events agrees with what the feed holds.
    pub closed spec fn wf(&self) -> bool {
        self.older_start + self.older@.len() + self.newer@.len() == self.event_count
    }

    pub proof fn lemma_count_fits(&self)
        requires
            self.wf(),
        ensures
            self@.event_count() <= usize::MAX,
    {
    }

    pub fn new() -> (r: Events<E>)
        ensures
            r.wf(),
            r@ == EventsView::<E>::empty(),
    {
        Events { older: Vec::new(), newer: Vec::new(), older_start: 0, event_count: 0 }
    }

    /// Appends `event` to the newer generation and returns its id.
    pub fn write(&mut self, event: E) -> (id: EventId)
        requires
            old(self).wf(),
            old(self)@.event_count() < usize::MAX,
        ensures
            final(self).wf(),
            final(self)@ == old(self)@.written(event),
            id.id == old(self)@.event_count(),
    {
        let id = EventId { id: self.event_count };
        self.newer.push(event);
        self.event_count = self.event_count + 1;
        id
    }

    /// Changes generation: drops the older events and opens an empty newer
    /// generation.
    pub fn update(&mut self)
        requires
            old(self).wf(),
        ensures
            final(self).wf(),
            final(self)@ == old(self)@.rotated(),
    {
        self.older_start = self.older_start + self.older.len();
        let mut fresh: Vec<E> = Vec::new();
        std::mem::swap(&mut self.newer, &mut fresh);
        self.older = fresh;
        assert(self.older@ == old(self).newer@);
    }

    /// The number of events held, in both generations.
    pub fn len(&self) -> (r: usize)
        requires
            self.wf(),
        ensures
            r == self@.entries().len(),
    {
        self.older.len() + self.newer.len()
    }

    pub fn is_empty(&self) -> (r: bool)
        requires
            self.wf(),
        ensures
            r == (self@.entries().len() == 0),
    {
        self.len() == 0
    }

    /// The id the next written event gets.
    pub fn event_count(&self) -> (r: usize)
        requires
            self.wf(),
        ensures
            r == self@.event_count(),
    {
        self.event_count
    }

    /// The id of the first event held.
    pub fn oldest_id(&self) -> (r: usize)
        requires
            self.wf(),
        ensures
            r == self@.older_start,
    {
        self.older_start
    }
}

impl<E: Copy> Events<E> {
    /// The `i`-th event held, oldest first.
    pub fn entry_at(&self, i: usize) -> (r: E)
        requires
            self.wf(),
            i < self@.entries().len(),
        ensures
            r == self@.entries()[i as int],
    {
        if i < self.older.len() {
            self.older[i]
        } else {
            self.newer[i - self.older.len()]
        }
    }
}

/// A reader's position in one feed: the id of the first event it has not
/// seen yet.
#[derive(Debug)]
pub struct EventCursor {
    last_event_count: usize,
}

impl EventCursor {
    /// The id of the first event this cursor has not seen.
    pub closed spec fn position(&self) -> nat {
        self.last_event_count as nat
    }

    /// A cursor that has seen nothing.
    pub fn new() -> (r: EventCursor)
        ensures
            r.position() == 0,
    {
        EventCursor { last_event_count: 0 }
    }

    /// How many of the events held in `events` come before this cursor.
    fn seen_in<E>(&self, events: &Events<E>) -> (r: usize)
        requires
            events.wf(),
        ensures
            r == events@.seen(self.position()),
    {
        let held = events.len();
        let start = events.oldest_id();
        if self.last_event_count <= start {
            0
        } else if self.last_event_count - start <= held {
            self.last_event_count - start
        } else {
            held
        }
    }

    /// The number of events held in `events` that this cursor has not seen.
    pub fn len<E>(&self, events: &Events<E>) -> (r: usize)
        requires
            events.wf(),
        ensures
            r == events@.unread(self.position()).len(),
    {
        events.len() - self.seen_in(events)
    }

    pub fn is_empty<E>(&self, events: &Events<E>) -> (r: bool)
        requires
            events.wf(),
        ensures
            r == (events@.unread(self.position()).len() == 0),
    {
        self.len(events) == 0
    }

    /// Marks every event written so far as seen, without reading it.
    pub fn clear<E>(&mut self, events: &Events<E>)
        requires
            events.wf(),
        ensures
            final(self).position() == events@.event_count(),
    {
        self.last_event_count = events.event_count();
    }
}

impl EventCursor {
    /// Returns the events of `events` this cursor has not seen, oldest first,
    /// and moves past them.
    pub fn read<E: Copy>(&mut self, events: &Events<E>) -> (r: Vec<E>)
        requires
            events.wf(),
        ensures
            r@ == events@.unread(old(self).position()),
            final(self).position() == events@.cursor_after_read(old(self).position()),
    {
        let held = events.len();
        let from = self.seen_in(events);
        let mut out: Vec<E> = Vec::new();
        let mut i: usize = from;
        while i < held
            invariant
                events.wf(),
                held == events@.entries().len(),
                from <= i <= held,
                out@ == events@.entries().subrange(from as int, i as int),
            decreases held - i,
        {
            out.push(events.entry_at(i));
            i = i + 1;
        }
        assert(out@ == events@.unread(self.position()));
        if out.len() > 0 {
            self.last_event_count = events.event_count();
        }
        out
    }

    /// As `read`, each event paired with its id.
    pub fn read_with_id<E: Copy>(&mut self, events: &Events<E>) -> (r: Vec<(E, EventId)>)
        requires
            events.wf(),
        ensures
            r@ == events@.unread_with_ids(old(self).position()),
            final(self).position() == events@.cursor_after_read(old(self).position()),
    {
        let held = events.len();
        let from = self.seen_in(events);
        let start = events.oldest_id();
        proof {
            events.lemma_count_fits();
        }
        let mut out: Vec<(E, EventId)> = Vec::new();
        let mut i: usize = from;
        while i < held
            invariant
                events.wf(),
                held == events@.entries().len(),
                start == events@.older_start,
                from == events@.seen(self.position()),
                events@.event_count() <= usize::MAX,
                from <= i <= held,
                out@.len() == i - from,
                forall|j: int|
                    0 <= j < out@.len() ==> #[trigger] out@[j] == events@.unread_with_ids(
                        self.position(),
                    )[j],
            decreases held - i,
        {
            let id = EventId { id: start + i };
            out.push((events.entry_at(i), id));
            i = i + 1;
        }
        assert(out@ =~= events@.unread_with_ids(self.position()));
        if out.len() > 0 {
            self.last_event_count = events.event_count();
        }
        out
    }
    /// Returns the oldest event of `events` this cursor has not seen, with its
    /// id, and moves just past it; the cursor stays where it is when there is
    /// none.
    pub fn read_next<E: Copy>(&mut self, events: &Events<E>) -> (r: Option<(E, EventId)>)
        requires
            events.wf(),
        ensures
            events@.unread(old(self).position()).len() == 0 ==> r is None && final(self).position()
                == old(self).position(),
            events@.unread(old(self).position()).len() > 0 ==> r == Some(
                events@.unread_with_ids(old(self).position())[0],
            ) && final(self).position() == events@.unread_id(old(self).position(), 0) + 1,
    {
        let held = events.len();
        let from = self.seen_in(events);
        proof {
            events.lemma_count_fits();
        }
        if from < held {
            let id = events.oldest_id() + from;
            self.last_event_count = id + 1;
            Some((events.entry_at(from), EventId { id }))
        } else {
            None
        }
    }
}

} // verus!

//! Feeds of removal notifications, one per component type, and the readers
//! that consume them.

use crate::entity::{ComponentId, Entity};
use crate::event::{EventCursor, EventId, Events, EventsView};
use core::marker::PhantomData;
use vstd::prelude::*;

verus! {

/// What a feed of removals holds for each removal: the entity that lost the
/// component.
#[derive(Clone, Copy, Debug, PartialEq, Eq, Structural)]
pub struct RemovedComponentEntity(pub Entity);

impl From<RemovedComponentEntity> for Entity {
    fn from(removed: RemovedComponentEntity) -> (r: Entity)
        ensures
            r == removed.0,
    {
        removed.0
    }
}

impl vstd::std_specs::convert::FromSpecImpl<RemovedComponentEntity> for Entity {
    open spec fn obeys_from_spec() -> bool {
        true
    }

    open spec fn from_spec(v: RemovedComponentEntity) -> Entity {
        v.0
    }
}

/// A cursor into the removal feed of the component type `T`.
///
/// The type parameter binds the cursor to one component type, so that it is
/// not used by mistake on the feed of another.
#[derive(Debug)]
pub struct RemovedComponentReader<T> {
    reader: EventCursor,
    marker: PhantomData<T>,
}

impl<T> RemovedComponentReader<T> {
    /// The id of the first removal this reader has not seen.
    pub closed spec fn position(&self) -> nat {
        self.reader.position()
    }

    /// A reader that has seen nothing.
    pub fn new() -> (r: RemovedComponentReader<T>)
        ensures
            r.position() == 0,
    {
        RemovedComponentReader { reader: EventCursor::new(), marker: PhantomData }
    }

    /// The underlying cursor.
    pub fn deref(&self) -> (r: &EventCursor)
        ensures
            r.position() == self.position(),
    {
        &self.reader
    }

    /// The underlying cursor, to move it.
    pub fn deref_mut(&mut self) -> (r: &mut EventCursor)
        ensures
            r.position() == old(self).position(),
            final(self).position() == final(r).position(),
    {
        &mut self.reader
    }
}

impl<T> Default for RemovedComponentReader<T> {
    fn default() -> (r: RemovedComponentReader<T>)
        ensures
            r.position() == 0,
    {
        RemovedComponentReader::new()
    }
}

/// A map from component types to their removal feeds.
pub type RemovalFeeds = Map<ComponentId, EventsView<RemovedComponentEntity>>;

/// The feed of `id` in `feeds`, if there is one.
pub open spec fn feed_of(feeds: RemovalFeeds, id: ComponentId) -> Option<EventsView<RemovedComponentEntity>> {
    if feeds.contains_key(id) {
        Some(feeds[id])
    } else {
        None
    }
}

/// `feeds` after the removal of the component `id` from `entity` was sent.
pub open spec fn feeds_sent(feeds: RemovalFeeds, id: ComponentId, entity: Entity) -> RemovalFeeds {
    let before = if feeds.contains_key(id) {
        feeds[id]
    } else {
        EventsView::empty()
    };
    feeds.insert(id, before.written(RemovedComponentEntity(entity)))
}

/// `feeds` after every feed changed generation.
pub open spec fn feeds_updated(feeds: RemovalFeeds) -> RemovalFeeds {
    feeds.map_values(|f: EventsView<RemovedComponentEntity>| f.rotated())
}

/// The removal feeds of every component type of a store.
///
/// A feed is made when the first removal of its type is sent, and is kept
/// from then on.
#[derive(Debug)]
pub struct RemovedComponentEvents {
    event_sets: Vec<(ComponentId, Events<RemovedComponentEntity>)>,
}

impl View for RemovedComponentEvents {
    type V = RemovalFeeds;

    closed spec fn view(&self) -> RemovalFeeds {
        Map::new(
            |k: ComponentId| exists|i: int| 0 <= i < self.event_sets@.len() && #[trigger] self.event_sets@[i].0 == k,
            |k: ComponentId| self.event_sets@[choose|i: int| 0 <= i < self.event_sets@.len() && #[trigger] self.event_sets@[i].0 == k].1@,
        )
    }
}

impl RemovedComponentEvents {
    /// Each component type has at most one feed, and every feed is well formed.
    pub closed spec fn wf(&self) -> bool {
        &&& forall|i: int, j: int|
            0 <= i < self.event_sets@.len() && 0 <= j < self.event_sets@.len() && i != j
                ==> #[trigger] self.event_sets@[i].0 != #[trigger] self.event_sets@[j].0
        &&& forall|i: int| 0 <= i < self.event_sets@.len() ==> #[trigger] self.event_sets@[i].1.wf()
    }

    proof fn lemma_view_at(&self, i: int)
        requires
            self.wf(),
            0 <= i < self.event_sets@.len(),
        ensures
            self@.contains_key(self.event_sets@[i].0),
            self@[self.event_sets@[i].0] == self.event_sets@[i].1@,
    {
        let k = self.event_sets@[i].0;
        assert(self.event_sets@[i].0 == k);
        let j = choose|j: int| 0 <= j < self.event_sets@.len() && #[trigger] self.event_sets@[j].0 == k;
        assert(i == j);
    }

    /// Creates a store of removal feeds that holds none.
    pub fn new() -> (r: RemovedComponentEvents)
        ensures
            r.wf(),
            r@ == RemovalFeeds::empty(),
    {
        let r = RemovedComponentEvents { event_sets: Vec::new() };
        assert(r@ =~= RemovalFeeds::empty());
        r
    }

    fn index_of(&self, id: ComponentId) -> (r: Option<usize>)
        requires
            self.wf(),
        ensures
            match r {
                Some(i) => i < self.event_sets@.len() && self.event_sets@[i as int].0 == id,
                None => !self@.contains_key(id),
            },
    {
        let n = self.event_sets.len();
        let mut i: usize = 0;
        while i < n
            invariant
                n == self.event_sets@.len(),
                i <= n,
                forall|j: int| 0 <= j < i ==> #[trigger] self.event_sets@[j].0 != id,
            decreases n - i,
        {
            if self.event_sets[i].0 == id {
                return Some(i);
            }
            i = i + 1;
        }
        None
    }

    /// The removal feed of the component type `id`; `None` when no removal
    /// of that type was ever sent.
    pub fn get(&self, id: ComponentId) -> (r: Option<&Events<RemovedComponentEntity>>)
        requires
            self.wf(),
        ensures
            match r {
                Some(events) => events.wf() && feed_of(self@, id) == Some(events@),
                None => feed_of(self@, id) is None,
            },
    {
        match self.index_of(id) {
            Some(i) => {
                proof {
                    self.lemma_view_at(i as int);
                }
                Some(&self.event_sets[i].1)
            },
            None => None,
        }
    }

    /// Sends the removal of the component type `id` from `entity`, making
    /// the feed of that type first if there is none.
    pub fn send(&mut self, id: ComponentId, entity: Entity)
        requires
            old(self).wf(),
            feed_of(old(self)@, id) matches Some(f) ==> f.event_count() < usize::MAX,
        ensures
            final(self).wf(),
            final(self)@ == feeds_sent(old(self)@, id, entity),
    {
        match self.index_of(id) {
            Some(i) => {
                proof {
                    self.lemma_view_at(i as int);
                }
                self.event_sets[i].1.write(RemovedComponentEntity(entity));
                proof {
                    assert(self.wf());
                    assert forall|k: ComponentId| #[trigger] self@.contains_key(k) == old(self)@.contains_key(k) by {
                        if self@.contains_key(k) {
                            let j = choose|j: int| 0 <= j < self.event_sets@.len() && #[trigger] self.event_sets@[j].0 == k;
                            assert(old(self).event_sets@[j].0 == k);
                        }
                        if old(self)@.contains_key(k) {
                            let j = choose|j: int| 0 <= j < self.event_sets@.len() && #[trigger] old(self).event_sets@[j].0 == k;
                            assert(self.event_sets@[j].0 == k);
                        }
                    }
                    assert forall|k: ComponentId| #[trigger] self@.contains_key(k) implies self@[k] == feeds_sent(old(self)@, id, entity)[k] by {
                        let j = choose|j: int| 0 <= j < self.event_sets@.len() && #[trigger] self.event_sets@[j].0 == k;
                        self.lemma_view_at(j);
                        old(self).lemma_view_at(j);
                    }
                    assert(self@ =~= feeds_sent(old(self)@, id, entity));
                }
            },
            None => {
                let mut events = Events::new();
                events.write(RemovedComponentEntity(entity));
                self.event_sets.push((id, events));
                proof {
                    let n = old(self).event_sets@.len();
                    assert(self.wf());
                    assert forall|k: ComponentId| #[trigger] self@.contains_key(k) == (old(self)@.contains_key(k) || k == id) by {
                        if self@.contains_key(k) && k != id {
                            let j = choose|j: int| 0 <= j < self.event_sets@.len() && #[trigger] self.event_sets@[j].0 == k;
                            assert(old(self).event_sets@[j].0 == k);
                        }
                        if old(self)@.contains_key(k) {
                            let j = choose|j: int| 0 <= j < n && #[trigger] old(self).event_sets@[j].0 == k;
                            assert(self.event_sets@[j].0 == k);
                        }
                        if k == id {
                            assert(self.event_sets@[n as int].0 == k);
                        }
                    }
                    assert forall|k: ComponentId| #[trigger] self@.contains_key(k) implies self@[k] == feeds_sent(old(self)@, id, entity)[k] by {
                        let j = choose|j: int| 0 <= j < self.event_sets@.len() && #[trigger] self.event_sets@[j].0 == k;
                        self.lemma_view_at(j);
                        if k != id {
                            old(self).lemma_view_at(j);
                        }
                    }
                    assert(self@ =~= feeds_sent(old(self)@, id, entity));
                }
            },
        }
    }

    /// Every component type with its removal feed, in the order the feeds
    /// were made.
    pub fn iter(&self) -> (r: &[(ComponentId, Events<RemovedComponentEntity>)])
        requires
            self.wf(),
        ensures
            forall|i: int| 0 <= i < r@.len() ==> (#[trigger] r@[i]).1.wf() && feed_of(self@, r@[i].0) == Some(r@[i].1@),
            forall|k: ComponentId| #[trigger] self@.contains_key(k) ==> exists|i: int| 0 <= i < r@.len() && #[trigger] r@[i].0 == k,
            forall|i: int, j: int| 0 <= i < r@.len() && 0 <= j < r@.len() && i != j ==> #[trigger] r@[i].0 != #[trigger] r@[j].0,
    {
        proof {
            assert forall|i: int| 0 <= i < self.event_sets@.len() implies feed_of(self@, #[trigger] self.event_sets@[i].0) == Some(self.event_sets@[i].1@) by {
                self.lemma_view_at(i);
            }
        }
        self.event_sets.as_slice()
    }

    /// For each component type, changes the generation of its feed: the
    /// older removals are dropped and the newer ones become the older.
    /// Meant to be called once per frame.
    pub fn update(&mut self)
        requires
            old(self).wf(),
        ensures
            final(self).wf(),
            final(self)@ == feeds_updated(old(self)@),
    {
        let n = self.event_sets.len();
        let mut i: usize = 0;
        while i < n
            invariant
                n == self.event_sets@.len(),
                n == old(self).event_sets@.len(),
                i <= n,
                old(self).wf(),
                forall|j: int| 0 <= j < n ==> #[trigger] self.event_sets@[j].0 == old(self).event_sets@[j].0,
                forall|j: int| 0 <= j < n ==> #[trigger] self.event_sets@[j].1.wf(),
                forall|j: int|
                    0 <= j < i ==> #[trigger] self.event_sets@[j].1@ == old(self).event_sets@[j].1@.rotated(),
                forall|j: int| i <= j < n ==> #[trigger] self.event_sets@[j].1@ == old(self).event_sets@[j].1@,
            decreases n - i,
        {
            self.event_sets[i].1.update();
            i = i + 1;
        }
        assert(self.wf());
        assert forall|k: ComponentId| #[trigger] self@.contains_key(k) == old(self)@.contains_key(k) by {
            if self@.contains_key(k) {
                let j = choose|j: int| 0 <= j < n && #[trigger] self.event_sets@[j].0 == k;
                assert(old(self).event_sets@[j].0 == k);
            }
            if old(self)@.contains_key(k) {
                let j = choose|j: int| 0 <= j < n && #[trigger] old(self).event_sets@[j].0 == k;
                assert(self.event_sets@[j].0 == k);
            }
        }
        assert forall|k: ComponentId| #[trigger] self@.contains_key(k) implies self@[k] == old(self)@[k].rotated() by {
            let j = choose|j: int| 0 <= j < n && #[trigger] self.event_sets@[j].0 == k;
            self.lemma_view_at(j);
            old(self).lemma_view_at(j);
        }
        assert(self@ =~= feeds_updated(old(self)@));
    }
}

impl Default for RemovedComponentEvents {
    fn default() -> (r: RemovedComponentEvents)
        ensures
            r.wf(),
            r@ == RemovalFeeds::empty(),
    {
        RemovedComponentEvents::new()
    }
}

/// The entities that a reader at `cursor` has not seen in `feed`, oldest
/// first; none where there is no feed.
pub open spec fn unread_entities(feed: Option<EventsView<RemovedComponentEntity>>, cursor: nat) -> Seq<Entity> {
    match feed {
        Some(f) => f.unread(cursor).map_values(|e: RemovedComponentEntity| e.0),
        None => Seq::empty(),
    }
}

/// `unread_entities`, each paired with the id of its removal.
pub open spec fn unread_entities_with_ids(
    feed: Option<EventsView<RemovedComponentEntity>>,
    cursor: nat,
) -> Seq<(Entity, EventId)> {
    match feed {
        Some(f) => f.unread_with_ids(cursor).map_values(|p: (RemovedComponentEntity, EventId)| (p.0.0, p.1)),
        None => Seq::empty(),
    }
}

/// Where a reader at `cursor` stands after reading all it had not seen.
pub open spec fn cursor_after_read(feed: Option<EventsView<RemovedComponentEntity>>, cursor: nat) -> nat {
    match feed {
        Some(f) => f.cursor_after_read(cursor),
        None => cursor,
    }
}

/// Where a reader at `cursor` stands after it cleared what it had not seen.
pub open spec fn cursor_after_clear(feed: Option<EventsView<RemovedComponentEntity>>, cursor: nat) -> nat {
    match feed {
        Some(f) => f.event_count(),
        None => cursor,
    }
}

/// Where a reader at `cursor` stands after it read one removal it had not
/// seen: just past it; where it was if there was none.
pub open spec fn cursor_after_next(feed: Option<EventsView<RemovedComponentEntity>>, cursor: nat) -> nat {
    match feed {
        Some(f) => if f.unread(cursor).len() > 0 {
            f.unread_id(cursor, 0) + 1
        } else {
            cursor
        },
        None => cursor,
    }
}

/// Pairs a removed entity with the id of its removal.
fn map_id_events(removed: &RemovedComponentEntity, id: EventId) -> (r: (Entity, EventId))
    ensures
        r == (removed.0, id),
{
    (Entity::from(*removed), id)
}

/// The view that one reader has of the removals of the component type `T`:
/// the id of `T`, the reader's own cursor, and the store's removal feeds.
pub struct RemovedComponents<'w, T> {
    component_id: ComponentId,
    reader: RemovedComponentReader<T>,
    event_sets: &'w RemovedComponentEvents,
}

impl<'w, T> RemovedComponents<'w, T> {
    /// The id of the component type `T`.
    pub closed spec fn id(&self) -> ComponentId {
        self.component_id
    }

    /// The id of the first removal the reader has not seen.
    pub closed spec fn position(&self) -> nat {
        self.reader.position()
    }

    /// The removal feeds of the store.
    pub closed spec fn feeds(&self) -> RemovalFeeds {
        self.event_sets@
    }

    pub closed spec fn wf(&self) -> bool {
        self.event_sets.wf()
    }

    /// The feed of `T`, if any removal of it was ever sent.
    pub open spec fn feed(&self) -> Option<EventsView<RemovedComponentEntity>> {
        feed_of(self.feeds(), self.id())
    }

    /// Binds `reader` to the feeds of `event_sets`, reading those of the
    /// component type whose id is `component_id`.
    pub fn new(
        component_id: ComponentId,
        reader: RemovedComponentReader<T>,
        event_sets: &'w RemovedComponentEvents,
    ) -> (r: RemovedComponents<'w, T>)
        requires
            event_sets.wf(),
        ensures
            r.wf(),
            r.id() == component_id,
            r.position() == reader.position(),
            r.feeds() == event_sets@,
    {
        RemovedComponents { component_id, reader, event_sets }
    }

    /// Gives the reader back, to be kept until the next use.
    pub fn into_reader(self) -> (r: RemovedComponentReader<T>)
        ensures
            r.position() == self.position(),
    {
        self.reader
    }

    /// The underlying cursor.
    pub fn reader(&self) -> (r: &EventCursor)
        ensures
            r.position() == self.position(),
    {
        self.reader.deref()
    }

    /// The underlying cursor, to move it.
    pub fn reader_mut(&mut self) -> (r: &mut EventCursor)
        ensures
            r.position() == old(self).position(),
            final(self).position() == final(r).position(),
            final(self).id() == old(self).id(),
            final(self).feeds() == old(self).feeds(),
            final(self).wf() == old(self).wf(),
    {
        self.reader.deref_mut()
    }

    /// The removal feed of `T`, if any removal of it was ever sent.
    pub fn events(&self) -> (r: Option<&'w Events<RemovedComponentEntity>>)
        requires
            self.wf(),
        ensures
            match r {
                Some(events) => events.wf() && self.feed() == Some(events@),
                None => self.feed() is None,
            },
    {
        self.event_sets.get(self.component_id)
    }

    /// The reader and the feed of `T` together, where there is a feed.
    pub fn reader_mut_with_events(
        &mut self,
    ) -> (r: Option<(&mut RemovedComponentReader<T>, &'w Events<RemovedComponentEntity>)>)
        requires
            old(self).wf(),
        ensures
            final(self).id() == old(self).id(),
            final(self).feeds() == old(self).feeds(),
            final(self).wf(),
            match r {
                Some((reader, events)) => {
                    &&& events.wf()
                    &&& old(self).feed() == Some(events@)
                    &&& reader.position() == old(self).position()
                    &&& final(self).position() == final(reader).position()
                },
                None => old(self).feed() is None && final(self).position() == old(self).position(),
            },
    {
        match self.event_sets.get(self.component_id) {
            Some(events) => Some((&mut self.reader, events)),
            None => None,
        }
    }

    /// Returns the entities that lost `T` and that this reader has not seen,
    /// oldest first, and moves the reader past them.
    pub fn read(&mut self) -> (r: Vec<Entity>)
        requires
            old(self).wf(),
        ensures
            r@ == unread_entities(old(self).feed(), old(self).position()),
            final(self).position() == cursor_after_read(old(self).feed(), old(self).position()),
            final(self).id() == old(self).id(),
            final(self).feeds() == old(self).feeds(),
            final(self).wf(),
    {
        let mut out: Vec<Entity> = Vec::new();
        if let Some(events) = self.event_sets.get(self.component_id) {
            let removed = self.reader.reader.read(events);
            let n = removed.len();
            let mut i: usize = 0;
            while i < n
                invariant
                    n == removed@.len(),
                    i <= n,
                    out@ == removed@.subrange(0, i as int).map_values(|e: RemovedComponentEntity| e.0),
                decreases n - i,
            {
                out.push(Entity::from(removed[i]));
                i = i + 1;
                assert(removed@.subrange(0, i as int) == removed@.subrange(0, i - 1).push(removed@[i - 1]));
            }
            assert(removed@.subrange(0, n as int) == removed@);
        }
        out
    }

    /// As `read`, each entity paired with the id of its removal.
    pub fn read_with_id(&mut self) -> (r: Vec<(Entity, EventId)>)
        requires
            old(self).wf(),
        ensures
            r@ == unread_entities_with_ids(old(self).feed(), old(self).position()),
            final(self).position() == cursor_after_read(old(self).feed(), old(self).position()),
            final(self).id() == old(self).id(),
            final(self).feeds() == old(self).feeds(),
            final(self).wf(),
    {
        let mut out: Vec<(Entity, EventId)> = Vec::new();
        if let Some(events) = self.event_sets.get(self.component_id) {
            let removed = self.reader.reader.read_with_id(events);
            let n = removed.len();
            let mut i: usize = 0;
            while i < n
                invariant
                    n == removed@.len(),
                    i <= n,
                    out@ == removed@.subrange(0, i as int).map_values(
                        |p: (RemovedComponentEntity, EventId)| (p.0.0, p.1),
                    ),
                decreases n - i,
            {
                out.push(map_id_events(&removed[i].0, removed[i].1));
                i = i + 1;
                assert(removed@.subrange(0, i as int) == removed@.subrange(0, i - 1).push(removed@[i - 1]));
            }
            assert(removed@.subrange(0, n as int) == removed@);
        }
        out
    }

    /// The number of removals this reader has not seen, without reading them.
    pub fn len(&self) -> (r: usize)
        requires
            self.wf(),
        ensures
            r == unread_entities(self.feed(), self.position()).len(),
    {
        match self.events() {
            Some(events) => self.reader.deref().len(events),
            None => 0,
        }
    }

    /// Whether this reader has seen every removal.
    pub fn is_empty(&self) -> (r: bool)
        requires
            self.wf(),
        ensures
            r == (unread_entities(self.feed(), self.position()).len() == 0),
    {
        match self.events() {
            Some(events) => self.reader.deref().is_empty(events),
            None => true,
        }
    }

    /// Marks every removal sent so far as seen, so that `read` does not
    /// return it; other readers are not affected.
    pub fn clear(&mut self)
        requires
            old(self).wf(),
        ensures
            final(self).position() == cursor_after_clear(old(self).feed(), old(self).position()),
            final(self).id() == old(self).id(),
            final(self).feeds() == old(self).feeds(),
            final(self).wf(),
    {
        if let Some((reader, events)) = self.reader_mut_with_events() {
            reader.deref_mut().clear(events);
        }
    }
    /// Returns the oldest entity that lost `T` and that this reader has not
    /// seen, and moves the reader past it alone: a reader that stops early
    /// still reads the rest later.
    pub fn read_next(&mut self) -> (r: Option<Entity>)
        requires
            old(self).wf(),
        ensures
            unread_entities(old(self).feed(), old(self).position()).len() == 0 ==> r is None,
            unread_entities(old(self).feed(), old(self).position()).len() > 0 ==> r == Some(
                unread_entities(old(self).feed(), old(self).position())[0],
            ),
            final(self).position() == cursor_after_next(old(self).feed(), old(self).position()),
            final(self).id() == old(self).id(),
            final(self).feeds() == old(self).feeds(),
            final(self).wf(),
    {
        match self.event_sets.get(self.component_id) {
            Some(events) => match self.reader.reader.read_next(events) {
                Some((removed, _id)) => Some(Entity::from(removed)),
                None => None,
            },
            None => None,
        }
    }
}

} // verus!

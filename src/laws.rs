//! Laws of removal feeds and of their readers.

use crate::entity::{ComponentId, Entity};
use crate::event::EventsView;
use crate::removal_detection::{
    cursor_after_clear, cursor_after_read, feed_of, feeds_sent, feeds_updated, unread_entities,
    unread_entities_with_ids, RemovalFeeds, RemovedComponentEntity,
};
use vstd::prelude::*;

verus! {

/// Writing an event to a feed appends it to what a reader has not seen,
/// provided the reader is not past the end of the feed.
pub proof fn lemma_write_appends<E>(f: EventsView<E>, event: E, cursor: nat)
    requires
        cursor <= f.event_count(),
    ensures
        f.written(event).unread(cursor) == f.unread(cursor).push(event),
{
    let g = f.written(event);
    assert(g.entries() =~= f.entries().push(event));
    assert(g.seen(cursor) == f.seen(cursor));
    assert(g.unread(cursor) =~= f.unread(cursor).push(event));
}

/// A change of generation drops the older generation and nothing else: a
/// reader sees afterwards exactly what it had not seen of the newer one.
pub proof fn lemma_update_drops_only_older<E>(f: EventsView<E>, cursor: nat)
    ensures
        f.rotated().unread(cursor) == f.unread(
            if cursor < f.newer_start() {
                f.newer_start()
            } else {
                cursor
            },
        ),
        f.older.len() == 0 ==> f.rotated().unread(cursor) == f.unread(cursor),
{
    let m = if cursor < f.newer_start() {
        f.newer_start()
    } else {
        cursor
    };
    let g = f.rotated();
    assert(f.seen(m) == f.older.len() + g.seen(cursor));
    assert(g.unread(cursor) =~= f.unread(m));
    if f.older.len() == 0 {
        assert(f.seen(m) == f.seen(cursor));
    }
}

/// Two changes of generation in a row leave a reader nothing to read.
pub proof fn lemma_two_updates_drop_all<E>(f: EventsView<E>, cursor: nat)
    ensures
        f.rotated().rotated().unread(cursor).len() == 0,
{
}

/// Reading one event at a time consumes exactly that event: past it, the
/// reader has left to read all it had not seen but the first.
pub proof fn lemma_read_next_consumes_one<E>(f: EventsView<E>, cursor: nat)
    requires
        f.unread(cursor).len() > 0,
    ensures
        f.unread(f.unread_id(cursor, 0) + 1) == f.unread(cursor).skip(1),
{
    let next = f.unread_id(cursor, 0) + 1;
    assert(f.seen(next) == f.seen(cursor) + 1);
    assert(f.unread(next) =~= f.unread(cursor).skip(1));
}

/// A reader at the start of a feed sees every event the feed holds.
pub proof fn lemma_fresh_reader_sees_all<E>(f: EventsView<E>)
    ensures
        f.unread(0) == f.entries(),
{
    assert(f.unread(0) =~= f.entries());
}

/// Two removals of one component type, sent with no update between them,
/// are read by a fresh reader after whatever it read before them, in the
/// order they were sent; where the feed held nothing, they are all it reads.
pub proof fn lemma_sends_read_in_order(feeds: RemovalFeeds, id: ComponentId, e1: Entity, e2: Entity)
    ensures
        unread_entities(feed_of(feeds_sent(feeds_sent(feeds, id, e1), id, e2), id), 0)
            == unread_entities(feed_of(feeds, id), 0) + seq![e1, e2],
        unread_entities(feed_of(feeds, id), 0).len() == 0 ==> unread_entities(
            feed_of(feeds_sent(feeds_sent(feeds, id, e1), id, e2), id),
            0,
        ) == seq![e1, e2],
{
    let f = if feeds.contains_key(id) {
        feeds[id]
    } else {
        EventsView::empty()
    };
    let f1 = f.written(RemovedComponentEntity(e1));
    let f2 = f1.written(RemovedComponentEntity(e2));
    assert(feed_of(feeds_sent(feeds_sent(feeds, id, e1), id, e2), id) == Some(f2));
    lemma_write_appends(f, RemovedComponentEntity(e1), 0);
    lemma_write_appends(f1, RemovedComponentEntity(e2), 0);
    let before = f.unread(0).map_values(|e: RemovedComponentEntity| e.0);
    assert(unread_entities(feed_of(feeds, id), 0) == before) by {
        if !feeds.contains_key(id) {
            assert(before =~= Seq::<Entity>::empty());
        }
    }
    assert(f2.unread(0).map_values(|e: RemovedComponentEntity| e.0) =~= before + seq![e1, e2]);
}

/// After a reader read all it had not seen, nothing is left for it to read.
pub proof fn lemma_read_leaves_nothing(feeds: RemovalFeeds, id: ComponentId, cursor: nat)
    ensures
        unread_entities(
            feed_of(feeds, id),
            cursor_after_read(feed_of(feeds, id), cursor),
        ).len() == 0,
{
}

/// A reader with nothing to read keeps having nothing to read across updates
/// and across removals of other component types: only a removal of its own
/// type gives it something.
pub proof fn lemma_nothing_unread_until_sent(
    feeds: RemovalFeeds,
    id: ComponentId,
    other: ComponentId,
    entity: Entity,
    cursor: nat,
)
    requires
        unread_entities(feed_of(feeds, id), cursor).len() == 0,
    ensures
        unread_entities(feed_of(feeds_updated(feeds), id), cursor).len() == 0,
        other != id ==> unread_entities(feed_of(feeds_sent(feeds, other, entity), id), cursor).len()
            == 0,
{
    if feeds.contains_key(id) {
        let f = feeds[id];
        assert(feed_of(feeds_updated(feeds), id) == Some(f.rotated()));
        lemma_update_drops_only_older(f, cursor);
    }
    lemma_other_types_unaffected(feeds, other, id, entity);
}

/// After a reader cleared its feed, every removal it reads has an id at least
/// the count of removals sent before the clear: it never reads one of those.
/// The feeds themselves are not changed by a clear, so a reader that starts
/// afterwards still reads them.
pub proof fn lemma_clear_hides_earlier(
    before: EventsView<RemovedComponentEntity>,
    later: EventsView<RemovedComponentEntity>,
    cursor: nat,
)
    requires
        later.event_count() <= usize::MAX,
    ensures
        unread_entities(Some(before), cursor_after_clear(Some(before), cursor)).len() == 0,
        forall|j: int|
            0 <= j < unread_entities_with_ids(Some(later), cursor_after_clear(Some(before), cursor)).len()
                ==> (#[trigger] unread_entities_with_ids(
                Some(later),
                cursor_after_clear(Some(before), cursor),
            )[j]).1.id >= before.event_count(),
        unread_entities(Some(before), 0) == before.entries().map_values(|e: RemovedComponentEntity| e.0),
{
    let c = before.event_count();
    assert forall|j: int|
        0 <= j < unread_entities_with_ids(Some(later), c).len() implies (
        #[trigger] unread_entities_with_ids(Some(later), c)[j]).1.id >= c by {
        assert(later.seen(c) + later.older_start >= c || later.seen(c) == later.entries().len());
        assert(later.older_start + later.seen(c) + j < later.event_count());
    }
    lemma_fresh_reader_sees_all(before);
}

/// One update between two removals of a type drops neither for a reader that
/// had read all before them; two updates in a row drop every removal sent
/// before them.
pub proof fn lemma_update_between_sends(feeds: RemovalFeeds, id: ComponentId, e1: Entity, e2: Entity, cursor: nat)
    requires
        cursor == (match feed_of(feeds, id) {
            Some(f) => f.event_count(),
            None => 0,
        }),
    ensures
        unread_entities(
            feed_of(feeds_sent(feeds_updated(feeds_sent(feeds, id, e1)), id, e2), id),
            cursor,
        ) == seq![e1, e2],
        unread_entities(
            feed_of(feeds_updated(feeds_updated(feeds_sent(feeds, id, e1))), id),
            cursor,
        ).len() == 0,
{
    let f = if feeds.contains_key(id) {
        feeds[id]
    } else {
        EventsView::empty()
    };
    let f1 = f.written(RemovedComponentEntity(e1));
    let f2 = f1.rotated();
    let f3 = f2.written(RemovedComponentEntity(e2));
    let s1 = feeds_sent(feeds, id, e1);
    assert(feed_of(feeds_updated(s1), id) == Some(f2));
    assert(feed_of(feeds_sent(feeds_updated(s1), id, e2), id) == Some(f3));
    assert(feed_of(feeds_updated(feeds_updated(s1)), id) == Some(f2.rotated()));
    assert(f.unread(cursor) =~= Seq::<RemovedComponentEntity>::empty());
    lemma_write_appends(f, RemovedComponentEntity(e1), cursor);
    lemma_update_drops_only_older(f1, cursor);
    assert(cursor >= f1.newer_start());
    lemma_write_appends(f2, RemovedComponentEntity(e2), cursor);
    assert(f3.unread(cursor).map_values(|e: RemovedComponentEntity| e.0) =~= seq![e1, e2]);
    lemma_two_updates_drop_all(f1, cursor);
}

/// A removal of one component type leaves the feed of every other type as it
/// was, and an update changes the generation of each feed on its own: a
/// reader of one type never sees the removals of another.
pub proof fn lemma_other_types_unaffected(feeds: RemovalFeeds, sent: ComponentId, id: ComponentId, entity: Entity)
    ensures
        sent != id ==> feed_of(feeds_sent(feeds, sent, entity), id) == feed_of(feeds, id),
        feed_of(feeds_updated(feeds), id) == (match feed_of(feeds, id) {
            Some(f) => Some(f.rotated()),
            None => None,
        }),
{
}

} // verus!

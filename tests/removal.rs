use removed_components::entity::{ComponentId, Entity};
use removed_components::event::{EventCursor, EventId, Events};
use removed_components::removal_detection::{
    RemovedComponentEntity, RemovedComponentEvents, RemovedComponentReader, RemovedComponents,
};

struct Health;
struct Armor;

fn e(i: u32) -> Entity {
    Entity::from_raw(i)
}

fn read_once(
    reg: &RemovedComponentEvents,
    id: ComponentId,
    slot: RemovedComponentReader<Health>,
) -> (Vec<Entity>, RemovedComponentReader<Health>) {
    let mut removed = RemovedComponents::new(id, slot, reg);
    let out = removed.read();
    (out, removed.into_reader())
}

#[test]
fn two_sends_read_in_order() {
    let mut reg = RemovedComponentEvents::new();
    let a = ComponentId::new(0);
    reg.send(a, e(1));
    reg.send(a, e(2));
    let (out, _) = read_once(&reg, a, RemovedComponentReader::new());
    assert_eq!(out, vec![e(1), e(2)]);
}

#[test]
fn empty_after_full_read_until_next_send() {
    let mut reg = RemovedComponentEvents::new();
    let a = ComponentId::new(0);
    let b = ComponentId::new(1);
    reg.send(a, e(1));
    reg.send(a, e(2));
    reg.send(a, e(3));
    let mut removed = RemovedComponents::<Health>::new(a, RemovedComponentReader::new(), &reg);
    assert_eq!(removed.len(), 3);
    assert_eq!(removed.read().len(), 3);
    assert!(removed.is_empty());
    assert_eq!(removed.len(), 0);
    let slot = removed.into_reader();
    reg.update();
    reg.send(b, e(9));
    let removed = RemovedComponents::<Health>::new(a, slot, &reg);
    assert!(removed.is_empty());
    let slot = removed.into_reader();
    reg.send(a, e(4));
    let mut removed = RemovedComponents::<Health>::new(a, slot, &reg);
    assert!(!removed.is_empty());
    assert_eq!(removed.read(), vec![e(4)]);
}

#[test]
fn clear_hides_earlier_for_this_reader_only() {
    let mut reg = RemovedComponentEvents::new();
    let a = ComponentId::new(0);
    reg.send(a, e(1));
    reg.send(a, e(2));
    let mut removed = RemovedComponents::<Health>::new(a, RemovedComponentReader::new(), &reg);
    removed.clear();
    assert!(removed.is_empty());
    assert_eq!(removed.read(), Vec::<Entity>::new());
    let slot = removed.into_reader();
    let (fresh, _) = read_once(&reg, a, RemovedComponentReader::new());
    assert_eq!(fresh, vec![e(1), e(2)]);
    reg.send(a, e(3));
    let (after, _) = read_once(&reg, a, slot);
    assert_eq!(after, vec![e(3)]);
}

#[test]
fn one_update_between_bursts_keeps_all() {
    let mut reg = RemovedComponentEvents::new();
    let a = ComponentId::new(0);
    reg.send(a, e(1));
    reg.send(a, e(2));
    reg.update();
    reg.send(a, e(3));
    let (out, _) = read_once(&reg, a, RemovedComponentReader::new());
    assert_eq!(out, vec![e(1), e(2), e(3)]);
}

#[test]
fn two_updates_drop_earlier_burst() {
    let mut reg = RemovedComponentEvents::new();
    let a = ComponentId::new(0);
    reg.send(a, e(1));
    reg.send(a, e(2));
    reg.update();
    reg.send(a, e(3));
    reg.update();
    let (out, _) = read_once(&reg, a, RemovedComponentReader::new());
    assert_eq!(out, vec![e(3)]);
    reg.update();
    let (out, _) = read_once(&reg, a, RemovedComponentReader::new());
    assert_eq!(out, Vec::<Entity>::new());
}

#[test]
fn reader_never_sees_other_type() {
    let mut reg = RemovedComponentEvents::new();
    let a = ComponentId::new(0);
    let b = ComponentId::new(1);
    reg.send(a, e(1));
    reg.send(b, e(2));
    reg.update();
    reg.send(a, e(3));
    let mut removed = RemovedComponents::<Armor>::new(b, RemovedComponentReader::new(), &reg);
    assert_eq!(removed.len(), 1);
    assert_eq!(removed.read(), vec![e(2)]);
}

#[test]
fn health_scenario() {
    let mut reg = RemovedComponentEvents::new();
    let health = ComponentId::new(7);
    reg.send(health, e(5));
    reg.send(health, e(7));
    reg.update();
    let (first, slot) = read_once(&reg, health, RemovedComponentReader::new());
    assert_eq!(first, vec![e(5), e(7)]);
    reg.update();
    let (second, _) = read_once(&reg, health, slot);
    assert_eq!(second, Vec::<Entity>::new());
}

#[test]
fn health_scenario_len() {
    let mut reg = RemovedComponentEvents::new();
    let health = ComponentId::new(7);
    reg.send(health, e(5));
    reg.send(health, e(7));
    let removed = RemovedComponents::<Health>::new(health, RemovedComponentReader::new(), &reg);
    assert_eq!(removed.len(), 2);
    let slot = removed.into_reader();
    reg.update();
    reg.update();
    let removed = RemovedComponents::<Health>::new(health, slot, &reg);
    assert_eq!(removed.len(), 0);
    assert!(removed.is_empty());
}

#[test]
fn absent_feed_reads_as_empty() {
    let reg = RemovedComponentEvents::default();
    let a = ComponentId::new(3);
    assert!(reg.get(a).is_none());
    assert!(reg.iter().is_empty());
    let mut removed = RemovedComponents::<Health>::new(a, RemovedComponentReader::default(), &reg);
    assert_eq!(removed.len(), 0);
    assert!(removed.is_empty());
    assert!(removed.events().is_none());
    assert!(removed.reader_mut_with_events().is_none());
    assert_eq!(removed.read(), Vec::<Entity>::new());
    assert_eq!(removed.read_with_id(), Vec::<(Entity, EventId)>::new());
    removed.clear();
    assert!(removed.is_empty());
}

#[test]
fn read_with_id_pairs_ids() {
    let mut reg = RemovedComponentEvents::new();
    let a = ComponentId::new(0);
    reg.send(a, e(10));
    reg.send(a, e(11));
    reg.update();
    reg.update();
    reg.send(a, e(12));
    reg.send(a, e(13));
    let mut removed = RemovedComponents::<Health>::new(a, RemovedComponentReader::new(), &reg);
    assert_eq!(
        removed.read_with_id(),
        vec![(e(12), EventId { id: 2 }), (e(13), EventId { id: 3 })]
    );
    assert!(removed.is_empty());
    assert_eq!(removed.read_with_id(), Vec::<(Entity, EventId)>::new());
}

#[test]
fn registry_get_and_iter() {
    let mut reg = RemovedComponentEvents::new();
    let a = ComponentId::new(4);
    let b = ComponentId::new(2);
    reg.send(a, e(1));
    reg.send(b, e(2));
    reg.send(a, e(3));
    let fa = reg.get(a).unwrap();
    assert_eq!(fa.len(), 2);
    assert_eq!(fa.event_count(), 2);
    let ids: Vec<usize> = reg.iter().iter().map(|(id, _)| id.index()).collect();
    assert_eq!(ids, vec![4, 2]);
    assert_eq!(reg.iter()[1].1.len(), 1);
    reg.update();
    reg.update();
    assert!(reg.get(a).unwrap().is_empty());
    assert_eq!(reg.get(a).unwrap().event_count(), 2);
    assert_eq!(reg.iter().len(), 2);
}

#[test]
fn reader_access_moves_cursor() {
    let mut reg = RemovedComponentEvents::new();
    let a = ComponentId::new(0);
    reg.send(a, e(1));
    reg.send(a, e(2));
    let mut removed = RemovedComponents::<Health>::new(a, RemovedComponentReader::new(), &reg);
    let events = removed.events().unwrap();
    assert_eq!(removed.reader().len(events), 2);
    removed.reader_mut().clear(events);
    assert!(removed.is_empty());
    let slot = removed.into_reader();
    reg.send(a, e(3));
    let mut removed = RemovedComponents::<Health>::new(a, slot, &reg);
    let (reader, events) = removed.reader_mut_with_events().unwrap();
    assert_eq!(reader.deref().len(events), 1);
    let got = reader.deref_mut().read(events);
    assert_eq!(got, vec![RemovedComponentEntity(e(3))]);
    assert!(removed.is_empty());
}

#[test]
fn events_feed_and_cursor() {
    let mut events: Events<u32> = Events::new();
    assert_eq!(events.write(10), EventId { id: 0 });
    assert_eq!(events.write(11), EventId { id: 1 });
    events.update();
    assert_eq!(events.write(12), EventId { id: 2 });
    assert_eq!(events.oldest_id(), 0);
    let mut cursor = EventCursor::new();
    assert_eq!(cursor.len(&events), 3);
    assert_eq!(cursor.read(&events), vec![10, 11, 12]);
    assert!(cursor.is_empty(&events));
    events.update();
    assert_eq!(events.oldest_id(), 2);
    assert_eq!(events.len(), 1);
    assert_eq!(EventCursor::new().read_with_id(&events), vec![(12, EventId { id: 2 })]);
    events.update();
    assert!(events.is_empty());
    assert_eq!(EventCursor::new().read(&events), Vec::<u32>::new());
}

#[test]
fn removed_entity_converts_to_entity() {
    let removed = RemovedComponentEntity(Entity { index: 3, generation: 2 });
    let entity: Entity = removed.into();
    assert_eq!(entity, Entity { index: 3, generation: 2 });
    assert_eq!(ComponentId::new(8).index(), 8);
}

#[test]
fn stepwise_read_keeps_the_rest() {
    let mut reg = RemovedComponentEvents::new();
    let a = ComponentId::new(0);
    reg.send(a, e(1));
    reg.send(a, e(2));
    reg.send(a, e(3));
    let mut removed = RemovedComponents::<Health>::new(a, RemovedComponentReader::new(), &reg);
    assert_eq!(removed.read_next(), Some(e(1)));
    assert_eq!(removed.len(), 2);
    assert_eq!(removed.read(), vec![e(2), e(3)]);
    assert_eq!(removed.read_next(), None);
    let absent = RemovedComponentEvents::new();
    let mut none = RemovedComponents::<Health>::new(a, RemovedComponentReader::new(), &absent);
    assert_eq!(none.read_next(), None);
}

#[test]
fn cursor_read_next_skips_expired() {
    let mut events: Events<u32> = Events::new();
    events.write(1);
    events.update();
    events.update();
    events.write(2);
    let mut cursor = EventCursor::new();
    assert_eq!(cursor.read_next(&events), Some((2, EventId { id: 1 })));
    assert_eq!(cursor.read_next(&events), None);
    events.write(3);
    assert_eq!(cursor.read_next(&events), Some((3, EventId { id: 2 })));
}

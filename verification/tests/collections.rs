use ddp::collection::{Collection, Listener, ListenerId};
use ddp::json::Json;
use ddp::methods::Methods;
use ddp::queue::OutboundQueue;
use ddp::random::Random;
use ddp::subscriptions::Subscriptions;

type Plain = Collection<&'static str, &'static str, &'static str>;

fn rng() -> Random {
    Random::new().expect("the operating system's random source")
}

#[test]
fn a_new_collection_is_empty() {
    let c = Plain::new("items".to_string());
    assert_eq!(c.name(), "items");
    assert_eq!(c.sub_id(), None);
    assert!(c.has_room());
    assert!(c.notify_insert().is_empty());
    assert!(c.notify_change().is_empty());
    assert!(c.notify_remove().is_empty());
}

#[test]
fn keys_are_handed_out_in_turn_across_kinds() {
    let mut c = Plain::new("items".to_string());
    assert_eq!(c.on_add("a1"), ListenerId(Listener::Inserted, 1));
    assert_eq!(c.on_remove("r1"), ListenerId(Listener::Removed, 2));
    assert_eq!(c.on_change("c1"), ListenerId(Listener::Changed, 3));
    assert_eq!(c.on_add("a2"), ListenerId(Listener::Inserted, 4));
    assert_eq!(c.notify_insert(), vec![1, 4]);
    assert_eq!(c.notify_remove(), vec![2]);
    assert_eq!(c.notify_change(), vec![3]);
    assert_eq!(c.added_listener(1), Some(&"a1"));
    assert_eq!(c.added_listener(4), Some(&"a2"));
    assert_eq!(c.removed_listener(2), Some(&"r1"));
    assert_eq!(c.changed_listener(3), Some(&"c1"));
    assert_eq!(c.added_listener(2), None);
    assert_eq!(c.changed_listener(1), None);
    assert_eq!(c.removed_listener(0), None);
}

#[test]
fn clearing_takes_only_the_listener_of_that_kind_and_key() {
    let mut c = Plain::new("items".to_string());
    let a1 = c.on_add("a1");
    let r1 = c.on_remove("r1");
    let c1 = c.on_change("c1");
    c.clear_listener(ListenerId(Listener::Inserted, r1.1));
    c.clear_listener(ListenerId(Listener::Removed, c1.1));
    c.clear_listener(ListenerId(Listener::Changed, a1.1));
    assert_eq!(c.notify_insert(), vec![1]);
    assert_eq!(c.notify_remove(), vec![2]);
    assert_eq!(c.notify_change(), vec![3]);
    c.clear_listener(r1);
    assert_eq!(c.notify_insert(), vec![1]);
    assert!(c.notify_remove().is_empty());
    assert_eq!(c.notify_change(), vec![3]);
    c.clear_listener(a1);
    c.clear_listener(c1);
    assert!(c.notify_insert().is_empty());
    assert!(c.notify_change().is_empty());
    assert_eq!(c.on_add("a2"), ListenerId(Listener::Inserted, 4));
}

#[test]
fn crud_calls_name_the_collection() {
    let mut queue = OutboundQueue::new();
    let mut methods: Methods<u32> = Methods::new(rng());
    let c = Plain::new("MongoColl".to_string());
    let record = Json::Object(vec![(
        "first ever meteor data from rust".to_string(),
        Json::Bool(true),
    )]);
    let modifier = Json::Object(vec![("$set".to_string(), Json::Null)]);
    let i = c.insert(&mut methods, &mut queue, &record, 1);
    let u = c.update(&mut methods, &mut queue, &record, &modifier, 2);
    let s = c.upsert(&mut methods, &mut queue, &record, &modifier, 3);
    let r = c.remove(&mut methods, &mut queue, &record, 4);
    let rec = "{\"first ever meteor data from rust\":true}";
    let modi = "{\"$set\":null}";
    assert_eq!(
        queue.recv(),
        Some(format!("{{\"msg\":\"method\",\"id\":\"{}\",\"method\":\"/MongoColl/insert\",\"params\":[{}]}}", i, rec))
    );
    assert_eq!(
        queue.recv(),
        Some(format!("{{\"msg\":\"method\",\"id\":\"{}\",\"method\":\"/MongoColl/update\",\"params\":[{},{}]}}", u, rec, modi))
    );
    assert_eq!(
        queue.recv(),
        Some(format!("{{\"msg\":\"method\",\"id\":\"{}\",\"method\":\"/MongoColl/upsert\",\"params\":[{},{}]}}", s, rec, modi))
    );
    assert_eq!(
        queue.recv(),
        Some(format!("{{\"msg\":\"method\",\"id\":\"{}\",\"method\":\"/MongoColl/remove\",\"params\":[{}]}}", r, rec))
    );
    assert_eq!(methods.apply(&i), Some(1));
    assert_eq!(methods.apply(&u), Some(2));
    assert_eq!(methods.apply(&s), Some(3));
    assert_eq!(methods.apply(&r), Some(4));
}

#[test]
fn subscribe_on_ready_unsubscribe() {
    let mut queue = OutboundQueue::new();
    let mut subs: Subscriptions<u32> = Subscriptions::new(rng());
    let mut c = Plain::new("items".to_string());
    c.unsubscribe(&subs, &mut queue);
    assert_eq!(queue.len(), 0);
    c.on_ready(&mut subs, 1);
    let id = c.sub_id().expect("an id").to_string();
    c.subscribe(&mut subs, &mut queue);
    assert_eq!(c.sub_id(), Some(id.as_str()));
    c.on_ready(&mut subs, 2);
    assert_eq!(queue.recv(), Some(format!("{{\"msg\":\"sub\",\"id\":\"{}\",\"name\":\"items\"}}", id)));
    c.unsubscribe(&subs, &mut queue);
    assert_eq!(c.sub_id(), None);
    assert_eq!(queue.recv(), Some(format!("{{\"msg\":\"unsub\",\"id\":\"{}\"}}", id)));
    c.unsubscribe(&subs, &mut queue);
    assert_eq!(queue.recv(), None);
    assert_eq!(subs.relay(&id), vec![2, 1]);
    assert_eq!(c.name(), "items");
}

use ddp::crash::OnDrop;
use ddp::json::Json;
use ddp::listeners::Listeners;
use ddp::methods::Methods;
use ddp::queue::OutboundQueue;
use ddp::random::Random;
use ddp::subscriptions::Subscriptions;
use ddp::table::Table;

fn rng() -> Random {
    Random::new().expect("the operating system's random source")
}

#[test]
fn a_queue_gives_frames_back_oldest_first() {
    let mut queue = OutboundQueue::new();
    assert_eq!(queue.len(), 0);
    assert_eq!(queue.recv(), None);
    queue.send("a".to_string());
    queue.send("b".to_string());
    assert_eq!(queue.len(), 2);
    assert_eq!(queue.recv(), Some("a".to_string()));
    queue.send("c".to_string());
    assert_eq!(queue.recv(), Some("b".to_string()));
    assert_eq!(queue.recv(), Some("c".to_string()));
    assert_eq!(queue.recv(), None);
    assert_eq!(queue.len(), 0);
}

#[test]
fn a_queue_keeps_equal_frames_apart() {
    let mut queue = OutboundQueue::new();
    queue.send("x".to_string());
    queue.send("x".to_string());
    assert_eq!(queue.len(), 2);
    assert_eq!(queue.recv(), Some("x".to_string()));
    assert_eq!(queue.recv(), Some("x".to_string()));
    assert_eq!(queue.recv(), None);
}

#[test]
fn a_table_holds_each_key_once() {
    let mut table: Table<u32> = Table::new();
    assert!(!table.contains_key("a"));
    assert_eq!(table.get("a"), None);
    assert_eq!(table.insert("a".to_string(), 1), None);
    assert_eq!(table.insert("b".to_string(), 2), None);
    assert_eq!(table.insert("a".to_string(), 3), Some(1));
    assert_eq!(table.get("a"), Some(&3));
    assert_eq!(table.get("b"), Some(&2));
    assert!(table.contains_key("b"));
    assert_eq!(table.remove("a"), Some(3));
    assert_eq!(table.remove("a"), None);
    assert_eq!(table.get("a"), None);
    assert_eq!(table.get("b"), Some(&2));
    assert_eq!(table.remove("missing"), None);
}

#[test]
fn a_table_tells_keys_apart_by_every_character() {
    let mut table: Table<u32> = Table::new();
    table.insert("".to_string(), 0);
    table.insert("a".to_string(), 1);
    table.insert("A".to_string(), 2);
    table.insert("a ".to_string(), 3);
    assert_eq!(table.get(""), Some(&0));
    assert_eq!(table.get("a"), Some(&1));
    assert_eq!(table.get("A"), Some(&2));
    assert_eq!(table.get("a "), Some(&3));
}

#[test]
fn listeners_keep_their_order_and_keys() {
    let mut table: Listeners<&str> = Listeners::new();
    assert!(table.keys().is_empty());
    table.insert(1, "one");
    table.insert(4, "four");
    table.insert(9, "nine");
    assert_eq!(table.keys(), vec![1, 4, 9]);
    assert_eq!(table.get(4), Some(&"four"));
    assert_eq!(table.get(5), None);
    assert_eq!(table.remove(4), Some("four"));
    assert_eq!(table.remove(4), None);
    assert_eq!(table.keys(), vec![1, 9]);
    assert_eq!(table.get(1), Some(&"one"));
    assert_eq!(table.get(9), Some(&"nine"));
    assert_eq!(table.remove(1), Some("one"));
    assert_eq!(table.remove(9), Some("nine"));
    assert!(table.keys().is_empty());
}

#[test]
fn methods_hand_each_handler_out_once() {
    let mut queue = OutboundQueue::new();
    let mut methods: Methods<&str> = Methods::new(rng());
    let a = methods.send(&mut queue, "m", None, "first");
    let b = methods.send(&mut queue, "m", None, "second");
    assert!(methods.is_pending(&a));
    assert!(methods.is_pending(&b));
    assert!(!methods.is_pending("nobody"));
    assert_eq!(methods.apply(&b), Some("second"));
    assert_eq!(methods.apply(&b), None);
    assert!(!methods.is_pending(&b));
    assert_eq!(methods.apply("nobody"), None);
    assert_eq!(methods.apply(&a), Some("first"));
    assert_eq!(queue.len(), 2);
}

#[test]
fn methods_send_under_a_given_id() {
    let mut queue = OutboundQueue::new();
    let mut methods: Methods<u32> = Methods::new(rng());
    let arg = Json::Text("x".to_string());
    methods.send_as(&mut queue, "id-1".to_string(), "echo", Some(&vec![&arg]), 1);
    assert_eq!(
        queue.recv(),
        Some("{\"msg\":\"method\",\"id\":\"id-1\",\"method\":\"echo\",\"params\":[\"x\"]}".to_string())
    );
    methods.send_as(&mut queue, "id-1".to_string(), "echo", None, 2);
    assert_eq!(methods.apply("id-1"), Some(2));
    assert_eq!(methods.apply("id-1"), None);
}

#[test]
fn subscriptions_fill_an_empty_slot_once() {
    let mut queue = OutboundQueue::new();
    let mut subs: Subscriptions<u32> = Subscriptions::new(rng());
    let mut slot: Option<String> = None;
    subs.sub(&mut queue, "items", &mut slot);
    let id = slot.clone().expect("an id");
    assert_eq!(id.chars().count(), 17);
    subs.sub(&mut queue, "items", &mut slot);
    assert_eq!(slot, Some(id.clone()));
    let frame = format!("{{\"msg\":\"sub\",\"id\":\"{}\",\"name\":\"items\"}}", id);
    assert_eq!(queue.recv(), Some(frame.clone()));
    assert_eq!(queue.recv(), Some(frame));
    assert_eq!(queue.recv(), None);
}

#[test]
fn subscriptions_notify_in_the_order_of_the_list() {
    let mut subs: Subscriptions<u32> = Subscriptions::new(rng());
    subs.open_profile("a".to_string());
    subs.open_profile("b".to_string());
    subs.listen("a", 1);
    subs.listen("b", 2);
    subs.listen("a", 3);
    subs.listen("nobody", 9);
    assert_eq!(subs.notify(Ok(vec!["b", "zzz", "a", "b"])), vec![2, 3, 1]);
    assert_eq!(subs.notify(Ok(vec!["a", "b"])), Vec::<u32>::new());
    assert_eq!(subs.notify(Ok(vec![])), Vec::<u32>::new());
}

#[test]
fn subscriptions_notify_a_failure() {
    let mut subs: Subscriptions<u32> = Subscriptions::new(rng());
    subs.open_profile("a".to_string());
    subs.open_profile("b".to_string());
    subs.listen("a", 1);
    subs.listen("a", 2);
    subs.listen("b", 3);
    let error = Json::Text("no such publication".to_string());
    assert_eq!(subs.notify(Err(("a", &error))), vec![2, 1]);
    assert_eq!(subs.notify(Err(("a", &error))), Vec::<u32>::new());
    assert_eq!(subs.relay("b"), vec![3]);
    assert_eq!(subs.relay("b"), Vec::<u32>::new());
}

#[test]
fn opening_a_profile_again_drops_who_waited() {
    let mut subs: Subscriptions<u32> = Subscriptions::new(rng());
    subs.open_profile("a".to_string());
    subs.listen("a", 1);
    subs.open_profile("a".to_string());
    subs.listen("a", 2);
    assert_eq!(subs.relay("a"), vec![2]);
}

#[test]
fn add_listener_fills_the_slot_and_waits() {
    let mut subs: Subscriptions<u32> = Subscriptions::new(rng());
    let mut slot: Option<String> = None;
    subs.add_listener(&mut slot, 1);
    let id = slot.clone().expect("an id");
    subs.add_listener(&mut slot, 2);
    assert_eq!(slot, Some(id.clone()));
    assert_eq!(subs.relay(&id), vec![2, 1]);
    subs.add_listener(&mut slot, 3);
    assert_eq!(subs.relay(&id), Vec::<u32>::new());
}

#[test]
fn create_profile_draws_a_fresh_id_each_time() {
    let mut subs: Subscriptions<u32> = Subscriptions::new(rng());
    let mut slot: Option<String> = None;
    subs.create_profile(&mut slot);
    let first = slot.clone().unwrap();
    subs.create_profile(&mut slot);
    let second = slot.clone().unwrap();
    assert_eq!(first.chars().count(), 17);
    assert_eq!(second.chars().count(), 17);
    assert_ne!(first, second);
}

#[test]
fn unsub_sends_the_frame() {
    let mut queue = OutboundQueue::new();
    let subs: Subscriptions<u32> = Subscriptions::new(rng());
    subs.unsub(&mut queue, "s9");
    assert_eq!(queue.recv(), Some("{\"msg\":\"unsub\",\"id\":\"s9\"}".to_string()));
}

#[test]
fn the_crash_hook_is_handed_out_once() {
    let mut signal = OnDrop::new("hook");
    assert_eq!(signal.consume(), Some("hook"));
    assert_eq!(signal.consume(), None);
    assert_eq!(signal.consume(), None);
}

#[test]
fn the_crash_hook_runs_once_for_two_reports() {
    let mut runs = 0;
    let mut signal = OnDrop::new(|| 1);
    for _ in 0..2 {
        if let Some(hook) = signal.consume() {
            runs += hook();
        }
    }
    assert_eq!(runs, 1);
}

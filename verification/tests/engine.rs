use orbita::engine::{EngineConfig, EventBus, Resources};
use orbita::game::player::Player;

#[test]
fn default_config() {
    let c = EngineConfig::default();
    assert_eq!(c.w, 640);
    assert_eq!(c.h, 480);
    assert_eq!(c.title, "Game");
    assert!(!c.fullscreen);
    assert!(!c.resizable);
}

#[test]
fn default_player_has_no_camera() {
    assert!(!Player::default().camera);
}

#[test]
fn resources_insert_overwrites() {
    let mut r: Resources<u64, String> = Resources::new();
    assert!(r.get(&1).is_none());
    r.insert(1, "seed".to_string());
    r.insert(2, "camera".to_string());
    assert_eq!(r.get(&1).map(|s| s.as_str()), Some("seed"));
    r.insert(1, "other".to_string());
    assert_eq!(r.get(&1).map(|s| s.as_str()), Some("other"));
    r.get_mut(&2).unwrap().push_str("!");
    assert_eq!(r.get(&2).map(|s| s.as_str()), Some("camera!"));
    assert_eq!(r.remove(&1), Some("other".to_string()));
    assert!(r.get(&1).is_none());
    assert_eq!(r.remove(&1), None);
    assert!(r.get_mut(&1).is_none());
    let d: Resources<u64, u8> = Resources::default();
    assert!(d.get(&0).is_none());
}

#[test]
fn subscription_ids_count_up_from_one() {
    let mut bus: EventBus<u8, &str, i32> = EventBus::default();
    assert_eq!(bus.next_subscription_id(), 1);
    assert_eq!(bus.subscribe(0, "a"), 1);
    assert_eq!(bus.subscribe(1, "b"), 2);
    assert_eq!(bus.subscribe(0, "c"), 3);
    assert_eq!(bus.next_subscription_id(), 4);
    assert_eq!(bus.listener(&0, 3), Some(&"c"));
    assert_eq!(bus.listener(&1, 3), None);
}

#[test]
fn unsubscribe_reports_whether_it_removed() {
    let mut bus: EventBus<u8, &str, i32> = EventBus::default();
    let a = bus.subscribe(0, "a");
    let b = bus.subscribe(0, "b");
    assert!(!bus.unsubscribe(&1, a));
    assert!(bus.unsubscribe(&0, a));
    assert!(!bus.unsubscribe(&0, a));
    assert_eq!(bus.listener(&0, a), None);
    assert_eq!(bus.listener(&0, b), Some(&"b"));
    assert!(!bus.unsubscribe(&5, 99));
}

#[test]
fn dispatch_delivers_in_order() {
    let mut bus: EventBus<u8, &str, i32> = EventBus::default();
    let a = bus.subscribe(0, "a");
    let b = bus.subscribe(1, "b");
    let c = bus.subscribe(0, "c");
    bus.emit(0, 10);
    bus.emit(1, 20);
    bus.emit(2, 30);
    let out = bus.dispatch();
    assert_eq!(out.len(), 3);
    assert_eq!((out[0].key, out[0].event), (0, 10));
    assert_eq!(out[0].subscribers, vec![a, c]);
    assert_eq!((out[1].key, out[1].event), (1, 20));
    assert_eq!(out[1].subscribers, vec![b]);
    assert_eq!((out[2].key, out[2].event), (2, 30));
    assert!(out[2].subscribers.is_empty());
    assert!(bus.dispatch().is_empty());
}

#[test]
fn clear_drops_listeners_but_keeps_queue() {
    let mut bus: EventBus<u8, &str, i32> = EventBus::default();
    bus.subscribe(0, "a");
    bus.emit(0, 1);
    bus.clear();
    let out = bus.dispatch();
    assert_eq!(out.len(), 1);
    assert!(out[0].subscribers.is_empty());
    assert_eq!(bus.subscribe(0, "b"), 2);
}

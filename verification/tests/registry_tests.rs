use relay::addr::{format_key, ConnKey, Ipv4};
use relay::registry::{RegEntry, Registry, WriterHandle};
use relay::session::Session;
use relay::sweeper::{evict_failed, failed_entries};

fn key(a: u8, b: u8, c: u8, d: u8, port: u16) -> ConnKey {
    ConnKey { ip: Ipv4 { a, b, c, d }, port }
}

#[test]
fn register_then_lookup_returns_registered_writer() {
    let mut reg = Registry::new();
    let k1 = key(127, 0, 0, 1, 51000);
    let k2 = key(10, 0, 0, 5, 7000);
    let w1 = WriterHandle { id: 1 };
    let w2 = WriterHandle { id: 2 };
    reg.register(k1, w1);
    reg.register(k2, w2);
    assert_eq!(reg.lookup(k1), Some(w1));
    assert_eq!(reg.lookup(k2), Some(w2));
    assert_eq!(reg.lookup(key(9, 9, 9, 9, 1)), None);
}

#[test]
fn reregister_same_key_returns_new_writer() {
    let mut reg = Registry::new();
    let k = key(127, 0, 0, 1, 51000);
    let w_old = WriterHandle { id: 1 };
    let w_new = WriterHandle { id: 2 };
    reg.register(k, w_old);
    assert_eq!(reg.lookup(k), Some(w_old));
    reg.register(k, w_new);
    assert_eq!(reg.lookup(k), Some(w_new));
    // The old handle's identity is untouched by the registry mutation.
    assert_eq!(w_old, WriterHandle { id: 1 });
    assert_eq!(reg.len(), 1);
}

#[test]
fn remove_if_with_stale_identity_is_a_noop() {
    let mut reg = Registry::new();
    let k = key(127, 0, 0, 1, 51000);
    let w_old = WriterHandle { id: 1 };
    let w_new = WriterHandle { id: 2 };
    reg.register(k, w_old);
    reg.register(k, w_new);
    // A stale session trying to evict with the identity it registered.
    assert!(!reg.remove_if(k, w_old));
    assert_eq!(reg.lookup(k), Some(w_new));
    // The live identity removes; doing it twice is a no-op, not an error.
    assert!(reg.remove_if(k, w_new));
    assert!(!reg.remove_if(k, w_new));
    assert_eq!(reg.lookup(k), None);
}

#[test]
fn lookup_by_ip_matches_address_half() {
    let mut reg = Registry::new();
    let ka = key(127, 0, 0, 1, 51000);
    let kb = key(10, 0, 0, 5, 7000);
    reg.register(ka, WriterHandle { id: 1 });
    reg.register(kb, WriterHandle { id: 2 });
    let hit = reg.lookup_by_ip(Ipv4 { a: 10, b: 0, c: 0, d: 5 }).unwrap();
    assert_eq!(hit.0, kb);
    assert_eq!(hit.1, WriterHandle { id: 2 });
    assert!(reg.lookup_by_ip(Ipv4 { a: 8, b: 8, c: 8, d: 8 }).is_none());
}

#[test]
fn session_lifecycle_removes_key_on_exit() {
    let mut reg = Registry::new();
    let k = key(127, 0, 0, 1, 51000);
    let w = WriterHandle { id: 1 };
    let mut session = Session::accept(k, w);
    session.register(&mut reg);
    session.start_reading();
    assert_eq!(reg.lookup(k), Some(w));
    session.close();
    assert!(session.deregister(&mut reg));
    let keys = reg.snapshot_keys();
    assert!(!keys.contains(&format_key(k)));
    assert_eq!(reg.lookup(k), None);
}

#[test]
fn stale_session_cleanup_keeps_reconnected_entry() {
    let mut reg = Registry::new();
    let k = key(127, 0, 0, 1, 51000);
    let mut old_session = Session::accept(k, WriterHandle { id: 1 });
    old_session.register(&mut reg);
    old_session.start_reading();
    // The client reconnects from the same address before the old session
    // cleans up.
    let mut new_session = Session::accept(k, WriterHandle { id: 2 });
    new_session.register(&mut reg);
    new_session.start_reading();
    old_session.close();
    assert!(!old_session.deregister(&mut reg));
    assert_eq!(reg.lookup(k), Some(WriterHandle { id: 2 }));
}

#[test]
fn sweeper_evicts_only_failed_matching_entries() {
    let mut reg = Registry::new();
    let ka = key(127, 0, 0, 1, 51000);
    let kb = key(10, 0, 0, 5, 7000);
    let kc = key(192, 168, 1, 9, 4242);
    reg.register(ka, WriterHandle { id: 1 });
    reg.register(kb, WriterHandle { id: 2 });
    reg.register(kc, WriterHandle { id: 3 });
    let probes = reg.snapshot_entries();
    // The probe writes to a and c failed, b succeeded.
    let results: Vec<bool> = probes
        .iter()
        .map(|e| e.key == kb)
        .collect();
    let failed = failed_entries(&probes, &results);
    assert_eq!(failed.len(), 2);
    // c reconnected between probe and removal: its entry must survive.
    reg.register(kc, WriterHandle { id: 4 });
    evict_failed(&mut reg, &failed);
    assert_eq!(reg.lookup(ka), None);
    assert_eq!(reg.lookup(kb), Some(WriterHandle { id: 2 }));
    assert_eq!(reg.lookup(kc), Some(WriterHandle { id: 4 }));
    let keys = reg.snapshot_keys();
    assert!(!keys.contains(&format_key(ka)));
    assert!(keys.contains(&format_key(kb)));
    assert!(keys.contains(&String::from("10.0.0.5:7000")));
}

#[test]
fn snapshot_entries_reflects_contents() {
    let mut reg = Registry::new();
    let ka = key(1, 2, 3, 4, 5);
    reg.register(ka, WriterHandle { id: 7 });
    let entries = reg.snapshot_entries();
    assert_eq!(entries.len(), 1);
    assert_eq!(entries[0], RegEntry { key: ka, writer: WriterHandle { id: 7 } });
}

use hot_lib_reloader::lib_reloader::hash_file_bytes;
use hot_lib_reloader::{ChangedEvent, LibReloader, LibReloadNotifier, Platform};

#[test]
fn broadcast_with_no_subscribers_completes_at_once() {
    let mut bus = LibReloadNotifier::new();
    let out = bus.send_about_to_reload_event_and_wait_for_blocks();
    assert!(out.is_empty());
    assert!(!bus.blocks_pending());
}

#[test]
fn about_to_reload_hands_each_subscriber_a_token() {
    let mut bus = LibReloadNotifier::new();
    let mut first = bus.subscribe();
    let mut second = bus.subscribe();
    assert_eq!(first.id(), 0);
    assert_eq!(second.id(), 1);

    let out = bus.send_about_to_reload_event_and_wait_for_blocks();
    assert_eq!(out.len(), 2);
    assert!(bus.blocks_pending());

    // the host routes each event to its subscriber
    for (id, event) in out {
        if id == first.id() {
            first.receive(event);
        } else {
            assert_eq!(id, second.id());
            second.receive(event);
        }
    }

    let token_a = first.wait_for_about_to_reload();
    let token_b = second.wait_for_about_to_reload();
    assert_eq!(token_a.cycle, 1);
    assert_eq!(token_b.cycle, 1);

    bus.release_block(token_a);
    assert!(bus.blocks_pending());
    bus.release_block(token_b);
    assert!(!bus.blocks_pending());
}

#[test]
fn cloned_tokens_block_until_each_is_released() {
    let mut bus = LibReloadNotifier::new();
    let mut obs = bus.subscribe();
    let out = bus.send_about_to_reload_event_and_wait_for_blocks();
    assert_eq!(out.len(), 1);
    for (_, event) in out {
        obs.receive(event);
    }
    let token = obs.wait_for_about_to_reload();
    let copy = bus.clone_block(&token);
    bus.release_block(token);
    assert!(bus.blocks_pending());
    bus.release_block(copy);
    assert!(!bus.blocks_pending());
}

#[test]
fn disconnected_subscribers_are_pruned_at_broadcast() {
    let mut bus = LibReloadNotifier::new();
    let first = bus.subscribe();
    let second = bus.subscribe();
    // the first observer goes away; the host reports the failed delivery
    bus.disconnect(first.id());
    let out = bus.send_reloaded_event();
    assert_eq!(out.len(), 1);
    assert_eq!(out[0].0, second.id());
    assert!(matches!(out[0].1, ChangedEvent::LibReloaded));
    assert!(!bus.blocks_pending());
}

#[test]
fn waits_skip_events_of_the_other_kind() {
    let mut bus = LibReloadNotifier::new();
    let mut obs = bus.subscribe();

    // a whole cycle is delivered before the subscriber looks
    let about = bus.send_about_to_reload_event_and_wait_for_blocks();
    for (_, event) in about {
        obs.receive(event);
    }
    let reloaded = bus.send_reloaded_event();
    for (_, event) in reloaded {
        obs.receive(event);
    }

    // waiting for the finished reload discards the stale token, which the
    // host releases against the notifier
    let dropped = obs.wait_for_reload();
    assert_eq!(dropped.len(), 1);
    assert!(bus.blocks_pending());
    for token in dropped {
        bus.release_block(token);
    }
    assert!(!bus.blocks_pending());

    // a reloaded event queued before an about-to-reload one is skipped by
    // the about-to-reload wait
    obs.receive(ChangedEvent::LibReloaded);
    let about = bus.send_about_to_reload_event_and_wait_for_blocks();
    for (_, event) in about {
        obs.receive(event);
    }
    let token = obs.wait_for_about_to_reload();
    assert_eq!(token.cycle, 2);
    bus.release_block(token);
    assert!(!bus.blocks_pending());
}

#[test]
fn timeout_waits_report_nothing_on_an_empty_inbox() {
    let mut bus = LibReloadNotifier::new();
    let mut obs = bus.subscribe();
    assert!(obs.wait_for_about_to_reload_timeout().is_none());
    let (seen, dropped) = obs.wait_for_reload_timeout();
    assert!(!seen);
    assert!(dropped.is_empty());

    let out = bus.send_about_to_reload_event_and_wait_for_blocks();
    for (_, event) in out {
        obs.receive(event);
    }
    let token = obs.wait_for_about_to_reload_timeout().expect("event was delivered");
    bus.release_block(token);
}

#[test]
fn block_token_gates_reload() {
    // one thread of the host drives the manager, another holds a token; the
    // interleaving below is the protocol both follow
    let mut m = LibReloader::new("target/debug", "lib", Platform::Linux, Some(1));
    let mut bus = LibReloadNotifier::new();
    let mut obs = bus.subscribe();

    let bytes = b"new build".to_vec();
    let new_hash = hash_file_bytes(Some(&bytes));
    assert!(m.signal_change(new_hash));
    assert!(m.update());

    // the manager announces the reload; the subscriber takes the token
    let out = bus.send_about_to_reload_event_and_wait_for_blocks();
    for (_, event) in out {
        obs.receive(event);
    }
    let token = obs.wait_for_about_to_reload();

    // while the token is held the reload may not proceed: the old
    // generation stays current
    assert!(bus.blocks_pending());
    assert_eq!(m.loaded_library_generation(), Ok(0));

    // the subscriber finishes its preparations and drops the token
    bus.release_block(token);
    assert!(!bus.blocks_pending());

    // now the manager performs the swap and announces it
    let stale = m.complete_reload(new_hash);
    assert_eq!(
        stale.expect("generation 0 was loaded").as_str(),
        "target/debug/liblib-hot-0.so"
    );
    let out = bus.send_reloaded_event();
    for (_, event) in out {
        obs.receive(event);
    }
    let dropped = obs.wait_for_reload();
    assert!(dropped.is_empty());
    assert_eq!(m.loaded_library_generation(), Ok(1));
}

use coerce::remote::cluster::singleton::proxy::{
    Proxy, ProxyState, SingletonStarted, SingletonStopping,
};

/// What the singleton at a reference has been sent, in order.
fn deliver(observed: &mut Vec<(u8, &'static str)>, proxy: &Proxy<u8, &'static str>, due: Vec<&'static str>) {
    for request in due {
        let actor_ref = proxy.actor_ref().expect("requests are due only for a live reference");
        observed.push((*actor_ref, request));
    }
}

#[test]
fn new_proxy_keeps_requests_and_has_none() {
    let proxy: Proxy<u8, &'static str> = Proxy::new();
    assert!(!proxy.state().is_active());
    assert!(proxy.actor_ref().is_none());
    match proxy.state() {
        ProxyState::Buffered { request_queue } => assert!(request_queue.is_empty()),
        ProxyState::Active { .. } => panic!("a new proxy is not active"),
    }
}

#[test]
fn is_active_tells_the_states_apart() {
    let buffered: ProxyState<u8, u8> = ProxyState::Buffered { request_queue: Default::default() };
    let active: ProxyState<u8, u8> = ProxyState::Active { actor_ref: 1 };
    assert!(!buffered.is_active());
    assert!(active.is_active());
}

#[test]
fn buffered_requests_reach_the_singleton_before_later_ones() {
    let mut proxy: Proxy<u8, &'static str> = Proxy::new();
    let mut observed = Vec::new();
    for request in ["m1", "m2", "m3"] {
        let due = proxy.send(request);
        assert!(due.is_none());
    }
    let due = proxy.handle_started(SingletonStarted { actor_ref: 9 });
    assert_eq!(due, vec!["m1", "m2", "m3"]);
    deliver(&mut observed, &proxy, due);
    assert!(proxy.state().is_active());
    let due = proxy.send("m4");
    assert_eq!(due, Some("m4"));
    deliver(&mut observed, &proxy, due.into_iter().collect());
    assert_eq!(observed, vec![(9, "m1"), (9, "m2"), (9, "m3"), (9, "m4")]);
}

#[test]
fn started_without_waiting_requests_hands_out_nothing() {
    let mut proxy: Proxy<u8, u32> = Proxy::new();
    let due = proxy.handle_started(SingletonStarted { actor_ref: 1 });
    assert!(due.is_empty());
    assert_eq!(proxy.actor_ref(), Some(&1));
}

#[test]
fn started_again_replaces_the_reference() {
    let mut proxy: Proxy<u8, u32> = Proxy::new();
    proxy.handle_started(SingletonStarted { actor_ref: 1 });
    let due = proxy.handle_started(SingletonStarted { actor_ref: 2 });
    assert!(due.is_empty());
    assert_eq!(proxy.actor_ref(), Some(&2));
    assert_eq!(proxy.send(5), Some(5));
}

#[test]
fn stopping_makes_an_active_proxy_keep_requests_again() {
    let mut proxy: Proxy<u8, u32> = Proxy::new();
    proxy.send(1);
    assert_eq!(proxy.handle_started(SingletonStarted { actor_ref: 1 }), vec![1]);
    proxy.handle_stopping(SingletonStopping {});
    assert!(!proxy.state().is_active());
    assert!(proxy.actor_ref().is_none());
    match proxy.state() {
        ProxyState::Buffered { request_queue } => assert!(request_queue.is_empty()),
        ProxyState::Active { .. } => panic!("the proxy was told that the singleton stops"),
    }
    assert_eq!(proxy.send(2), None);
    assert_eq!(proxy.send(3), None);
    assert_eq!(proxy.handle_started(SingletonStarted { actor_ref: 4 }), vec![2, 3]);
    assert_eq!(proxy.actor_ref(), Some(&4));
}

#[test]
fn stopping_keeps_what_a_buffering_proxy_holds() {
    let mut proxy: Proxy<u8, u32> = Proxy::new();
    proxy.send(1);
    proxy.send(2);
    proxy.handle_stopping(SingletonStopping {});
    match proxy.state() {
        ProxyState::Buffered { request_queue } => {
            assert_eq!(request_queue.iter().copied().collect::<Vec<u32>>(), vec![1, 2])
        }
        ProxyState::Active { .. } => panic!("the proxy never learnt of a singleton"),
    }
    assert_eq!(proxy.handle_started(SingletonStarted { actor_ref: 7 }), vec![1, 2]);
}

#[test]
fn nothing_is_lost_or_reordered_over_several_episodes() {
    let mut proxy: Proxy<u8, u32> = Proxy::new();
    let mut handed: Vec<u32> = Vec::new();
    let mut sent: Vec<u32> = Vec::new();
    let mut next = 0;
    for round in 0..4u8 {
        for _ in 0..3 {
            sent.push(next);
            handed.extend(proxy.send(next));
            next += 1;
        }
        handed.extend(proxy.handle_started(SingletonStarted { actor_ref: round }));
        for _ in 0..2 {
            sent.push(next);
            handed.extend(proxy.send(next));
            next += 1;
        }
        proxy.handle_stopping(SingletonStopping {});
    }
    assert_eq!(handed, sent);
}

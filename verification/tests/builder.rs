use coerce::remote::cluster::builder::worker::ClusterWorkerBuilder;

#[test]
fn new_builder_listens_on_the_default_address_and_knows_no_seed() {
    let builder: ClusterWorkerBuilder<&'static str, u8> = ClusterWorkerBuilder::new("system");
    assert!(builder.seed().is_none());
    let start = builder.start(1);
    assert_eq!(start.context, "system");
    assert_eq!(start.server_listen_addr, "0.0.0.0:30101");
    assert!(start.seed_addr.is_none());
    assert_eq!(start.node.id, 1);
    assert_eq!(start.node.addr, "0.0.0.0:30101");
    assert_eq!(start.node.tag, "");
    assert!(start.node.node_started_at.is_none());
}

#[test]
fn builder_takes_a_seed() {
    let builder: ClusterWorkerBuilder<(), u8> = ClusterWorkerBuilder::new(()).with_seed(3);
    assert_eq!(builder.seed(), Some(&3));
    let builder = builder.with_seed(4);
    assert_eq!(builder.seed(), Some(&4));
}

#[test]
fn builder_takes_addresses() {
    let builder: ClusterWorkerBuilder<(), u8> = ClusterWorkerBuilder::new(())
        .with_seed_addr("10.1.1.1:30101".to_string())
        .listen_addr("127.0.0.1:4000".to_string());
    let start = builder.start(8);
    assert_eq!(start.server_listen_addr, "127.0.0.1:4000");
    assert_eq!(start.seed_addr.as_deref(), Some("10.1.1.1:30101"));
    assert_eq!(start.node.id, 8);
    assert_eq!(start.node.addr, "127.0.0.1:4000");
}

#[test]
fn seed_is_registered_once_under_the_id_it_gave() {
    let builder: ClusterWorkerBuilder<(), u8> =
        ClusterWorkerBuilder::new(()).with_seed_addr("10.1.1.1:30101".to_string());
    let mut start = builder.start(8);
    let seed = start.discover_peers(21).expect("a seed address was given");
    assert_eq!(seed.id, 21);
    assert_eq!(seed.addr, "10.1.1.1:30101");
    assert_eq!(seed.tag, "");
    assert!(start.seed_addr.is_none());
    assert!(start.discover_peers(21).is_none());
    assert_eq!(start.server_listen_addr, "0.0.0.0:30101");
}

#[test]
fn start_without_a_seed_discovers_nothing() {
    let builder: ClusterWorkerBuilder<(), u8> = ClusterWorkerBuilder::new(());
    let mut start = builder.start(8);
    assert!(start.discover_peers(21).is_none());
}

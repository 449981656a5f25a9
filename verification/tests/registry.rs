use coerce::remote::actor::handler::connect_all;
use coerce::remote::actor::message::{
    ClientWrite, GetNodes, PopRequest, PushRequest, RegisterClient, RegisterNodes,
};
use coerce::remote::actor::{RemoteHandler, RemoteRegistry};
use coerce::remote::cluster::node::{RemoteNode, RemoteNodeStore};

fn node(id: u64) -> RemoteNode {
    RemoteNode::new(id, format!("10.0.0.{}:30101", id))
}

#[test]
fn node_store_holds_one_node_per_id() {
    let mut store = RemoteNodeStore::new();
    assert!(!store.is_registered(1));
    store.add(node(1));
    store.add(node(2));
    store.add(RemoteNode::new(1, "elsewhere:1".to_string()));
    assert!(store.is_registered(1));
    assert!(store.is_registered(2));
    assert!(!store.is_registered(3));
    let all = store.get_all();
    assert_eq!(all.len(), 2);
    assert_eq!(all[0].id, 1);
    assert_eq!(all[0].addr, "elsewhere:1");
    assert_eq!(all[1].id, 2);
}

#[test]
fn registry_answers_with_the_nodes_it_knows() {
    let mut registry: RemoteRegistry<&'static str> = RemoteRegistry::new();
    assert!(registry.handle_get_nodes(GetNodes).is_empty());
    registry.add_node(node(3));
    registry.add_node(node(1));
    let nodes = registry.handle_get_nodes(GetNodes);
    assert_eq!(nodes.iter().map(|n| n.id).collect::<Vec<u64>>(), vec![3, 1]);
    assert!(registry.is_registered(3));
    assert!(!registry.is_registered(2));
}

#[test]
fn registered_client_is_found_by_its_node() {
    let mut registry: RemoteRegistry<&'static str> = RemoteRegistry::new();
    assert!(registry.client(4).is_none());
    registry.handle_register_client(RegisterClient(4, "four"));
    registry.handle_register_client(RegisterClient(5, "five"));
    registry.handle_register_client(RegisterClient(4, "four again"));
    assert_eq!(registry.client(4), Some(&"four again"));
    assert_eq!(registry.client(5), Some(&"five"));
    assert!(registry.client(6).is_none());
}

#[test]
fn only_unknown_nodes_are_dialled() {
    let mut registry: RemoteRegistry<&'static str> = RemoteRegistry::new();
    registry.add_node(node(2));
    registry.add_node(node(4));
    let unknown =
        registry.unregistered(RegisterNodes(vec![node(5), node(2), node(1), node(4), node(5)]));
    assert_eq!(unknown.iter().map(|n| n.id).collect::<Vec<u64>>(), vec![5, 1, 5]);
    assert!(registry.unregistered(RegisterNodes(vec![])).is_empty());
    assert!(registry.unregistered(RegisterNodes(vec![node(2)])).is_empty());
}

#[test]
fn connect_all_records_the_last_dial_of_each_node() {
    let clients =
        connect_all(vec![(node(1), Some("a")), (node(2), None), (node(1), Some("b")), (node(3), Some("c"))]);
    assert_eq!(clients.len(), 3);
    assert_eq!(clients.get(&1), Some(&Some("b")));
    assert_eq!(clients.get(&2), Some(&None));
    assert_eq!(clients.get(&3), Some(&Some("c")));
    let clients = connect_all(vec![(node(1), Some("a")), (node(1), None)]);
    assert_eq!(clients.get(&1), Some(&None));
    let none: std::collections::HashMap<u64, Option<u8>> = connect_all(vec![]);
    assert!(none.is_empty());
}

#[test]
fn only_clients_of_dials_that_succeeded_are_held() {
    let mut registry: RemoteRegistry<&'static str> = RemoteRegistry::new();
    registry.handle_register_client(RegisterClient(2, "old two"));
    registry.handle_register_client(RegisterClient(9, "nine"));
    let dialled = vec![
        (node(1), Some("one")),
        (node(2), None),
        (node(3), None),
        (node(3), Some("three")),
        (node(4), Some("four")),
        (node(4), None),
    ];
    registry.handle_register_nodes(dialled);
    assert_eq!(registry.client(1), Some(&"one"));
    assert_eq!(registry.client(2), Some(&"old two"));
    assert_eq!(registry.client(3), Some(&"three"));
    assert!(registry.client(4).is_none());
    assert_eq!(registry.client(9), Some(&"nine"));
    assert!(registry.handle_get_nodes(GetNodes).is_empty());
}

#[test]
fn client_write_goes_to_the_client_of_the_node() {
    let mut registry: RemoteRegistry<&'static str> = RemoteRegistry::new();
    registry.handle_register_client(RegisterClient(4, "four"));
    assert_eq!(registry.handle_client_write(ClientWrite(4, vec![1, 2])), Some((&"four", vec![1, 2])));
    assert!(registry.handle_client_write(ClientWrite(5, vec![1, 2])).is_none());
}

#[test]
fn request_waits_until_it_is_taken() {
    let mut table: RemoteHandler<&'static str> = RemoteHandler::new();
    let id = 0x0123_4567_89ab_cdef_0123_4567_89ab_cdef_u128;
    assert!(table.handle_pop_request(PopRequest(id)).is_none());
    table.handle_push_request(PushRequest(id, "reply slot"));
    table.handle_push_request(PushRequest(id + 1, "other"));
    assert_eq!(table.handle_pop_request(PopRequest(id)), Some("reply slot"));
    assert!(table.handle_pop_request(PopRequest(id)).is_none());
    assert_eq!(table.handle_pop_request(PopRequest(id + 1)), Some("other"));
}

#[test]
fn request_under_a_used_id_replaces_the_one_that_waited() {
    let mut table: RemoteHandler<u8> = RemoteHandler::new();
    table.handle_push_request(PushRequest(7, 1));
    table.handle_push_request(PushRequest(7, 2));
    assert_eq!(table.handle_pop_request(PopRequest(7)), Some(2));
    assert_eq!(table.handle_pop_request(PopRequest(7)), None);
}

#[test]
fn lost_session_empties_the_table() {
    let mut table: RemoteHandler<&'static str> = RemoteHandler::new();
    assert!(table.handle_disconnected().is_empty());
    table.handle_push_request(PushRequest(1, "one"));
    table.handle_push_request(PushRequest(2, "two"));
    table.handle_push_request(PushRequest(3, "three"));
    assert_eq!(table.handle_pop_request(PopRequest(2)), Some("two"));
    let waiting = table.handle_disconnected();
    assert_eq!(waiting.len(), 2);
    assert_eq!(waiting.get(&1), Some(&"one"));
    assert_eq!(waiting.get(&3), Some(&"three"));
    assert!(table.handle_pop_request(PopRequest(1)).is_none());
    assert!(table.handle_disconnected().is_empty());
}

use keyserver::models::{DatabaseWrapper, Peer, Peers};
use keyserver::store::Store;

#[test]
fn peers() {
    // Create store
    let mut store = Store::new();

    // Create peers
    let peer_a = Peer {
        url: "url a".to_string(),
    };
    let peer_b = Peer {
        url: "url b".to_string(),
    };
    let peers_in = Peers {
        peers: vec![peer_a, peer_b],
    };
    let peers_raw = peers_in.encode();

    // Put to store
    store.put_peers(&peers_raw);

    // Get from store
    let peers_out = store.get_peers().unwrap().unwrap();
    assert_eq!(peers_in, peers_out);
}

#[test]
fn metadata() {
    // Create store
    let mut store = Store::new();

    // Create database wrapper
    let database_wrapper_in = DatabaseWrapper {
        token: vec![0, 1, 3, 4],
        serialized_auth_wrapper: vec![2, 3, 4],
    };
    let database_wrapper_raw = database_wrapper_in.encode();

    // Put to store
    let addr = vec![0, 3, 4, 3, 2];
    store.put_metadata(&addr, &database_wrapper_raw);

    // Get from store
    let data_wrapper_out = store.get_metadata(&addr).unwrap().unwrap();
    assert_eq!(database_wrapper_in, data_wrapper_out);
}

#[test]
fn metadata_last_write_wins() {
    let mut store = Store::new();
    let addr = vec![9u8; 20];
    let first = DatabaseWrapper {
        serialized_auth_wrapper: vec![1],
        token: vec![2],
    };
    let second = DatabaseWrapper {
        serialized_auth_wrapper: vec![3, 3],
        token: vec![4, 4],
    };
    store.put_metadata(&addr, &first.encode());
    store.put_metadata(&addr, &second.encode());
    let out = store.get_metadata(&addr).unwrap().unwrap();
    assert_eq!(out, second);

    // another identity is untouched
    let other = vec![8u8; 20];
    assert!(store.get_raw_metadata(&other).is_none());
}

#[test]
fn namespaces_do_not_collide() {
    let mut store = Store::new();
    let peers_raw = Peers { peers: vec![] }.encode();
    store.put_peers(&peers_raw);

    // a metadata write under any identity leaves the peer entry alone,
    // even one whose bytes echo the peer namespace
    for addr in [vec![], vec![112u8], vec![109u8], vec![112u8, 112u8]] {
        let w = DatabaseWrapper {
            serialized_auth_wrapper: addr.clone(),
            token: vec![7],
        };
        store.put_metadata(&addr, &w.encode());
    }
    assert_eq!(store.get_peers_raw().unwrap(), peers_raw);

    // and the peer write did not create any metadata entry
    let mut fresh = Store::new();
    fresh.put_peers(&peers_raw);
    assert!(fresh.get_raw_metadata(&vec![]).is_none());
    assert!(fresh.get_raw_metadata(&vec![112u8]).is_none());
}

use keyserver::models::DatabaseWrapper;
use keyserver::peering::{get_peers, PeerHandler, PeeringUnavailible};
use keyserver::models::{Peer, Peers};
use keyserver::store::Store;
use keyserver::token::{
    commitment, construct_token, decode_token, expected_script, token_header, validate_token,
    TokenError,
};
use keyserver::token_cache::TokenCache;
use keyserver::tx::{compute_tx_id, parse_tx_outputs};
use base64::Engine;
use sha2::Digest;

/// A minimal raw transaction with one input and the given output scripts.
fn raw_tx_with_scripts(scripts: &[Vec<u8>]) -> Vec<u8> {
    let mut tx = vec![0u8; 4]; // version
    tx.push(1); // one input
    tx.extend_from_slice(&[0u8; 36]); // outpoint
    tx.push(0); // empty input script
    tx.extend_from_slice(&[0u8; 4]); // sequence
    tx.push(scripts.len() as u8); // output count
    for s in scripts {
        tx.extend_from_slice(&[0u8; 8]); // value
        tx.push(s.len() as u8); // script length
        tx.extend_from_slice(s);
    }
    tx.extend_from_slice(&[0u8; 4]); // lock time
    tx
}

#[test]
fn tx_parser_lists_output_scripts() {
    let scripts = vec![vec![0x6A], vec![0x51, 0x52]];
    let tx = raw_tx_with_scripts(&scripts);
    let parsed = parse_tx_outputs(&tx).unwrap();
    assert_eq!(parsed, scripts);

    // a truncated transaction does not parse
    let mut cut = tx.clone();
    cut.pop();
    assert!(parse_tx_outputs(&cut).is_none());
    // trailing bytes do not parse either
    let mut long = tx.clone();
    long.push(0);
    assert!(parse_tx_outputs(&long).is_none());
}

#[test]
fn tx_id_is_the_reversed_double_sha256() {
    let tx = raw_tx_with_scripts(&[vec![0x6A]]);
    let first = sha2::Sha256::digest(&tx);
    let second = sha2::Sha256::digest(&first);
    let mut expected = second.to_vec();
    expected.reverse();
    assert_eq!(compute_tx_id(&tx), expected);
}

#[test]
fn token_mint_and_decode_roundtrip() {
    let tx_id = vec![0xAAu8; 32];
    let token = construct_token(&tx_id, 258);
    assert_eq!(token.len(), 36);
    let (id_back, vout_back) = decode_token(&token).unwrap();
    assert_eq!(id_back, tx_id);
    assert_eq!(vout_back, 258);

    // only 36-byte tokens decode
    assert!(decode_token(&vec![0u8; 35]).is_none());
}

#[test]
fn token_header_renders_pop_base64url() {
    assert_eq!(token_header(&vec![0u8]), "POP AA");
    let raw = vec![0xFFu8, 0xEE, 0x01];
    let expected = format!(
        "POP {}",
        base64::engine::general_purpose::URL_SAFE_NO_PAD.encode(&raw)
    );
    assert_eq!(token_header(&raw), expected);
}

#[test]
fn validate_token_accepts_the_committing_output() {
    let pk_hash = vec![0x11u8; 32];
    let md = vec![0x22u8; 32];
    let script = expected_script(&pk_hash, &md);
    // the commitment script: OP_RETURN, a 32-byte push, the commitment
    assert_eq!(script.len(), 34);
    assert_eq!(script[0], 106);
    assert_eq!(script[1], 32);
    assert_eq!(script[2..], commitment(&pk_hash, &md)[..]);

    let tx = raw_tx_with_scripts(&[vec![0x6A], script.clone()]);
    let tx_id = compute_tx_id(&tx);
    let token = construct_token(&tx_id, 1);
    let stored = validate_token(&pk_hash, &md, &token, &tx).unwrap();
    assert_eq!(stored, token);

    // a token naming the wrong output is refused
    let wrong_vout = construct_token(&tx_id, 0);
    assert_eq!(
        validate_token(&pk_hash, &md, &wrong_vout, &tx),
        Err(TokenError::NoCommitment)
    );

    // a token naming another transaction is refused
    let other_id = construct_token(&vec![0u8; 32], 1);
    assert_eq!(
        validate_token(&pk_hash, &md, &other_id, &tx),
        Err(TokenError::Chain)
    );

    // malformed token bytes are refused
    assert_eq!(
        validate_token(&pk_hash, &md, &vec![1, 2, 3], &tx),
        Err(TokenError::TokenDecode)
    );
}

#[test]
fn token_cache_broadcasts_after_the_delay() {
    let mut store = Store::new();
    let addr = vec![5u8; 20];
    let wrapper_bytes = vec![9u8, 8, 7];
    let token = construct_token(&vec![0xABu8; 32], 0);
    let entry = DatabaseWrapper {
        serialized_auth_wrapper: wrapper_bytes.clone(),
        token: token.clone(),
    };
    store.put_metadata(&addr, &entry.encode());

    let mut cache = TokenCache::new(2);
    cache.add_token(addr.clone());

    // first tick: the identity is still one block from the back
    let first = cache.broadcast_block(&store);
    assert!(first.is_empty());

    // second tick: the identity's block reaches the back and is broadcast
    let second = cache.broadcast_block(&store);
    assert_eq!(second.len(), 1);
    assert_eq!(second[0].0, addr);
    assert_eq!(second[0].1, wrapper_bytes);
    assert_eq!(second[0].2, token_header(&token));

    // an identity whose store entry is missing is dropped silently
    let mut cache = TokenCache::new(1);
    cache.add_token(vec![1u8; 20]);
    let items = cache.broadcast_block(&store);
    assert!(items.is_empty());
}

#[test]
fn token_cache_blocks_are_sets() {
    // re-adding an identity within one interval changes nothing: the turn
    // that pops its block broadcasts it exactly once
    let mut store = Store::new();
    let addr = vec![6u8; 20];
    let entry = DatabaseWrapper {
        serialized_auth_wrapper: vec![1, 2],
        token: vec![3, 4],
    };
    store.put_metadata(&addr, &entry.encode());

    let mut cache = TokenCache::new(1);
    cache.add_token(addr.clone());
    cache.add_token(addr.clone());
    cache.add_token(addr.clone());
    let items = cache.broadcast_block(&store);
    assert_eq!(items.len(), 1);
    assert_eq!(items[0].0, addr);
}

#[test]
fn peer_handler_deduplicates_and_persists() {
    let peers = Peers {
        peers: vec![
            Peer {
                url: "http://a".to_string(),
            },
            Peer {
                url: "http://b".to_string(),
            },
            Peer {
                url: "http://a".to_string(),
            },
        ],
    };
    let handler = PeerHandler::new(peers);
    assert_eq!(handler.len(), 2);
    let urls = handler.get_urls();
    assert!(urls.contains(&"http://a".to_string()));
    assert!(urls.contains(&"http://b".to_string()));

    // the serialized copy decodes back to the live set
    let raw = handler.get_raw_peers();
    let decoded = Peers::decode(&raw).unwrap();
    assert_eq!(decoded.peers.len(), 2);

    // persisting writes that copy to the store
    let mut store = Store::new();
    handler.persist(&mut store);
    assert_eq!(store.get_peers_raw().unwrap(), raw);
}

#[test]
fn peers_route_refuses_when_disabled() {
    let handler = PeerHandler::new(Peers { peers: vec![] });
    assert_eq!(get_peers(false, &handler), Err(PeeringUnavailible));
    assert_eq!(PeeringUnavailible.to_status(), 501);
    assert!(get_peers(true, &handler).is_ok());
}

#[test]
fn sample_peers_draws_distinct_members() {
    let peers = Peers {
        peers: (0..5)
            .map(|i| Peer {
                url: format!("http://peer{}", i),
            })
            .collect(),
    };
    let handler = PeerHandler::new(peers);
    let urls = handler.get_urls();

    let drawn = handler.sample_peers(3);
    assert_eq!(drawn.len(), 3);
    for u in &drawn {
        assert!(urls.contains(u));
    }
    // no peer is drawn twice
    for a in 0..drawn.len() {
        for b in (a + 1)..drawn.len() {
            assert_ne!(drawn[a], drawn[b]);
        }
    }

    // asking for more than exist yields everyone
    let all = handler.sample_peers(10);
    assert_eq!(all.len(), 5);
}

#[test]
fn hex_rendering_roundtrips() {
    let data = vec![0x00u8, 0x0F, 0xA5, 0xFF];
    let rendered = keyserver::hex::hex_encode(&data);
    assert_eq!(rendered, b"000fa5ff".to_vec());
    assert_eq!(keyserver::hex::hex_decode(&rendered).unwrap(), data);
    // upper-case digits decode too; odd runs and non-digits do not
    assert_eq!(
        keyserver::hex::hex_decode(&b"000FA5FF".to_vec()).unwrap(),
        data
    );
    assert!(keyserver::hex::hex_decode(&b"abc".to_vec()).is_none());
    assert!(keyserver::hex::hex_decode(&b"zz".to_vec()).is_none());
}

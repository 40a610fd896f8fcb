use keyserver::models::{Peer, Peers};
use keyserver::payments::{Output, Payment, PaymentDetails, PaymentRequest};
use keyserver::wrapper::AuthWrapper;

fn sample_wrapper() -> AuthWrapper {
    AuthWrapper {
        public_key: vec![2u8; 33],
        signature: vec![7u8; 64],
        scheme: 1,
        payload: b"some metadata".to_vec(),
        payload_digest: vec![],
    }
}

#[test]
fn wrapper_roundtrip() {
    let w = sample_wrapper();
    let bytes = w.encode();
    let back = AuthWrapper::decode(&bytes).unwrap();
    assert_eq!(w, back);
    // re-encoding the decoded envelope gives back the bytes
    assert_eq!(back.encode(), bytes);
}

#[test]
fn wrapper_roundtrip_empty_fields() {
    let w = AuthWrapper {
        public_key: vec![],
        signature: vec![],
        scheme: 0,
        payload: vec![],
        payload_digest: vec![],
    };
    let bytes = w.encode();
    assert_eq!(AuthWrapper::decode(&bytes).unwrap(), w);
}

#[test]
fn wrapper_roundtrip_large_scheme() {
    let w = AuthWrapper {
        scheme: u64::MAX,
        ..sample_wrapper()
    };
    let bytes = w.encode();
    assert_eq!(AuthWrapper::decode(&bytes).unwrap(), w);
}

#[test]
fn wrapper_decode_rejects_trailing_bytes() {
    let mut bytes = sample_wrapper().encode();
    bytes.push(0);
    assert!(AuthWrapper::decode(&bytes).is_none());
}

#[test]
fn wrapper_decode_rejects_garbage() {
    assert!(AuthWrapper::decode(&vec![]).is_none());
    assert!(AuthWrapper::decode(&vec![0xFF, 0xFF, 0xFF]).is_none());
}

#[test]
fn peers_codec_roundtrip() {
    let peers = Peers {
        peers: vec![
            Peer {
                url: "http://one.example".to_string(),
            },
            Peer {
                url: "http://two.example".to_string(),
            },
        ],
    };
    let bytes = peers.encode();
    assert_eq!(Peers::decode(&bytes).unwrap(), peers);

    let empty = Peers { peers: vec![] };
    assert_eq!(Peers::decode(&empty.encode()).unwrap(), empty);
}

#[test]
fn payment_codec_roundtrip() {
    let payment = Payment {
        merchant_data: Some(vec![0xAB; 64]),
        transactions: vec![vec![1, 2, 3], vec![4, 5]],
        memo: Some("thanks".to_string()),
    };
    let bytes = payment.encode();
    assert_eq!(Payment::decode(&bytes).unwrap(), payment);

    let bare = Payment {
        merchant_data: None,
        transactions: vec![],
        memo: None,
    };
    assert_eq!(Payment::decode(&bare.encode()).unwrap(), bare);
}

#[test]
fn payment_request_codec_roundtrip() {
    let details = PaymentDetails {
        network: Some("regtest".to_string()),
        outputs: vec![Output {
            amount: None,
            script: vec![0x6A, 0x01, 0x00],
        }],
        time: 1_600_000_000,
        expires: None,
        memo: None,
        payment_url: Some("/payments".to_string()),
        merchant_data: Some(vec![0x11; 64]),
    };
    let serialized = details.encode();
    assert_eq!(PaymentDetails::decode(&serialized).unwrap(), details);

    let request = PaymentRequest {
        payment_details_version: Some(1),
        pki_type: Some("none".to_string()),
        pki_data: None,
        serialized_payment_details: serialized,
        signature: None,
    };
    let bytes = request.encode();
    assert_eq!(PaymentRequest::decode(&bytes).unwrap(), request);
}

use keyserver::net::{
    address_decode, get_metadata, metadata_response_body, pop_protection,
    protection_error_recovery, put_metadata, GetMetadataError, ProtectionError, PutMetadataError,
    Query,
};
use keyserver::payments::{
    process_payment, Payment, PaymentDetails, PaymentError, PaymentRequest, PreprocessingError,
    NodeError,
};
use keyserver::peering::{accept_peer_metadata, traverse_step, PeerError};
use keyserver::settings::Network;
use keyserver::store::Store;
use keyserver::token::{construct_token, expected_script, token_header, validate_token};
use keyserver::token_cache::TokenCache;
use keyserver::tx::compute_tx_id;
use keyserver::wrapper::AuthWrapper;
use sha2::Digest;

/// A wrapper whose payload is genuinely signed by the embedded key.
fn signed_wrapper(payload: Vec<u8>) -> AuthWrapper {
    let sk = secp256k1::SecretKey::from_secret_bytes([9u8; 32]).unwrap();
    let pk = secp256k1::PublicKey::from_secret_key(&sk);
    let digest: [u8; 32] = sha2::Sha256::digest(&payload).as_slice().try_into().unwrap();
    let msg = secp256k1::Message::from_digest(digest);
    let sig = secp256k1::ecdsa::sign(msg, &sk);
    AuthWrapper {
        public_key: pk.serialize().to_vec(),
        signature: sig.serialize_compact().to_vec(),
        scheme: 1,
        payload,
        payload_digest: vec![],
    }
}

/// A minimal raw transaction with one input and the given output scripts.
fn raw_tx_with_scripts(scripts: &[Vec<u8>]) -> Vec<u8> {
    let mut tx = vec![0u8; 4];
    tx.push(1);
    tx.extend_from_slice(&[0u8; 36]);
    tx.push(0);
    tx.extend_from_slice(&[0u8; 4]);
    tx.push(scripts.len() as u8);
    for s in scripts {
        tx.extend_from_slice(&[0u8; 8]);
        tx.push(s.len() as u8);
        tx.extend_from_slice(s);
    }
    tx.extend_from_slice(&[0u8; 4]);
    tx
}

#[test]
fn get_metadata_miss_respects_sampling_header() {
    let store = Store::new();
    let addr = vec![1u8; 20];

    // sampling suppressed: a miss is final
    let r = get_metadata(&addr, false, &store);
    assert_eq!(r.unwrap_err(), GetMetadataError::NotFound);
    assert_eq!(GetMetadataError::NotFound.to_status(), 404);

    // sampling permitted: the caller is told to sample
    let r = get_metadata(&addr, true, &store);
    assert_eq!(r.unwrap(), None);
}

#[test]
fn put_then_get_roundtrip() {
    let mut store = Store::new();
    let mut cache = TokenCache::new(2);
    let addr = vec![3u8; 20];
    let wrapper = signed_wrapper(b"profile".to_vec());
    let body = wrapper.encode();
    let token = construct_token(&vec![0xCDu8; 32], 0);

    put_metadata(&addr, &body, &token, &mut store, &mut cache).unwrap();

    let (served, header) = get_metadata(&addr, false, &store).unwrap().unwrap();
    assert_eq!(served, body);
    assert_eq!(header, token_header(&token));
}

#[test]
fn put_rejects_a_bad_signature_and_changes_nothing() {
    let mut store = Store::new();
    let mut cache = TokenCache::new(2);
    let addr = vec![3u8; 20];
    let mut wrapper = signed_wrapper(b"profile".to_vec());
    wrapper.payload[0] ^= 1;
    let body = wrapper.encode();
    let token = vec![0u8; 36];

    let r = put_metadata(&addr, &body, &token, &mut store, &mut cache);
    assert!(matches!(r, Err(PutMetadataError::VerifyAuthWrapper(_))));
    assert!(store.get_raw_metadata(&addr).is_none());

    // an undecodable body is a decode failure
    let r = put_metadata(&addr, &vec![1, 2], &token, &mut store, &mut cache);
    assert_eq!(r.unwrap_err(), PutMetadataError::MetadataDecode);
}

#[test]
fn metadata_response_honours_digest_query() {
    let raw = vec![1u8, 2, 3];
    let plain = metadata_response_body(&raw, &Query { digest: None });
    assert_eq!(plain, raw);
    let digest = metadata_response_body(&raw, &Query { digest: Some(true) });
    assert_eq!(digest, sha2::Sha256::digest(&raw).to_vec());
}

#[test]
fn missing_token_yields_an_invoice_committing_to_the_digests() {
    let wrapper = signed_wrapper(b"payload bytes".to_vec());
    let body = wrapper.encode();

    let err = pop_protection(&body, None).unwrap_err();
    let (pk_digest, md_digest) = match &err {
        ProtectionError::MissingToken(pk, md) => (pk.clone(), md.clone()),
        other => panic!("unexpected guard outcome: {:?}", other),
    };
    assert_eq!(
        pk_digest,
        sha2::Sha256::digest(&wrapper.public_key).to_vec()
    );
    assert_eq!(md_digest, sha2::Sha256::digest(&wrapper.payload).to_vec());

    // recovery answers 402 with an invoice whose merchant data is the
    // 64-byte preimage and whose single output carries the commitment script
    let (status, invoice) = protection_error_recovery(&err, Network::Regtest.as_str(), 1234);
    assert_eq!(status, 402);
    let request = PaymentRequest::decode(&invoice).unwrap();
    let details = PaymentDetails::decode(&request.serialized_payment_details).unwrap();
    let mut preimage = pk_digest.clone();
    preimage.extend_from_slice(&md_digest);
    assert_eq!(details.merchant_data.as_ref().unwrap(), &preimage);
    assert_eq!(details.merchant_data.as_ref().unwrap().len(), 64);
    assert_eq!(details.network.as_deref(), Some("regtest"));
    assert_eq!(details.payment_url.as_deref(), Some("/payments"));
    assert_eq!(details.time, 1234);
    assert_eq!(details.outputs.len(), 1);
    assert_eq!(
        details.outputs[0].script,
        expected_script(&pk_digest, &md_digest)
    );
}

#[test]
fn guard_rejects_a_mismatched_declared_digest() {
    // a 32-byte declared digest that does not match the payload is rejected
    // at the guard, before any token handling: no invoice is issued for a
    // commitment that could never be honoured
    let mut wrapper = signed_wrapper(b"honest payload".to_vec());
    let mut wrong = sha2::Sha256::digest(&wrapper.payload).to_vec();
    wrong[0] ^= 1;
    wrapper.payload_digest = wrong;
    let body = wrapper.encode();

    let err = pop_protection(&body, None).unwrap_err();
    assert_eq!(err, ProtectionError::Preimage);
    let (status, _) = protection_error_recovery(&err, Network::Regtest.as_str(), 0);
    assert_eq!(status, 400);

    // the same envelope with a token presented is rejected the same way
    let token = construct_token(&vec![0x77u8; 32], 0);
    let header = token_header(&token);
    assert_eq!(
        pop_protection(&body, Some(&header)).unwrap_err(),
        ProtectionError::Preimage
    );

    // a matching declared digest passes the guard
    let mut ok_wrapper = signed_wrapper(b"honest payload".to_vec());
    ok_wrapper.payload_digest = sha2::Sha256::digest(&ok_wrapper.payload).to_vec();
    let ok_body = ok_wrapper.encode();
    assert!(pop_protection(&ok_body, Some(&header)).is_ok());
}

#[test]
fn pop_protection_reads_a_presented_token() {
    let wrapper = signed_wrapper(b"payload bytes".to_vec());
    let body = wrapper.encode();
    let token = construct_token(&vec![0xEEu8; 32], 3);
    let header = token_header(&token);

    let pending = pop_protection(&body, Some(&header)).unwrap();
    assert_eq!(pending.raw_token, token);
    assert_eq!(pending.tx_id, vec![0xEEu8; 32]);
    assert_eq!(pending.vout, 3);

    // a header without the scheme prefix counts as no token
    let bare = "Bearer abc".to_string();
    assert!(matches!(
        pop_protection(&body, Some(&bare)),
        Err(ProtectionError::MissingToken(_, _))
    ));

    // a header whose token is unreadable is a validation failure
    let junk = "POP !!!".to_string();
    assert!(matches!(
        pop_protection(&body, Some(&junk)),
        Err(ProtectionError::Validation(_))
    ));

    // so is a readable rendering of something that is not a token
    let short = keyserver::token::token_header(&vec![0u8; 10]);
    assert!(matches!(
        pop_protection(&body, Some(&short)),
        Err(ProtectionError::Validation(_))
    ));
}

#[test]
fn full_handshake_settles_and_serves() {
    // the digests a fresh PUT would be asked to commit to
    let wrapper = signed_wrapper(b"the stored profile".to_vec());
    let body = wrapper.encode();
    let pk_digest = sha2::Sha256::digest(&wrapper.public_key).to_vec();
    let md_digest = sha2::Sha256::digest(&wrapper.payload).to_vec();
    let mut preimage = pk_digest.clone();
    preimage.extend_from_slice(&md_digest);

    // a payment whose second output carries the commitment
    let script = expected_script(&pk_digest, &md_digest);
    let tx = raw_tx_with_scripts(&[vec![0x6A], script]);
    let payment = Payment {
        merchant_data: Some(preimage),
        transactions: vec![tx.clone()],
        memo: None,
    };
    let settled = process_payment(&payment).unwrap();
    assert_eq!(settled.tx_index, 0);
    assert_eq!(settled.vout, 1);
    assert_eq!(settled.tx_id, compute_tx_id(&tx));

    // the settled address is the identity rendered under the primary scheme
    let expected_addr = bitcoincash_addr::Address {
        body: pk_digest.clone(),
        ..bitcoincash_addr::Address::default()
    }
    .encode()
    .unwrap();
    assert_eq!(settled.address, expected_addr);

    // the minted token validates against the transaction it names
    let stored = validate_token(&pk_digest, &md_digest, &settled.token, &tx).unwrap();

    // the write goes through with that token, and a read serves it back
    let mut store = Store::new();
    let mut cache = TokenCache::new(2);
    let addr = vec![0x42u8; 20];
    put_metadata(&addr, &body, &stored, &mut store, &mut cache).unwrap();
    let (served, header) = get_metadata(&addr, false, &store).unwrap().unwrap();
    assert_eq!(served, body);
    assert_eq!(header, token_header(&settled.token));
}

#[test]
fn process_payment_failures_and_statuses() {
    let no_md = Payment {
        merchant_data: None,
        transactions: vec![],
        memo: None,
    };
    assert_eq!(
        process_payment(&no_md).unwrap_err(),
        PaymentError::MissingMerchantData
    );

    let short = Payment {
        merchant_data: Some(vec![0u8; 10]),
        transactions: vec![],
        memo: None,
    };
    assert_eq!(
        process_payment(&short).unwrap_err(),
        PaymentError::IncorrectLengthPreimage
    );

    let malformed = Payment {
        merchant_data: Some(vec![0u8; 64]),
        transactions: vec![vec![1, 2, 3]],
        memo: None,
    };
    assert_eq!(
        process_payment(&malformed).unwrap_err(),
        PaymentError::MalformedTx
    );

    let uncommitted = Payment {
        merchant_data: Some(vec![0u8; 64]),
        transactions: vec![raw_tx_with_scripts(&[vec![0x51]])],
        memo: None,
    };
    assert_eq!(
        process_payment(&uncommitted).unwrap_err(),
        PaymentError::MissingCommitment
    );

    assert_eq!(PaymentError::MissingCommitment.to_status(), 400);
    assert_eq!(
        PaymentError::Preprocess(PreprocessingError::MissingAcceptHeader).to_status(),
        406
    );
    assert_eq!(
        PaymentError::Preprocess(PreprocessingError::MissingContentTypeHeader).to_status(),
        415
    );
    assert_eq!(PaymentError::Node(NodeError::Rpc).to_status(), 400);
    assert_eq!(PaymentError::Node(NodeError::Connection).to_status(), 500);
}

#[test]
fn address_codec_roundtrips_through_the_crate() {
    let body: Vec<u8> = (0u8..20).collect();
    let addr = bitcoincash_addr::Address {
        body: body.clone(),
        ..bitcoincash_addr::Address::default()
    };
    let addr_str = addr.encode().unwrap();
    let decoded = address_decode(&addr_str).unwrap();
    assert_eq!(decoded, body);

    let bad = address_decode("not an address");
    assert!(bad.is_err());
    assert_eq!(bad.unwrap_err().to_status(), 400);

    // boundary shapes are refused without consulting the decoders: a
    // prefixed payload shorter than any address body, and non-ASCII text
    assert!(address_decode("bchreg:qqqqqqqqq").is_err());
    assert!(address_decode("bitcoincash:").is_err());
    assert!(address_decode("àdrésse").is_err());
}

#[test]
fn crawl_stops_at_the_bound() {
    // one seed, ten fresh URLs found, a bound of three: the live set ends at
    // exactly three and the crawl is done
    let current = vec!["http://seed".to_string()];
    let found: Vec<String> = (0..10).map(|i| format!("http://p{}", i)).collect();
    let step = traverse_step(&current, &found, 3);
    assert_eq!(step.next.len(), 3);
    assert!(step.done);
    assert!(step.next.contains(&"http://seed".to_string()));

    // nothing fresh: the crawl ends at a fixed point
    let step = traverse_step(&current, &current.clone(), 3);
    assert!(step.done);
    assert_eq!(step.next, current);

    // room to grow: the fresh URLs join the set and the crawl goes on
    let found = vec!["http://x".to_string(), "http://y".to_string()];
    let step = traverse_step(&current, &found, 10);
    assert!(!step.done);
    assert_eq!(step.next.len(), 3);
    assert_eq!(step.frontier.len(), 2);
}

#[test]
fn peer_metadata_is_verified_before_acceptance() {
    let wrapper = signed_wrapper(b"gossip".to_vec());
    let body = wrapper.encode();

    let ok = accept_peer_metadata(body.clone(), Some("POP AA".to_string()));
    let (served, token) = ok.unwrap();
    assert_eq!(served, body);
    assert_eq!(token, "POP AA");

    assert_eq!(
        accept_peer_metadata(body.clone(), None).unwrap_err(),
        PeerError::MissingToken
    );
    assert_eq!(
        accept_peer_metadata(vec![1, 2], Some("POP AA".to_string())).unwrap_err(),
        PeerError::AuthWrapperDecode
    );

    let mut tampered = signed_wrapper(b"gossip".to_vec());
    tampered.payload[0] ^= 1;
    assert!(matches!(
        accept_peer_metadata(tampered.encode(), Some("POP AA".to_string())),
        Err(PeerError::VerifyAuthWrapper(_))
    ));
}

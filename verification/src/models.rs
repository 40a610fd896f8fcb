//! The stored and gossiped message shapes: the peer list and the database
//! envelope that pairs a serialized authorization wrapper with its token.

use vstd::prelude::*;

use vstd::utf8::{decode_utf8, encode_utf8, valid_utf8};

use crate::codec::{
    decode_bytes_field, encode_bytes_field, lemma_bytes_field_roundtrip, push_all,
    spec_bytes_field, spec_bytes_field_decode,
};

verus! {

/// Tag of `Peer.url` and of each `Peers.peers` element: field 1,
/// length-delimited.
pub const TAG_PEER_URL: u8 = 10;

/// Tag of `DatabaseWrapper.serialized_auth_wrapper`: field 1,
/// length-delimited.
pub const TAG_DB_WRAPPER: u8 = 10;

/// Tag of `DatabaseWrapper.token`: field 2, length-delimited.
pub const TAG_DB_TOKEN: u8 = 18;

/// The URLs of a peer sequence, in order.
pub open spec fn urls_of(ps: Seq<Peer>) -> Seq<Seq<char>> {
    ps.map_values(|p: Peer| p@)
}

/// Appending a peer appends its URL to the view.
pub proof fn lemma_urls_of_push(ps: Seq<Peer>, p: Peer)
    ensures
        urls_of(ps.push(p)) == urls_of(ps).push(p@),
{
    assert(urls_of(ps.push(p)) =~= urls_of(ps).push(p@));
}

/// One known keyserver, named by its URL.
#[derive(Clone, Debug, PartialEq, Eq)]
pub struct Peer {
    /// The peer's base URL.
    pub url: String,
}

impl View for Peer {
    type V = Seq<char>;

    open spec fn view(&self) -> Seq<char> {
        self.url@
    }
}

/// The peer list: an unordered set, stored and gossiped as one message.
#[derive(Clone, Debug, PartialEq, Eq)]
pub struct Peers {
    /// The known peers.
    pub peers: Vec<Peer>,
}

impl View for Peers {
    type V = Seq<Seq<char>>;

    open spec fn view(&self) -> Seq<Seq<char>> {
        urls_of(self.peers@)
    }
}

/// The stored value of one identity: the raw authorization wrapper and the
/// raw token that last authorized it, written atomically as one blob.
#[derive(Clone, Debug, PartialEq, Eq)]
pub struct DatabaseWrapper {
    /// The serialized authorization wrapper, exactly as received.
    pub serialized_auth_wrapper: Vec<u8>,
    /// The raw proof-of-payment token bytes.
    pub token: Vec<u8>,
}

/// The mathematical value of a [`DatabaseWrapper`].
pub struct DatabaseWrapperView {
    /// The serialized authorization wrapper.
    pub serialized_auth_wrapper: Seq<u8>,
    /// The raw token bytes.
    pub token: Seq<u8>,
}

impl View for DatabaseWrapper {
    type V = DatabaseWrapperView;

    open spec fn view(&self) -> DatabaseWrapperView {
        DatabaseWrapperView {
            serialized_auth_wrapper: self.serialized_auth_wrapper@,
            token: self.token@,
        }
    }
}

/// The canonical encoding of a database envelope: both fields in tag order.
pub open spec fn spec_db_wrapper_encode(v: DatabaseWrapperView) -> Seq<u8> {
    spec_bytes_field(TAG_DB_WRAPPER, v.serialized_auth_wrapper) + spec_bytes_field(
        TAG_DB_TOKEN,
        v.token,
    )
}

/// The database envelope that decoding `s` yields, or `None` where `s` is
/// not a canonical encoding.
pub open spec fn spec_db_wrapper_decode(s: Seq<u8>) -> Option<DatabaseWrapperView> {
    match spec_bytes_field_decode(s, TAG_DB_WRAPPER) {
        None => None,
        Some((w, n1)) => match spec_bytes_field_decode(s.skip(n1), TAG_DB_TOKEN) {
            None => None,
            Some((t, n2)) => {
                if n1 + n2 == s.len() {
                    Some(DatabaseWrapperView { serialized_auth_wrapper: w, token: t })
                } else {
                    None
                }
            },
        },
    }
}

impl DatabaseWrapper {
    /// Serializes the envelope into its canonical wire form.
    pub fn encode(&self) -> (r: Vec<u8>)
        ensures
            r@ == spec_db_wrapper_encode(self@),
    {
        let mut out: Vec<u8> = Vec::new();
        encode_bytes_field(TAG_DB_WRAPPER, &self.serialized_auth_wrapper, &mut out);
        encode_bytes_field(TAG_DB_TOKEN, &self.token, &mut out);
        proof {
            assert(out@ =~= spec_db_wrapper_encode(self@));
        }
        out
    }

    /// Decodes an envelope from its wire form.
    pub fn decode(buf: &Vec<u8>) -> (r: Option<DatabaseWrapper>)
        ensures
            match spec_db_wrapper_decode(buf@) {
                None => r is None,
                Some(v) => r is Some && r.unwrap()@ == v,
            },
    {
        let ghost s = buf@;
        proof {
            assert(s.skip(0) =~= s);
        }
        let (serialized_auth_wrapper, p1) = match decode_bytes_field(buf, 0, TAG_DB_WRAPPER) {
            None => {
                return None;
            },
            Some(x) => x,
        };
        let (token, p2) = match decode_bytes_field(buf, p1, TAG_DB_TOKEN) {
            None => {
                return None;
            },
            Some(x) => x,
        };
        if p2 == buf.len() {
            Some(DatabaseWrapper { serialized_auth_wrapper, token })
        } else {
            None
        }
    }
}

/// Decoding a canonically encoded database envelope gives back the envelope.
pub proof fn lemma_db_wrapper_roundtrip(v: DatabaseWrapperView)
    requires
        v.serialized_auth_wrapper.len() <= u64::MAX,
        v.token.len() <= u64::MAX,
    ensures
        spec_db_wrapper_decode(spec_db_wrapper_encode(v)) == Some(v),
{
    let f1 = spec_bytes_field(TAG_DB_WRAPPER, v.serialized_auth_wrapper);
    let f2 = spec_bytes_field(TAG_DB_TOKEN, v.token);
    let s = spec_db_wrapper_encode(v);
    assert(s =~= f1 + f2);
    lemma_bytes_field_roundtrip(TAG_DB_WRAPPER, v.serialized_auth_wrapper, f2);
    let n1 = f1.len() as int;
    assert(s.skip(n1) =~= f2 + Seq::<u8>::empty());
    assert(f2 =~= f2 + Seq::<u8>::empty());
    lemma_bytes_field_roundtrip(TAG_DB_TOKEN, v.token, Seq::<u8>::empty());
}

/// The canonical encoding of one peer message.
pub open spec fn spec_peer_encode(url: Seq<char>) -> Seq<u8> {
    spec_bytes_field(TAG_PEER_URL, encode_utf8(url))
}

/// The URL that decoding one peer message yields.
pub open spec fn spec_peer_decode(s: Seq<u8>) -> Option<Seq<char>> {
    match spec_bytes_field_decode(s, TAG_PEER_URL) {
        None => None,
        Some((ub, k)) => {
            if k == s.len() && valid_utf8(ub) {
                Some(decode_utf8(ub))
            } else {
                None
            }
        },
    }
}

/// The canonical encoding of a peer list: one embedded peer message per
/// peer, in order.
pub open spec fn spec_peers_encode(urls: Seq<Seq<char>>) -> Seq<u8>
    decreases urls.len(),
{
    if urls.len() == 0 {
        Seq::empty()
    } else {
        spec_bytes_field(TAG_PEER_URL, spec_peer_encode(urls[0])) + spec_peers_encode(
            urls.drop_first(),
        )
    }
}

/// The URLs that decoding a peer list yields.
pub open spec fn spec_peers_decode(s: Seq<u8>) -> Option<Seq<Seq<char>>>
    decreases s.len(),
{
    if s.len() == 0 {
        Some(Seq::empty())
    } else {
        match spec_bytes_field_decode(s, TAG_PEER_URL) {
            None => None,
            Some((pm, k)) => {
                if k < 1 || k > s.len() {
                    None
                } else {
                    match spec_peer_decode(pm) {
                        None => None,
                        Some(url) => match spec_peers_decode(s.skip(k)) {
                            None => None,
                            Some(rest) => Some(seq![url] + rest),
                        },
                    }
                }
            },
        }
    }
}

/// Relies on std String::from_utf8: it returns `Ok` exactly on valid UTF-8,
/// and the returned string holds those bytes.
#[verifier::external_body]
pub(crate) fn bytes_to_string(b: Vec<u8>) -> (r: Option<String>)
    ensures
        r is Some <==> valid_utf8(b@),
        r is Some ==> r.unwrap()@ == decode_utf8(b@),
{
    String::from_utf8(b).ok()
}

/// Serializes one peer into its message form.
fn encode_peer(p: &Peer) -> (r: Vec<u8>)
    ensures
        r@ == spec_peer_encode(p@),
{
    let url_bytes = p.url.as_str().as_bytes_vec();
    let mut out: Vec<u8> = Vec::new();
    encode_bytes_field(TAG_PEER_URL, &url_bytes, &mut out);
    out
}

impl Peers {
    /// Serializes the peer list into its canonical wire form.
    pub fn encode(&self) -> (r: Vec<u8>)
        ensures
            r@ == spec_peers_encode(self@),
    {
        let mut out: Vec<u8> = Vec::new();
        let mut i: usize = 0;
        while i < self.peers.len()
            invariant
                i <= self.peers.len(),
                out@ == spec_peers_encode_prefix(self@, i as int),
            decreases self.peers.len() - i,
        {
            let pm = encode_peer(&self.peers[i]);
            let mut field: Vec<u8> = Vec::new();
            encode_bytes_field(TAG_PEER_URL, &pm, &mut field);
            push_all(&mut out, &field);
            i = i + 1;
            proof {
                lemma_peers_encode_prefix_step(self@, i - 1);
            }
        }
        proof {
            lemma_peers_encode_prefix_full(self@);
        }
        out
    }

    /// Decodes a peer list from its wire form.
    pub fn decode(buf: &Vec<u8>) -> (r: Option<Peers>)
        ensures
            match spec_peers_decode(buf@) {
                None => r is None,
                Some(urls) => r is Some && r.unwrap()@ == urls,
            },
    {
        let mut peers: Vec<Peer> = Vec::new();
        proof {
            assert(buf@.skip(0) =~= buf@);
            assert(urls_of(peers@) =~= Seq::<Seq<char>>::empty());
        }
        match decode_peers_from(buf, 0, &mut peers) {
            true => {
                proof {
                    let urls = spec_peers_decode(buf@).unwrap();
                    assert(urls_of(peers@) =~= urls);
                }
                Some(Peers { peers })
            },
            false => None,
        }
    }
}

/// The encoding of the first `n` peers.
pub open spec fn spec_peers_encode_prefix(urls: Seq<Seq<char>>, n: int) -> Seq<u8>
    decreases n,
{
    if n <= 0 {
        Seq::empty()
    } else {
        spec_peers_encode_prefix(urls, n - 1) + spec_bytes_field(
            TAG_PEER_URL,
            spec_peer_encode(urls[n - 1]),
        )
    }
}

proof fn lemma_peers_encode_prefix_step(urls: Seq<Seq<char>>, n: int)
    requires
        0 <= n < urls.len(),
    ensures
        spec_peers_encode_prefix(urls, n + 1) == spec_peers_encode_prefix(urls, n)
            + spec_bytes_field(TAG_PEER_URL, spec_peer_encode(urls[n])),
{
}

/// Prefix encoding over the whole list is the list encoding.
proof fn lemma_peers_encode_prefix_full_from(urls: Seq<Seq<char>>, n: int)
    requires
        0 <= n <= urls.len(),
    ensures
        spec_peers_encode_prefix(urls, urls.len() as int) == spec_peers_encode_prefix(urls, n)
            + spec_peers_encode(urls.skip(n)),
    decreases urls.len() - n,
{
    if n == urls.len() {
        assert(spec_peers_encode(urls.skip(n)) =~= Seq::<u8>::empty());
        assert(spec_peers_encode_prefix(urls, n) + Seq::<u8>::empty() =~= spec_peers_encode_prefix(
            urls,
            n,
        ));
    } else {
        lemma_peers_encode_prefix_full_from(urls, n + 1);
        assert(urls.skip(n)[0] == urls[n]);
        assert(urls.skip(n).drop_first() =~= urls.skip(n + 1));
        assert(spec_peers_encode(urls.skip(n)) == spec_bytes_field(
            TAG_PEER_URL,
            spec_peer_encode(urls[n]),
        ) + spec_peers_encode(urls.skip(n + 1)));
        assert(spec_peers_encode_prefix(urls, n) + spec_peers_encode(urls.skip(n))
            =~= spec_peers_encode_prefix(urls, n + 1) + spec_peers_encode(urls.skip(n + 1)));
    }
}

proof fn lemma_peers_encode_prefix_full(urls: Seq<Seq<char>>)
    ensures
        spec_peers_encode_prefix(urls, urls.len() as int) == spec_peers_encode(urls),
{
    lemma_peers_encode_prefix_full_from(urls, 0);
    assert(urls.skip(0) =~= urls);
    assert(Seq::<u8>::empty() + spec_peers_encode(urls) =~= spec_peers_encode(urls));
}

/// Decodes one peer message (the embedded form, consumed whole).
fn decode_peer(buf: &Vec<u8>) -> (r: Option<Peer>)
    ensures
        match spec_peer_decode(buf@) {
            None => r is None,
            Some(url) => r is Some && r.unwrap()@ == url,
        },
{
    let ghost s = buf@;
    proof {
        assert(s.skip(0) =~= s);
    }
    let (url_bytes, p1) = match decode_bytes_field(buf, 0, TAG_PEER_URL) {
        None => {
            return None;
        },
        Some(x) => x,
    };
    if p1 != buf.len() {
        return None;
    }
    match bytes_to_string(url_bytes) {
        None => None,
        Some(url) => Some(Peer { url }),
    }
}

/// Decodes peers from `buf` starting at `pos`, appending to `acc`; returns
/// whether the remainder decoded.
fn decode_peers_from(buf: &Vec<u8>, pos: usize, acc: &mut Vec<Peer>) -> (ok: bool)
    requires
        pos <= buf.len(),
    ensures
        match spec_peers_decode(buf@.skip(pos as int)) {
            None => !ok,
            Some(urls) => ok && urls_of(final(acc)@) == urls_of(old(acc)@) + urls,
        },
    decreases buf.len() - pos,
{
    let ghost s = buf@.skip(pos as int);
    if pos == buf.len() {
        proof {
            assert(urls_of(acc@) =~= urls_of(acc@) + Seq::<Seq<char>>::empty());
        }
        return true;
    }
    let (pm, p1) = match decode_bytes_field(buf, pos, TAG_PEER_URL) {
        None => {
            return false;
        },
        Some(x) => x,
    };
    let peer = match decode_peer(&pm) {
        None => {
            return false;
        },
        Some(p) => p,
    };
    let ghost url = peer@;
    acc.push(peer);
    let ghost mid = acc@;
    proof {
        assert(s.skip(p1 - pos) =~= buf@.skip(p1 as int));
        assert(urls_of(mid) =~= urls_of(old(acc)@) + seq![url]);
    }
    let ok = decode_peers_from(buf, p1, acc);
    proof {
        if spec_peers_decode(buf@.skip(p1 as int)) is Some {
            let urls_rest = spec_peers_decode(buf@.skip(p1 as int)).unwrap();
            assert(spec_peers_decode(s) == Some(seq![url] + urls_rest));
            assert(urls_of(acc@) =~= urls_of(old(acc)@) + (seq![url] + urls_rest));
        }
    }
    ok
}

/// Decoding a canonically encoded peer list gives back its URLs.
pub proof fn lemma_peers_roundtrip(urls: Seq<Seq<char>>)
    requires
        forall|i: int| 0 <= i < urls.len() ==> #[trigger] encode_utf8(urls[i]).len() <= u64::MAX,
        forall|i: int| 0 <= i < urls.len() ==> #[trigger] spec_peer_encode(urls[i]).len()
            <= u64::MAX,
    ensures
        spec_peers_decode(spec_peers_encode(urls)) == Some(urls),
    decreases urls.len(),
{
    broadcast use vstd::utf8::encode_utf8_valid_utf8;

    if urls.len() == 0 {
    } else {
        vstd::utf8::encode_utf8_decode_utf8(urls[0]);
        let pm = spec_peer_encode(urls[0]);
        let rest = spec_peers_encode(urls.drop_first());
        let s = spec_peers_encode(urls);
        assert(s =~= spec_bytes_field(TAG_PEER_URL, pm) + rest);
        assert(pm.len() <= u64::MAX);
        lemma_bytes_field_roundtrip(TAG_PEER_URL, pm, rest);
        let k = spec_bytes_field(TAG_PEER_URL, pm).len() as int;
        assert(s.len() > 0);

        // the embedded peer message decodes to its URL
        assert(pm =~= spec_bytes_field(TAG_PEER_URL, encode_utf8(urls[0])) + Seq::<u8>::empty());
        lemma_bytes_field_roundtrip(TAG_PEER_URL, encode_utf8(urls[0]), Seq::<u8>::empty());
        assert(spec_peer_decode(pm) == Some(urls[0]));

        assert(1 <= k <= s.len());
        assert(forall|i: int|
            0 <= i < urls.drop_first().len() ==> urls.drop_first()[i] == urls[i + 1]);
        lemma_peers_roundtrip(urls.drop_first());
        assert(s.skip(k) =~= rest);
        assert(seq![urls[0]] + urls.drop_first() =~= urls);
    }
}

} // verus!

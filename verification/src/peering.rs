//! The peer mesh: the live set of peer URLs with its serialized cache, the
//! bounded crawl step, uniform sampling for read and write fan-out, and the
//! acceptance check for metadata fetched from a peer.
//!
//! The network calls themselves (the HTTP fan-out) are the embedding
//! program's steps; everything decided about their inputs and outputs is
//! here.

use vstd::prelude::*;

use crate::codec::copy_range;
use crate::crypto::{CryptoError, ValidationError};
use crate::models::{lemma_urls_of_push, spec_peers_encode, urls_of, Peer, Peers};
use crate::store::{spec_peers_key, Store};
use crate::wrapper::{spec_parse, spec_verify, spec_wrapper_decode, AuthWrapper};

verus! {

/// A failure while talking to one peer.
#[derive(Clone, Copy, Debug, PartialEq, Eq)]
pub enum PeerError {
    /// The transport failed; diagnosed by the caller that ran the request.
    Hyper,
    /// The peer's body is not an authorization wrapper.
    AuthWrapperDecode,
    /// The peer's body is not a peer list.
    PeerDecode,
    /// The peer's wrapper does not parse.
    InvalidAuthWrapper(ValidationError),
    /// The peer's wrapper fails signature verification.
    VerifyAuthWrapper(CryptoError),
    /// The peer's token header is missing or unreadable.
    MissingToken,
    /// The peer does not hold the identity.
    NotFound,
}

/// The refusal returned where peering is disabled.
#[derive(Clone, Copy, Debug, PartialEq, Eq)]
pub struct PeeringUnavailible;

impl PeeringUnavailible {
    /// The status this refusal surfaces as.
    pub fn to_status(&self) -> (r: u16)
        ensures
            r == 501,
    {
        501
    }
}

/// The character sequences of a string sequence, in order.
pub open spec fn strs_of(us: Seq<String>) -> Seq<Seq<char>> {
    us.map_values(|u: String| u@)
}

/// Appending a string appends its characters to the view.
pub proof fn lemma_strs_of_push(us: Seq<String>, u: String)
    ensures
        strs_of(us.push(u)) == strs_of(us).push(u@),
{
    assert(strs_of(us.push(u)) =~= strs_of(us).push(u@));
}

/// Whether a URL sequence holds no URL twice.
pub open spec fn urls_unique(urls: Seq<Seq<char>>) -> bool {
    forall|i: int, j: int| 0 <= i < j < urls.len() ==> urls[i] != urls[j]
}

/// The live peer set with its serialized copy, the two updated together.
pub struct PeerHandler {
    peers: Peers,
    peers_cache: Vec<u8>,
}

impl View for PeerHandler {
    type V = Seq<Seq<char>>;

    closed spec fn view(&self) -> Seq<Seq<char>> {
        self.peers@
    }
}

/// Whether `urls` holds `url`.
fn urls_contain(peers: &Vec<Peer>, url: &String) -> (r: bool)
    ensures
        r == urls_of(peers@).contains(url@),
{
    let mut i: usize = 0;
    while i < peers.len()
        invariant
            i <= peers.len(),
            forall|j: int| 0 <= j < i ==> urls_of(peers@)[j] != url@,
        decreases peers.len() - i,
    {
        if peers[i].url == *url {
            assert(urls_of(peers@)[i as int] == url@);
            return true;
        }
        i = i + 1;
    }
    false
}

/// Copies a peer list, keeping the first occurrence of each URL.
fn dedup_peers(peers: &Peers) -> (r: Vec<Peer>)
    ensures
        urls_unique(urls_of(r@)),
        forall|u: Seq<char>| urls_of(r@).contains(u) <==> peers@.contains(u),
{
    let mut out: Vec<Peer> = Vec::new();
    let mut i: usize = 0;
    while i < peers.peers.len()
        invariant
            i <= peers.peers.len(),
            urls_unique(urls_of(out@)),
            forall|u: Seq<char>|
                #[trigger] urls_of(out@).contains(u) <==> peers@.subrange(0, i as int).contains(u),
        decreases peers.peers.len() - i,
    {
        let ghost pre = out@;
        proof {
            assert(peers@[i as int] == peers.peers@[i as int]@);
        }
        if !urls_contain(&out, &peers.peers[i].url) {
            let p = Peer { url: peers.peers[i].url.clone() };
            let ghost gp = p;
            out.push(p);
            proof {
                broadcast use vstd::seq_lib::lemma_seq_contains_after_push;

                lemma_urls_of_push(pre, gp);
                assert(gp@ == peers@[i as int]);
                assert(urls_of(out@) == urls_of(pre).push(gp@));
                assert(forall|a: int, b: int|
                    0 <= a < b < urls_of(out@).len() ==> urls_of(out@)[a] != urls_of(out@)[b]);
            }
        } else {
            proof {
                assert(urls_of(out@).contains(peers@[i as int]));
            }
        }
        i = i + 1;
        proof {
            let cur = peers@.subrange(0, i as int);
            assert(cur.drop_last() =~= peers@.subrange(0, i - 1));
            assert(cur.last() == peers@[i - 1]);
            assert(forall|u: Seq<char>| #[trigger] cur.contains(u) <==> (cur.drop_last().contains(
                u,
            ) || u == cur.last()));
        }
    }
    proof {
        assert(peers@.subrange(0, peers@.len() as int) =~= peers@);
    }
    out
}

impl PeerHandler {
    /// Well-formedness: no URL twice, and the serialized copy is exactly the
    /// current set's encoding.
    pub closed spec fn wf(&self) -> bool {
        &&& urls_unique(self.peers@)
        &&& self.peers_cache@ == spec_peers_encode(self.peers@)
    }

    /// Builds a handler over the given peers, dropping duplicate URLs.
    pub fn new(peers: Peers) -> (r: PeerHandler)
        ensures
            r.wf(),
            forall|u: Seq<char>| r@.contains(u) <==> peers@.contains(u),
    {
        let deduped = Peers { peers: dedup_peers(&peers) };
        let peers_cache = deduped.encode();
        PeerHandler { peers: deduped, peers_cache }
    }

    /// The live URLs, in order.
    pub fn get_urls(&self) -> (r: Vec<String>)
        ensures
            strs_of(r@) == self@,
    {
        let mut out: Vec<String> = Vec::new();
        let mut i: usize = 0;
        while i < self.peers.peers.len()
            invariant
                i <= self.peers.peers.len(),
                strs_of(out@) == self@.subrange(0, i as int),
            decreases self.peers.peers.len() - i,
        {
            let ghost pre = out@;
            let u = self.peers.peers[i].url.clone();
            let ghost gu = u;
            out.push(u);
            i = i + 1;
            proof {
                lemma_strs_of_push(pre, gu);
                assert(gu@ == self@[i - 1]);
                assert(strs_of(out@) =~= self@.subrange(0, i as int));
            }
        }
        proof {
            assert(self@.subrange(0, self@.len() as int) =~= self@);
        }
        out
    }

    /// Replaces the live set and its serialized copy together, dropping
    /// duplicate URLs.
    pub fn set_peers(&mut self, peers: Peers)
        ensures
            final(self).wf(),
            forall|u: Seq<char>| final(self)@.contains(u) <==> peers@.contains(u),
    {
        let deduped = Peers { peers: dedup_peers(&peers) };
        self.peers_cache = deduped.encode();
        self.peers = deduped;
    }

    /// The serialized peer list, as cheap GET responses send it.
    pub fn get_raw_peers(&self) -> (r: Vec<u8>)
        requires
            self.wf(),
        ensures
            r@ == spec_peers_encode(self@),
    {
        copy_range(&self.peers_cache, 0, self.peers_cache.len())
    }

    /// Writes the current peer set to the store.
    pub fn persist(&self, store: &mut Store)
        requires
            self.wf(),
            old(store).wf(),
        ensures
            final(store).wf(),
            final(store)@ == old(store)@.insert(spec_peers_key(), spec_peers_encode(self@)),
    {
        let raw = self.get_raw_peers();
        store.put_peers(&raw);
    }

    /// How many peers are live.
    pub fn len(&self) -> (r: usize)
        ensures
            r == self@.len(),
    {
        self.peers.peers.len()
    }

    /// Draws up to `fan_size` distinct live peers, uniformly, for a read or
    /// write fan-out: no peer is contacted twice in one fan.
    pub fn sample_peers(&self, fan_size: usize) -> (r: Vec<String>)
        requires
            self.wf(),
        ensures
            r@.len() == vstd::math::min(fan_size as int, self@.len() as int),
            forall|i: int| 0 <= i < r@.len() ==> self@.contains(#[trigger] r@[i]@),
            forall|i: int, j: int| 0 <= i < j < r@.len() ==> r@[i]@ != r@[j]@,
    {
        let n = self.peers.peers.len();
        let amount = if fan_size < n {
            fan_size
        } else {
            n
        };
        let indices = sample_indices(n, amount);
        let mut out: Vec<String> = Vec::new();
        let mut i: usize = 0;
        while i < indices.len()
            invariant
                self.wf(),
                i <= indices.len(),
                indices@.len() == amount,
                forall|j: int| 0 <= j < indices@.len() ==> indices@[j] < self.peers.peers@.len(),
                forall|a: int, b: int| 0 <= a < b < indices@.len() ==> indices@[a] != indices@[b],
                out@.len() == i,
                forall|j: int| 0 <= j < i ==> self@.contains(#[trigger] out@[j]@),
                forall|j: int| 0 <= j < i ==> #[trigger] out@[j]@ == self@[indices@[j] as int],
            decreases indices.len() - i,
        {
            let idx = indices[i];
            out.push(self.peers.peers[idx].url.clone());
            proof {
                assert(self@[idx as int] == self.peers.peers@[idx as int].url@);
            }
            i = i + 1;
        }
        proof {
            // distinct indices into a duplicate-free set name distinct peers
            assert forall|a: int, b: int| 0 <= a < b < out@.len() implies out@[a]@ != out@[
                b
            ]@ by {
                let ia = indices@[a] as int;
                let ib = indices@[b] as int;
                if ia < ib {
                    assert(self@[ia] != self@[ib]);
                } else {
                    assert(self@[ib] != self@[ia]);
                }
            };
        }
        out
    }
}

/// Relies on rand::seq::index::sample: it returns exactly `amount` distinct
/// indices drawn from below `length`, in random order, and panics where
/// `amount` exceeds `length`.
#[verifier::external_body]
pub(crate) fn sample_indices(length: usize, amount: usize) -> (r: Vec<usize>)
    requires
        amount <= length,
    ensures
        r@.len() == amount,
        forall|i: int| 0 <= i < r@.len() ==> r@[i] < length,
        forall|i: int, j: int| 0 <= i < j < r@.len() ==> r@[i] != r@[j],
{
    let mut rng = rand::rng();
    rand::seq::index::sample(&mut rng, length, amount).into_vec()
}

/// One crawl step's outcome.
pub struct TraverseStep {
    /// The live set after the step.
    pub next: Vec<String>,
    /// The fresh URLs to fan out to next, where the crawl goes on.
    pub frontier: Vec<String>,
    /// Whether the crawl is finished: the frontier was empty, or the bound
    /// was reached.
    pub done: bool,
}

/// One step of the bounded crawl: fold the URLs found this round into the
/// live set. Fresh URLs (not yet in the set) become the next frontier; where
/// none are fresh the crawl ends; where they would push the set past
/// `max_peers`, just enough are taken to reach the bound and the crawl ends.
///
/// The live set never shrinks and never exceeds `max_peers`.
pub fn traverse_step(current: &Vec<String>, found: &Vec<String>, max_peers: u32) -> (r:
    TraverseStep)
    requires
        urls_unique(strs_of(current@)),
        current@.len() <= max_peers,
    ensures
        ({
            let cur = strs_of(current@);
            let nxt = strs_of(r.next@);
            let fnd = strs_of(found@);
            &&& urls_unique(nxt)
            &&& cur.len() <= nxt.len() <= max_peers
            &&& forall|u: Seq<char>| cur.contains(u) ==> nxt.contains(u)
            &&& forall|u: Seq<char>| nxt.contains(u) ==> cur.contains(u) || fnd.contains(u)
            &&& (forall|u: Seq<char>| fnd.contains(u) ==> cur.contains(u)) ==> (r.done
                && nxt =~= cur)
            &&& !r.done ==> forall|u: Seq<char>| fnd.contains(u) ==> nxt.contains(u)
            &&& nxt.len() < max_peers ==> forall|u: Seq<char>| fnd.contains(u) ==> nxt.contains(
                u,
            )
            &&& forall|i: int|
                0 <= i < r.frontier@.len() ==> nxt.contains(#[trigger] r.frontier@[i]@)
        }),
{
    let mut next: Vec<String> = Vec::new();
    let mut i: usize = 0;
    while i < current.len()
        invariant
            i <= current.len(),
            strs_of(next@) == strs_of(current@).subrange(0, i as int),
        decreases current.len() - i,
    {
        let ghost pre = next@;
        let u = current[i].clone();
        let ghost gu = u;
        next.push(u);
        i = i + 1;
        proof {
            lemma_strs_of_push(pre, gu);
            assert(gu@ == strs_of(current@)[i - 1]);
            assert(strs_of(next@) =~= strs_of(current@).subrange(0, i as int));
        }
    }
    proof {
        assert(strs_of(current@).subrange(0, current@.len() as int) =~= strs_of(current@));
    }
    let mut frontier: Vec<String> = Vec::new();
    let mut hit_bound = false;
    let mut i: usize = 0;
    while i < found.len()
        invariant
            i <= found.len(),
            urls_unique(strs_of(current@)),
            current@.len() <= max_peers,
            urls_unique(strs_of(next@)),
            strs_of(current@).len() <= strs_of(next@).len() <= max_peers,
            forall|u: Seq<char>| strs_of(current@).contains(u) ==> strs_of(next@).contains(u),
            forall|u: Seq<char>|
                strs_of(next@).contains(u) ==> strs_of(current@).contains(u) || strs_of(
                    found@,
                ).contains(u),
            forall|j: int|
                0 <= j < frontier@.len() ==> strs_of(next@).contains(#[trigger] frontier@[j]@),
            forall|j: int|
                0 <= j < frontier@.len() ==> strs_of(found@).contains(#[trigger] frontier@[j]@)
                    && !strs_of(current@).contains(frontier@[j]@),
            !hit_bound ==> forall|j: int|
                0 <= j < i ==> strs_of(next@).contains(#[trigger] strs_of(found@)[j]),
            hit_bound ==> strs_of(next@).len() == max_peers,
            frontier@.len() == 0 <==> strs_of(next@) =~= strs_of(current@),
        ensures
            urls_unique(strs_of(next@)),
            strs_of(current@).len() <= strs_of(next@).len() <= max_peers,
            forall|u: Seq<char>| strs_of(current@).contains(u) ==> strs_of(next@).contains(u),
            forall|u: Seq<char>|
                strs_of(next@).contains(u) ==> strs_of(current@).contains(u) || strs_of(
                    found@,
                ).contains(u),
            forall|j: int|
                0 <= j < frontier@.len() ==> strs_of(next@).contains(#[trigger] frontier@[j]@),
            forall|j: int|
                0 <= j < frontier@.len() ==> strs_of(found@).contains(#[trigger] frontier@[j]@)
                    && !strs_of(current@).contains(frontier@[j]@),
            hit_bound ==> strs_of(next@).len() == max_peers,
            !hit_bound ==> forall|j: int|
                0 <= j < strs_of(found@).len() ==> strs_of(next@).contains(
                    #[trigger] strs_of(found@)[j],
                ),
            frontier@.len() == 0 <==> strs_of(next@) =~= strs_of(current@),
        decreases found.len() - i,
    {
        proof {
            assert(strs_of(found@)[i as int] == found@[i as int]@);
        }
        if !vec_contains_url(&next, &found[i]) {
            if next.len() >= (max_peers as usize) {
                hit_bound = true;
                break ;
            }
            let ghost nxt_pre = next@;
            let u = found[i].clone();
            let ghost gu = u;
            next.push(u);
            frontier.push(found[i].clone());
            proof {
                broadcast use vstd::seq_lib::lemma_seq_contains_after_push;

                lemma_strs_of_push(nxt_pre, gu);
                assert(gu@ == strs_of(found@)[i as int]);
                assert(strs_of(next@) == strs_of(nxt_pre).push(gu@));
                assert(forall|a: int, b: int|
                    0 <= a < b < strs_of(next@).len() ==> strs_of(next@)[a] != strs_of(next@)[b]);
                assert(strs_of(next@).contains(strs_of(found@)[i as int]));
                assert(frontier@.last() == gu);
            }
        }
        i = i + 1;
    }
    let done = hit_bound || frontier.len() == 0;
    proof {
        let nxt = strs_of(next@);
        let fnd = strs_of(found@);
        let cur = strs_of(current@);
        if forall|u: Seq<char>| fnd.contains(u) ==> cur.contains(u) {
            assert(frontier@.len() == 0) by {
                if frontier@.len() > 0 {
                    assert(fnd.contains(frontier@[0]@) && !cur.contains(frontier@[0]@));
                }
            };
        }
        if nxt.len() < max_peers {
            assert(!hit_bound);
            assert(forall|u: Seq<char>| fnd.contains(u) ==> nxt.contains(u)) by {
                assert forall|u: Seq<char>| fnd.contains(u) implies nxt.contains(u) by {
                    let j = choose|j: int| 0 <= j < fnd.len() && fnd[j] == u;
                    assert(nxt.contains(fnd[j]));
                };
            };
        }
        if !done {
            assert(forall|u: Seq<char>| fnd.contains(u) ==> nxt.contains(u)) by {
                assert forall|u: Seq<char>| fnd.contains(u) implies nxt.contains(u) by {
                    let j = choose|j: int| 0 <= j < fnd.len() && fnd[j] == u;
                    assert(nxt.contains(fnd[j]));
                };
            };
        }
    }
    TraverseStep { next, frontier, done }
}

/// Whether the URL vector holds `url`.
fn vec_contains_url(urls: &Vec<String>, url: &String) -> (r: bool)
    ensures
        r == strs_of(urls@).contains(url@),
{
    let mut i: usize = 0;
    while i < urls.len()
        invariant
            i <= urls.len(),
            forall|j: int| 0 <= j < i ==> strs_of(urls@)[j] != url@,
        decreases urls.len() - i,
    {
        if urls[i] == *url {
            assert(strs_of(urls@)[i as int] == url@);
            return true;
        }
        i = i + 1;
    }
    false
}

/// The acceptance check for metadata fetched from a peer: the token header
/// must be present, and the body must decode, parse and verify as an
/// authorization wrapper. Returns the body and the header for the caller to
/// serve.
pub fn accept_peer_metadata(raw_auth_wrapper: Vec<u8>, token: Option<String>) -> (r: Result<
    (Vec<u8>, String),
    PeerError,
>)
    ensures
        match r {
            Ok((body, tok)) => {
                &&& token is Some
                &&& body@ == raw_auth_wrapper@
                &&& tok@ == token.unwrap()@
                &&& spec_wrapper_decode(raw_auth_wrapper@) is Some
                &&& spec_parse(spec_wrapper_decode(raw_auth_wrapper@).unwrap()) is Ok
                &&& spec_verify(
                    spec_parse(spec_wrapper_decode(raw_auth_wrapper@).unwrap()).unwrap(),
                )
            },
            Err(PeerError::MissingToken) => token is None,
            Err(PeerError::AuthWrapperDecode) => {
                &&& token is Some
                &&& spec_wrapper_decode(raw_auth_wrapper@) is None
            },
            Err(PeerError::InvalidAuthWrapper(e)) => {
                &&& token is Some
                &&& spec_wrapper_decode(raw_auth_wrapper@) is Some
                &&& spec_parse(spec_wrapper_decode(raw_auth_wrapper@).unwrap()) == Err::<
                    crate::wrapper::ParsedWrapperView,
                    ValidationError,
                >(e)
            },
            Err(PeerError::VerifyAuthWrapper(e)) => {
                &&& token is Some
                &&& spec_wrapper_decode(raw_auth_wrapper@) is Some
                &&& spec_parse(spec_wrapper_decode(raw_auth_wrapper@).unwrap()) is Ok
                &&& !spec_verify(
                    spec_parse(spec_wrapper_decode(raw_auth_wrapper@).unwrap()).unwrap(),
                )
                &&& e == CryptoError::Verification
            },
            Err(_) => false,
        },
{
    let tok = match token {
        None => {
            return Err(PeerError::MissingToken);
        },
        Some(t) => t,
    };
    let auth_wrapper = match AuthWrapper::decode(&raw_auth_wrapper) {
        None => {
            return Err(PeerError::AuthWrapperDecode);
        },
        Some(w) => w,
    };
    let parsed = match auth_wrapper.parse() {
        Err(e) => {
            return Err(PeerError::InvalidAuthWrapper(e));
        },
        Ok(p) => p,
    };
    match parsed.verify() {
        Err(e) => Err(PeerError::VerifyAuthWrapper(e)),
        Ok(()) => Ok((raw_auth_wrapper, tok)),
    }
}

/// Serves the peer-list read: refused where peering is disabled, otherwise
/// the serialized live set.
pub fn get_peers(enabled: bool, handler: &PeerHandler) -> (r: Result<Vec<u8>, PeeringUnavailible>)
    requires
        handler.wf(),
    ensures
        match r {
            Ok(raw) => enabled && raw@ == spec_peers_encode(handler@),
            Err(_) => !enabled,
        },
{
    if !enabled {
        return Err(PeeringUnavailible);
    }
    Ok(handler.get_raw_peers())
}

} // verus!

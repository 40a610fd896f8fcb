//! The metadata store: a single keyspace from byte keys to byte values,
//! namespaced by the leading byte of each key. Metadata entries live under
//! `'m' ‖ identity`, the peer list under the single-byte key `'p'`.
//!
//! The store is the verified model of the node's persistent map: a put is one
//! atomic insert, a get reads exactly what the last put under that key wrote.
//! Durability (mirroring every write to disk) is the embedding program's
//! concern and changes no contract here.

use vstd::prelude::*;

use crate::codec::{bytes_eq, copy_range};
use crate::models::{spec_db_wrapper_decode, spec_peers_decode, DatabaseWrapper, Peers};

verus! {

/// Leading byte of every metadata key.
pub const METADATA_NAMESPACE: u8 = 109;

/// The key of the peer-list entry.
pub const PEER_NAMESPACE: u8 = 112;

/// The key under which the metadata of `addr` is stored.
pub open spec fn spec_metadata_key(addr: Seq<u8>) -> Seq<u8> {
    seq![METADATA_NAMESPACE] + addr
}

/// The key under which the peer list is stored.
pub open spec fn spec_peers_key() -> Seq<u8> {
    seq![PEER_NAMESPACE]
}

/// Builds the metadata key for an identity: the namespace byte, then the
/// identity bytes.
pub fn metadata_key(addr: &Vec<u8>) -> (key: Vec<u8>)
    ensures
        key@ == spec_metadata_key(addr@),
{
    let mut key: Vec<u8> = Vec::new();
    key.push(METADATA_NAMESPACE);
    let mut i: usize = 0;
    while i < addr.len()
        invariant
            i <= addr.len(),
            key@ == seq![METADATA_NAMESPACE] + addr@.subrange(0, i as int),
        decreases addr.len() - i,
    {
        key.push(addr[i]);
        i = i + 1;
        proof {
            assert(addr@.subrange(0, i as int) =~= addr@.subrange(0, i - 1) + seq![addr@[i - 1]]);
        }
    }
    proof {
        assert(addr@.subrange(0, addr@.len() as int) =~= addr@);
    }
    key
}

/// Builds the peer-list key.
pub fn peers_key() -> (key: Vec<u8>)
    ensures
        key@ == spec_peers_key(),
{
    let mut key: Vec<u8> = Vec::new();
    key.push(PEER_NAMESPACE);
    proof {
        assert(key@ =~= spec_peers_key());
    }
    key
}

/// Namespace isolation: no metadata key, for any identity, is the peer-list
/// key.
pub proof fn lemma_namespace_isolation(addr: Seq<u8>)
    ensures
        spec_metadata_key(addr) != spec_peers_key(),
{
    assert(spec_metadata_key(addr)[0] == METADATA_NAMESPACE);
    assert(spec_peers_key()[0] == PEER_NAMESPACE);
}

/// Metadata keys of distinct identities are distinct.
pub proof fn lemma_metadata_key_injective(a: Seq<u8>, b: Seq<u8>)
    requires
        spec_metadata_key(a) == spec_metadata_key(b),
    ensures
        a == b,
{
    assert(spec_metadata_key(a).skip(1) =~= a);
    assert(spec_metadata_key(b).skip(1) =~= b);
}

/// A failure while reading the store.
#[derive(Clone, Copy, Debug, PartialEq, Eq)]
pub enum StoreError {
    /// A stored value does not decode; values are written by this process,
    /// so this is an unrecoverable fault.
    Corrupt,
}

/// The map of keys to stored values that an entry list denotes; a later
/// entry under the same key wins.
pub closed spec fn entry_map(s: Seq<(Vec<u8>, Vec<u8>)>) -> Map<Seq<u8>, Seq<u8>>
    decreases s.len(),
{
    if s.len() == 0 {
        Map::empty()
    } else {
        entry_map(s.drop_last()).insert(s.last().0@, s.last().1@)
    }
}

/// Whether the entry list holds each key at most once.
pub closed spec fn entries_unique(s: Seq<(Vec<u8>, Vec<u8>)>) -> bool {
    forall|i: int, j: int| 0 <= i < j < s.len() ==> s[i].0@ != s[j].0@
}

/// A key held by no entry is not in the map.
proof fn lemma_entry_map_absent(s: Seq<(Vec<u8>, Vec<u8>)>, k: Seq<u8>)
    requires
        forall|i: int| 0 <= i < s.len() ==> s[i].0@ != k,
    ensures
        !entry_map(s).dom().contains(k),
    decreases s.len(),
{
    if s.len() > 0 {
        lemma_entry_map_absent(s.drop_last(), k);
    }
}

/// With unique keys, the entry at `i` gives the map's value under its key.
proof fn lemma_entry_map_at(s: Seq<(Vec<u8>, Vec<u8>)>, i: int)
    requires
        entries_unique(s),
        0 <= i < s.len(),
    ensures
        entry_map(s).dom().contains(s[i].0@),
        entry_map(s)[s[i].0@] == s[i].1@,
    decreases s.len(),
{
    if i < s.len() - 1 {
        lemma_entry_map_at(s.drop_last(), i);
        assert(s[i].0@ != s.last().0@);
    }
}

/// Replacing the entry at `i` in place updates the map at its key alone.
proof fn lemma_entry_map_update(s: Seq<(Vec<u8>, Vec<u8>)>, i: int, e: (Vec<u8>, Vec<u8>))
    requires
        entries_unique(s),
        0 <= i < s.len(),
        s[i].0@ == e.0@,
    ensures
        entry_map(s.update(i, e)) == entry_map(s).insert(e.0@, e.1@),
    decreases s.len(),
{
    let t = s.update(i, e);
    if i == s.len() - 1 {
        assert(t.drop_last() =~= s.drop_last());
        assert(t.last() == e);
        assert(entry_map(s).insert(e.0@, e.1@) =~= entry_map(s.drop_last()).insert(e.0@, e.1@));
    } else {
        assert(t.drop_last() =~= s.drop_last().update(i, e));
        lemma_entry_map_update(s.drop_last(), i, e);
        assert(t.last() == s.last());
        assert(s[i].0@ != s.last().0@);
        assert(entry_map(s.drop_last()).insert(e.0@, e.1@).insert(s.last().0@, s.last().1@)
            =~= entry_map(s.drop_last()).insert(s.last().0@, s.last().1@).insert(e.0@, e.1@));
    }
}

/// The node's key-value store.
pub struct Store {
    entries: Vec<(Vec<u8>, Vec<u8>)>,
}

impl View for Store {
    type V = Map<Seq<u8>, Seq<u8>>;

    closed spec fn view(&self) -> Map<Seq<u8>, Seq<u8>> {
        entry_map(self.entries@)
    }
}

impl Store {
    /// Well-formedness: each key is held at most once.
    pub closed spec fn wf(&self) -> bool {
        entries_unique(self.entries@)
    }

    /// Opens an empty store.
    pub fn new() -> (r: Store)
        ensures
            r.wf(),
            r@ == Map::<Seq<u8>, Seq<u8>>::empty(),
    {
        Store { entries: Vec::new() }
    }

    /// Reads the raw value under `key`.
    pub fn get_raw(&self, key: &Vec<u8>) -> (r: Option<Vec<u8>>)
        requires
            self.wf(),
        ensures
            match r {
                Some(v) => self@.dom().contains(key@) && v@ == self@[key@],
                None => !self@.dom().contains(key@),
            },
    {
        let mut i: usize = 0;
        while i < self.entries.len()
            invariant
                self.wf(),
                i <= self.entries.len(),
                forall|j: int| 0 <= j < i ==> self.entries@[j].0@ != key@,
            decreases self.entries.len() - i,
        {
            if bytes_eq(&self.entries[i].0, key) {
                proof {
                    lemma_entry_map_at(self.entries@, i as int);
                }
                let v = copy_range(&self.entries[i].1, 0, self.entries[i].1.len());
                proof {
                    assert(v@ =~= self.entries@[i as int].1@);
                }
                return Some(v);
            }
            i = i + 1;
        }
        proof {
            lemma_entry_map_absent(self.entries@, key@);
        }
        None
    }

    /// Writes `value` under `key`: one atomic insert.
    pub fn put_raw(&mut self, key: &Vec<u8>, value: &Vec<u8>)
        requires
            old(self).wf(),
        ensures
            final(self).wf(),
            final(self)@ == old(self)@.insert(key@, value@),
    {
        let k = copy_range(key, 0, key.len());
        let v = copy_range(value, 0, value.len());
        proof {
            assert(k@ =~= key@);
            assert(v@ =~= value@);
        }
        let mut i: usize = 0;
        while i < self.entries.len()
            invariant
                self.wf(),
                self@ == old(self)@,
                self.entries@ == old(self).entries@,
                i <= self.entries.len(),
                forall|j: int| 0 <= j < i ==> self.entries@[j].0@ != key@,
                k@ == key@,
                v@ == value@,
            decreases self.entries.len() - i,
        {
            if bytes_eq(&self.entries[i].0, &k) {
                proof {
                    lemma_entry_map_update(self.entries@, i as int, (k, v));
                }
                self.entries.set(i, (k, v));
                assert(final(self).wf()) by {
                    assert(forall|a: int, b: int|
                        0 <= a < b < self.entries@.len() ==> self.entries@[a].0@
                            != self.entries@[b].0@);
                }
                return ;
            }
            i = i + 1;
        }
        proof {
            lemma_entry_map_absent(self.entries@, key@);
        }
        let ghost before = self.entries@;
        self.entries.push((k, v));
        proof {
            assert(self.entries@.drop_last() =~= before);
            assert(self.entries@.last() == (k, v));
        }
    }

    /// Reads the raw stored value of an identity.
    pub fn get_raw_metadata(&self, addr: &Vec<u8>) -> (r: Option<Vec<u8>>)
        requires
            self.wf(),
        ensures
            match r {
                Some(v) => self@.dom().contains(spec_metadata_key(addr@)) && v@ == self@[
                    spec_metadata_key(addr@)
                ],
                None => !self@.dom().contains(spec_metadata_key(addr@)),
            },
    {
        let key = metadata_key(addr);
        self.get_raw(&key)
    }

    /// Reads and decodes the stored database envelope of an identity. A
    /// stored value that does not decode is a fatal store fault.
    pub fn get_metadata(&self, addr: &Vec<u8>) -> (r: Result<Option<DatabaseWrapper>, StoreError>)
        requires
            self.wf(),
        ensures
            match self@.get(spec_metadata_key(addr@)) {
                None => r == Ok::<Option<DatabaseWrapper>, StoreError>(None),
                Some(bytes) => match spec_db_wrapper_decode(bytes) {
                    Some(v) => r is Ok && r.unwrap() is Some && r.unwrap().unwrap()@ == v,
                    None => r == Err::<Option<DatabaseWrapper>, StoreError>(StoreError::Corrupt),
                },
            },
    {
        match self.get_raw_metadata(addr) {
            None => Ok(None),
            Some(raw) => match DatabaseWrapper::decode(&raw) {
                Some(w) => Ok(Some(w)),
                None => Err(StoreError::Corrupt),
            },
        }
    }

    /// Writes the raw database envelope of an identity: one atomic insert.
    pub fn put_metadata(&mut self, addr: &Vec<u8>, raw: &Vec<u8>)
        requires
            old(self).wf(),
        ensures
            final(self).wf(),
            final(self)@ == old(self)@.insert(spec_metadata_key(addr@), raw@),
    {
        let key = metadata_key(addr);
        self.put_raw(&key, raw);
    }

    /// Reads the raw stored peer list.
    pub fn get_peers_raw(&self) -> (r: Option<Vec<u8>>)
        requires
            self.wf(),
        ensures
            match r {
                Some(v) => self@.dom().contains(spec_peers_key()) && v@ == self@[spec_peers_key()],
                None => !self@.dom().contains(spec_peers_key()),
            },
    {
        let key = peers_key();
        self.get_raw(&key)
    }

    /// Reads and decodes the stored peer list. A stored value that does not
    /// decode is a fatal store fault.
    pub fn get_peers(&self) -> (r: Result<Option<Peers>, StoreError>)
        requires
            self.wf(),
        ensures
            match self@.get(spec_peers_key()) {
                None => r == Ok::<Option<Peers>, StoreError>(None),
                Some(bytes) => match spec_peers_decode(bytes) {
                    Some(urls) => r is Ok && r.unwrap() is Some && r.unwrap().unwrap()@ == urls,
                    None => r == Err::<Option<Peers>, StoreError>(StoreError::Corrupt),
                },
            },
    {
        match self.get_peers_raw() {
            None => Ok(None),
            Some(raw) => match Peers::decode(&raw) {
                Some(p) => Ok(Some(p)),
                None => Err(StoreError::Corrupt),
            },
        }
    }

    /// Writes the raw peer list: one atomic insert.
    pub fn put_peers(&mut self, raw: &Vec<u8>)
        requires
            old(self).wf(),
        ensures
            final(self).wf(),
            final(self)@ == old(self)@.insert(spec_peers_key(), raw@),
    {
        let key = peers_key();
        self.put_raw(&key, raw);
    }
}

/// Store atomicity: after a put of `v` under `addr`, a get of `addr` reads
/// exactly `v`, and every other identity's entry is untouched.
pub proof fn lemma_put_get_metadata(
    m: Map<Seq<u8>, Seq<u8>>,
    addr: Seq<u8>,
    v: Seq<u8>,
    other: Seq<u8>,
)
    ensures
        m.insert(spec_metadata_key(addr), v)[spec_metadata_key(addr)] == v,
        other != addr ==> m.insert(spec_metadata_key(addr), v).get(spec_metadata_key(other))
            == m.get(spec_metadata_key(other)),
        m.insert(spec_metadata_key(addr), v).get(spec_peers_key()) == m.get(spec_peers_key()),
{
    if other != addr {
        if spec_metadata_key(other) == spec_metadata_key(addr) {
            lemma_metadata_key_injective(other, addr);
        }
    }
    lemma_namespace_isolation(addr);
}

} // verus!

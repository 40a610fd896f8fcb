//! The deferred-gossip buffer: a sliding window of blocks, one per chain
//! tick, each holding the identities accepted during that interval. An
//! identity enters the front block; each tick pushes a fresh front block and
//! pops the back block for broadcast, so an entry waits out the configured
//! delay before it is gossiped.

use vstd::prelude::*;

use crate::codec::bytes_eq;
use crate::models::spec_db_wrapper_decode;
use crate::store::{spec_metadata_key, Store};
use crate::token::{spec_token_header, token_header};

verus! {

/// The identities of one block.
pub open spec fn block_of(b: Vec<Vec<u8>>) -> Seq<Seq<u8>> {
    b@.map_values(|a: Vec<u8>| a@)
}

/// The blocks of the cache, front first.
pub open spec fn blocks_of(bs: Seq<Vec<Vec<u8>>>) -> Seq<Seq<Seq<u8>>> {
    bs.map_values(|b: Vec<Vec<u8>>| block_of(b))
}

/// Whether a block holds no identity twice: blocks are sets.
pub open spec fn block_unique(b: Seq<Seq<u8>>) -> bool {
    forall|i: int, j: int| 0 <= i < j < b.len() ==> b[i] != b[j]
}

/// The sliding window of identities awaiting gossip.
pub struct TokenCache {
    blocks: Vec<Vec<Vec<u8>>>,
}

impl View for TokenCache {
    type V = Seq<Seq<Seq<u8>>>;

    closed spec fn view(&self) -> Seq<Seq<Seq<u8>>> {
        blocks_of(self.blocks@)
    }
}

/// One tick's turn of the window: a fresh empty block in front, the back
/// block gone.
pub open spec fn spec_rotate(v: Seq<Seq<Seq<u8>>>) -> Seq<Seq<Seq<u8>>> {
    seq![Seq::<Seq<u8>>::empty()] + v.drop_last()
}

/// The window after `k` ticks.
pub open spec fn spec_rotations(v: Seq<Seq<Seq<u8>>>, k: nat) -> Seq<Seq<Seq<u8>>>
    decreases k,
{
    if k == 0 {
        v
    } else {
        spec_rotate(spec_rotations(v, (k - 1) as nat))
    }
}

/// The wrapper bytes and token header that broadcasting the identities
/// `addrs` against the store `m` sends: one item per identity whose stored
/// envelope exists and decodes, in order; the others are dropped silently.
pub open spec fn spec_broadcast_items(m: Map<Seq<u8>, Seq<u8>>, addrs: Seq<Seq<u8>>) -> Seq<
    (Seq<u8>, Seq<u8>, Seq<char>),
>
    decreases addrs.len(),
{
    if addrs.len() == 0 {
        Seq::empty()
    } else {
        let rest = spec_broadcast_items(m, addrs.drop_last());
        let addr = addrs.last();
        match m.get(spec_metadata_key(addr)) {
            None => rest,
            Some(bytes) => match spec_db_wrapper_decode(bytes) {
                None => rest,
                Some(w) => rest + seq![
                    (addr, w.serialized_auth_wrapper, spec_token_header(w.token)),
                ],
            },
        }
    }
}

impl TokenCache {
    /// Well-formedness: every block is a set of identities.
    pub open spec fn wf(&self) -> bool {
        forall|k: int| 0 <= k < self@.len() ==> block_unique(#[trigger] self@[k])
    }

    /// Builds a cache of `broadcast_delay` empty blocks.
    pub fn new(broadcast_delay: usize) -> (r: TokenCache)
        requires
            broadcast_delay >= 1,
        ensures
            r.wf(),
            r@.len() == broadcast_delay,
            forall|i: int| 0 <= i < r@.len() ==> r@[i] == Seq::<Seq<u8>>::empty(),
    {
        let mut blocks: Vec<Vec<Vec<u8>>> = Vec::new();
        let mut i: usize = 0;
        while i < broadcast_delay
            invariant
                i <= broadcast_delay,
                blocks@.len() == i,
                forall|j: int|
                    0 <= j < i ==> #[trigger] blocks@[j]@ == Seq::<Vec<u8>>::empty(),
            decreases broadcast_delay - i,
        {
            blocks.push(Vec::new());
            i = i + 1;
        }
        proof {
            assert(forall|j: int|
                0 <= j < blocks@.len() ==> #[trigger] blocks_of(blocks@)[j] =~= Seq::<
                    Seq<u8>,
                >::empty());
        }
        TokenCache { blocks }
    }

    /// How many blocks the window holds.
    pub fn depth(&self) -> (r: usize)
        ensures
            r == self@.len(),
    {
        self.blocks.len()
    }

    /// Records an accepted identity in the front block. Blocks are sets:
    /// re-adding an identity already recorded this interval changes nothing.
    pub fn add_token(&mut self, addr: Vec<u8>)
        requires
            old(self).wf(),
            old(self)@.len() >= 1,
        ensures
            final(self).wf(),
            final(self)@.len() == old(self)@.len(),
            final(self)@[0].contains(addr@),
            old(self)@[0].contains(addr@) ==> final(self)@[0] == old(self)@[0],
            !old(self)@[0].contains(addr@) ==> final(self)@[0] == old(self)@[0].push(addr@),
            forall|i: int| 1 <= i < old(self)@.len() ==> final(self)@[i] == old(self)@[i],
    {
        let mut front = self.blocks.remove(0);
        let ghost pre = block_of(front);
        proof {
            assert(pre == old(self)@[0]);
            assert(block_unique(pre));
        }
        if !block_contains(&front, &addr) {
            front.push(addr);
            proof {
                broadcast use vstd::seq_lib::lemma_seq_contains_after_push;

                assert(block_of(front) =~= pre.push(addr@));
                assert(forall|j: int| 0 <= j < pre.len() ==> pre[j] != addr@);
                assert(forall|a: int, b: int|
                    0 <= a < b < block_of(front).len() ==> block_of(front)[a] != block_of(
                        front,
                    )[b]);
                assert(block_unique(block_of(front)));
            }
        } else {
            proof {
                assert(block_of(front) =~= pre);
                assert(block_unique(block_of(front)));
            }
        }
        self.blocks.insert(0, front);
        proof {
            assert(self@[0] == block_of(front));
            assert(forall|i: int| 1 <= i < old(self)@.len() ==> self@[i] =~= old(self)@[i]);
            assert(self.wf()) by {
                assert(block_unique(self@[0]));
                assert(forall|k: int|
                    1 <= k < self@.len() ==> block_unique(#[trigger] self@[k]));
            };
        }
    }

    /// Turns the window on a chain tick: pushes a fresh front block, pops the
    /// back block, and returns what broadcasting it against `store` sends:
    /// for each identity in the popped block whose stored envelope exists and
    /// decodes, the identity, its stored wrapper bytes, and its token header.
    pub fn broadcast_block(&mut self, store: &Store) -> (r: Vec<(Vec<u8>, Vec<u8>, String)>)
        requires
            old(self).wf(),
            old(self)@.len() >= 1,
            store.wf(),
        ensures
            final(self).wf(),
            final(self)@ == spec_rotate(old(self)@),
            r@.map_values(|it: (Vec<u8>, Vec<u8>, String)| (it.0@, it.1@, it.2@))
                == spec_broadcast_items(store@, old(self)@.last()),
            forall|i: int, j: int| 0 <= i < j < r@.len() ==> r@[i].0@ != r@[j].0@,
    {
        self.blocks.insert(0, Vec::new());
        let back = self.blocks.pop().unwrap();
        proof {
            assert(self@ =~~= spec_rotate(old(self)@));
            assert(block_of(back) == old(self)@.last());
            assert(self@[0] =~= Seq::<Seq<u8>>::empty());
            assert(forall|k: int| 1 <= k < self@.len() ==> self@[k] == old(self)@[k - 1]);
        }
        let mut items: Vec<(Vec<u8>, Vec<u8>, String)> = Vec::new();
        let mut i: usize = 0;
        proof {
            assert(items@.map_values(|it: (Vec<u8>, Vec<u8>, String)| (it.0@, it.1@, it.2@))
                =~= spec_broadcast_items(store@, block_of(back).subrange(0, 0)));
        }
        while i < back.len()
            invariant
                i <= back.len(),
                store.wf(),
                items@.map_values(|it: (Vec<u8>, Vec<u8>, String)| (it.0@, it.1@, it.2@))
                    == spec_broadcast_items(store@, block_of(back).subrange(0, i as int)),
            decreases back.len() - i,
        {
            let ghost pre = block_of(back).subrange(0, i as int);
            let addr = &back[i];
            match store.get_metadata(addr) {
                Ok(Some(w)) => {
                    let header = token_header(&w.token);
                    items.push((back[i].clone(), w.serialized_auth_wrapper, header));
                },
                _ => (),
            }
            i = i + 1;
            proof {
                let cur = block_of(back).subrange(0, i as int);
                assert(cur.drop_last() =~= pre);
                assert(cur.last() == block_of(back)[i - 1]);
                assert(back@[i - 1]@ == block_of(back)[i - 1]);
                assert(items@.map_values(|it: (Vec<u8>, Vec<u8>, String)| (it.0@, it.1@, it.2@))
                    =~= spec_broadcast_items(store@, cur));
            }
        }
        proof {
            assert(block_of(back).subrange(0, back@.len() as int) =~= block_of(back));
            assert(block_unique(block_of(back)));
            lemma_broadcast_once(store@, block_of(back));
            let its = items@.map_values(|it: (Vec<u8>, Vec<u8>, String)| (it.0@, it.1@, it.2@));
            let spec_items = spec_broadcast_items(store@, block_of(back));
            assert forall|i: int, j: int| 0 <= i < j < items@.len() implies #[trigger] items@[
                i
            ].0@ != #[trigger] items@[j].0@ by {
                assert(its[i] == spec_items[i] && its[j] == spec_items[j]);
                assert(spec_items[i].0 != spec_items[j].0);
                assert(its[i].0 == items@[i].0@ && its[j].0 == items@[j].0@);
            };
            assert(self.wf()) by {
                assert(block_unique(self@[0]));
                assert(forall|k: int|
                    1 <= k < self@.len() ==> block_unique(#[trigger] self@[k]));
            };
        }
        items
    }
}

/// Whether the block `b` holds `addr`.
fn block_contains(b: &Vec<Vec<u8>>, addr: &Vec<u8>) -> (r: bool)
    ensures
        r == block_of(*b).contains(addr@),
{
    let mut i: usize = 0;
    while i < b.len()
        invariant
            i <= b.len(),
            forall|j: int| 0 <= j < i ==> block_of(*b)[j] != addr@,
        decreases b.len() - i,
    {
        if bytes_eq(&b[i], addr) {
            assert(block_of(*b)[i as int] == addr@);
            return true;
        }
        i = i + 1;
    }
    false
}

/// Every broadcast item's identity comes from the popped block.
proof fn lemma_broadcast_items_sources(m: Map<Seq<u8>, Seq<u8>>, addrs: Seq<Seq<u8>>)
    ensures
        forall|i: int|
            0 <= i < spec_broadcast_items(m, addrs).len() ==> addrs.contains(
                #[trigger] spec_broadcast_items(m, addrs)[i].0,
            ),
    decreases addrs.len(),
{
    if addrs.len() > 0 {
        lemma_broadcast_items_sources(m, addrs.drop_last());
        let rest = spec_broadcast_items(m, addrs.drop_last());
        let s = spec_broadcast_items(m, addrs);
        assert forall|i: int| 0 <= i < s.len() implies addrs.contains(#[trigger] s[i].0) by {
            if i < rest.len() {
                let k = choose|k: int|
                    0 <= k < addrs.drop_last().len() && addrs.drop_last()[k] == rest[i].0;
                assert(addrs[k] == rest[i].0);
            } else {
                assert(s[i].0 == addrs.last());
            }
        };
    }
}

/// Broadcasting a duplicate-free block names each identity at most once.
pub proof fn lemma_broadcast_once(m: Map<Seq<u8>, Seq<u8>>, addrs: Seq<Seq<u8>>)
    requires
        block_unique(addrs),
    ensures
        forall|i: int, j: int|
            0 <= i < j < spec_broadcast_items(m, addrs).len() ==> #[trigger] spec_broadcast_items(
                m,
                addrs,
            )[i].0 != #[trigger] spec_broadcast_items(m, addrs)[j].0,
    decreases addrs.len(),
{
    if addrs.len() > 0 {
        assert(block_unique(addrs.drop_last()));
        lemma_broadcast_once(m, addrs.drop_last());
        lemma_broadcast_items_sources(m, addrs.drop_last());
        let rest = spec_broadcast_items(m, addrs.drop_last());
        let s = spec_broadcast_items(m, addrs);
        assert forall|i: int, j: int| 0 <= i < j < s.len() implies #[trigger] s[i].0
            != #[trigger] s[j].0 by {
            if j < rest.len() {
                assert(s[i].0 == rest[i].0 && s[j].0 == rest[j].0);
            } else if j == rest.len() && s.len() > rest.len() {
                // the new item carries the block's last identity, which the
                // earlier items, all drawn from the rest of the block, miss
                let k = choose|k: int|
                    0 <= k < addrs.drop_last().len() && addrs.drop_last()[k] == rest[i].0;
                assert(addrs[k] == rest[i].0);
                assert(addrs[k] != addrs.last());
                assert(s[j].0 == addrs.last());
            }
        };
    }
}

/// The block popped by the `j`-th tick is the one that stood at depth
/// `len - j` when counting began.
pub proof fn lemma_rotation_pops(v: Seq<Seq<Seq<u8>>>, j: nat)
    requires
        1 <= j <= v.len(),
    ensures
        spec_rotations(v, (j - 1) as nat).last() == v[v.len() - j],
    decreases j,
{
    if j > 1 {
        let w = spec_rotations(v, (j - 2) as nat);
        lemma_rotations_len(v, (j - 2) as nat);
        lemma_rotations_index(v, (j - 2) as nat, v.len() - j);
        assert(spec_rotations(v, (j - 1) as nat) == spec_rotate(w));
        assert(spec_rotate(w).last() == w[w.len() - 2]);
    }
}

/// Rotation keeps the window's depth.
pub proof fn lemma_rotations_len(v: Seq<Seq<Seq<u8>>>, k: nat)
    requires
        v.len() >= 1,
    ensures
        spec_rotations(v, k).len() == v.len(),
    decreases k,
{
    if k > 0 {
        lemma_rotations_len(v, (k - 1) as nat);
    }
}

/// After `k` ticks, the block that stood at index `i` stands at index
/// `i + k`, as long as it has not been popped.
pub proof fn lemma_rotations_index(v: Seq<Seq<Seq<u8>>>, k: nat, i: int)
    requires
        v.len() >= 1,
        0 <= i,
        i + k < v.len(),
    ensures
        spec_rotations(v, k)[i + k] == v[i],
    decreases k,
{
    if k > 0 {
        lemma_rotations_index(v, (k - 1) as nat, i);
        lemma_rotations_len(v, (k - 1) as nat);
    }
}

/// Retention: an identity standing in the front block of a window of
/// `delay` blocks is in the block that the `delay`-th following tick pops,
/// so it is broadcast then, provided its store entry still exists.
pub proof fn lemma_token_cache_retention(v: Seq<Seq<Seq<u8>>>, addr: Seq<u8>)
    requires
        v.len() >= 1,
        v[0].contains(addr),
    ensures
        spec_rotations(v, (v.len() - 1) as nat).last().contains(addr),
{
    lemma_rotation_pops(v, v.len() as nat);
}

/// An identity in the popped block whose stored envelope exists and decodes
/// is among the broadcast items.
pub proof fn lemma_broadcast_keeps_live_entries(
    m: Map<Seq<u8>, Seq<u8>>,
    addrs: Seq<Seq<u8>>,
    i: int,
)
    requires
        0 <= i < addrs.len(),
        m.dom().contains(spec_metadata_key(addrs[i])),
        spec_db_wrapper_decode(m[spec_metadata_key(addrs[i])]) is Some,
    ensures
        ({
            let w = spec_db_wrapper_decode(m[spec_metadata_key(addrs[i])]).unwrap();
            spec_broadcast_items(m, addrs).contains(
                (addrs[i], w.serialized_auth_wrapper, spec_token_header(w.token)),
            )
        }),
    decreases addrs.len(),
{
    let w = spec_db_wrapper_decode(m[spec_metadata_key(addrs[i])]).unwrap();
    let item = (addrs[i], w.serialized_auth_wrapper, spec_token_header(w.token));
    if i == addrs.len() - 1 {
        let s = spec_broadcast_items(m, addrs);
        assert(s.last() == item);
        assert(s.contains(item));
    } else {
        assert(addrs.drop_last()[i] == addrs[i]);
        lemma_broadcast_keeps_live_entries(m, addrs.drop_last(), i);
        let rest = spec_broadcast_items(m, addrs.drop_last());
        let s = spec_broadcast_items(m, addrs);
        let j = choose|j: int| 0 <= j < rest.len() && rest[j] == item;
        assert(s[j] == item);
        assert(s.contains(item));
    }
}

} // verus!

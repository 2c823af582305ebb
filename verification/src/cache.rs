use vstd::prelude::*;

use crate::error::{IoriError, IoriResult};
use crate::segment::SegmentInfo;

verus! {

/// An association list from sequence numbers to values: the shared core of
/// the cache backends.  Keys are pairwise distinct, so the list denotes a
/// map, which is the view every contract speaks of.  Per-key serialization
/// across concurrent tasks is the caller's concern; the store itself is the
/// sequential state that such a discipline protects.
pub struct KeyedStore<V: View> {
    items: Vec<(u64, V)>,
}

impl<V: View> KeyedStore<V> {
    /// Keys are pairwise distinct: each key names at most one value.
    pub closed spec fn inv(self) -> bool {
        forall|i: int, j: int|
            0 <= i < j < self.items@.len() ==> self.items@[i].0 != self.items@[j].0
    }

    pub closed spec fn has_key(self, k: u64) -> bool {
        exists|i: int| 0 <= i < self.items@.len() && self.items@[i].0 == k
    }

    pub closed spec fn spec_index_of(self, k: u64) -> int {
        choose|i: int| 0 <= i < self.items@.len() && self.items@[i].0 == k
    }

    /// With distinct keys, any index holding `k` is the index the view reads.
    proof fn lemma_at(self, i: int)
        requires
            self.inv(),
            0 <= i < self.items@.len(),
        ensures
            self@.dom().contains(self.items@[i].0),
            self@[self.items@[i].0] == self.items@[i].1@,
    {
        let k = self.items@[i].0;
        assert(self.has_key(k));
        let j = self.spec_index_of(k);
        assert(0 <= j < self.items@.len() && self.items@[j].0 == k);
        if i < j {
            assert(self.items@[i].0 != self.items@[j].0);
        } else if j < i {
            assert(self.items@[j].0 != self.items@[i].0);
        }
        assert(j == i);
    }

    pub fn new() -> (r: Self)
        ensures
            r.inv(),
            r@ == Map::<u64, V::V>::empty(),
    {
        let r = KeyedStore { items: Vec::new() };
        proof {
            assert(r@ =~= Map::<u64, V::V>::empty());
        }
        r
    }

    /// Index of the entry holding `k`, if one exists.
    fn find(&self, k: u64) -> (r: Option<usize>)
        requires
            self.inv(),
        ensures
            r is Some <==> self@.dom().contains(k),
            r matches Some(i) ==> i < self.items@.len() && self.items@[i as int].0 == k
                && self@[k] == self.items@[i as int].1@,
    {
        let n = self.items.len();
        let mut i: usize = 0;
        while i < n
            invariant
                n == self.items@.len(),
                i <= n,
                self.inv(),
                forall|j: int| 0 <= j < i ==> self.items@[j].0 != k,
            decreases n - i,
        {
            if self.items[i].0 == k {
                proof {
                    self.lemma_at(i as int);
                }
                return Some(i);
            }
            i += 1;
        }
        proof {
            assert(!self.has_key(k));
        }
        None
    }

    pub fn get(&self, k: u64) -> (r: Option<&V>)
        requires
            self.inv(),
        ensures
            r is Some <==> self@.dom().contains(k),
            r matches Some(v) ==> self@.dom().contains(k) && v@ == self@[k],
    {
        match self.find(k) {
            Some(i) => Some(&self.items[i].1),
            None => None,
        }
    }

    pub fn contains(&self, k: u64) -> (r: bool)
        requires
            self.inv(),
        ensures
            r == self@.dom().contains(k),
    {
        self.find(k).is_some()
    }

    /// Removing index `i` keeps every other binding; the view loses only the
    /// key that stood at `i`.
    proof fn lemma_remove_view(pre: Self, post: Self, i: int)
        requires
            pre.inv(),
            0 <= i < pre.items@.len(),
            post.items@ == pre.items@.remove(i),
        ensures
            post.inv(),
            post@ == pre@.remove(pre.items@[i].0),
    {
        let k = pre.items@[i].0;
        let n = pre.items@.len();
        assert forall|a: int, b: int|
            0 <= a < b < post.items@.len() implies post.items@[a].0 != post.items@[b].0 by {
            let a0 = if a < i { a } else { a + 1 };
            let b0 = if b < i { b } else { b + 1 };
            assert(post.items@[a] == pre.items@[a0]);
            assert(post.items@[b] == pre.items@[b0]);
        }
        assert forall|k2: u64| #[trigger] post.has_key(k2) implies k2 != k && pre.has_key(k2) by {
            let j = choose|j: int| 0 <= j < post.items@.len() && post.items@[j].0 == k2;
            let j0 = if j < i { j } else { j + 1 };
            assert(post.items@[j] == pre.items@[j0]);
            if j0 < i {
                assert(pre.items@[j0].0 != pre.items@[i].0);
            } else if j0 > i {
                assert(pre.items@[i].0 != pre.items@[j0].0);
            }
        }
        assert forall|k2: u64| k2 != k && #[trigger] pre.has_key(k2) implies post.has_key(k2) by {
            let j0 = choose|j0: int| 0 <= j0 < pre.items@.len() && pre.items@[j0].0 == k2;
            if j0 < i {
                assert(post.items@[j0] == pre.items@[j0]);
            } else {
                assert(j0 != i);
                assert(post.items@[j0 - 1] == pre.items@[j0]);
            }
        }
        assert forall|k2: u64| #[trigger] post.has_key(k2) implies post@[k2] == pre@[k2] by {
            let j = choose|j: int| 0 <= j < post.items@.len() && post.items@[j].0 == k2;
            let j0 = if j < i { j } else { j + 1 };
            assert(post.items@[j] == pre.items@[j0]);
            post.lemma_at(j);
            pre.lemma_at(j0);
        }
        assert(post@ =~= pre@.remove(k));
    }

    pub fn remove(&mut self, k: u64)
        requires
            old(self).inv(),
        ensures
            final(self).inv(),
            final(self)@ == old(self)@.remove(k),
    {
        match self.find(k) {
            Some(i) => {
                let ghost pre = *self;
                self.items.remove(i);
                proof {
                    Self::lemma_remove_view(pre, *self, i as int);
                }
            }
            None => {
                proof {
                    assert(self@ =~= self@.remove(k));
                }
            }
        }
    }

    /// Appending a binding for an absent key adds exactly that binding.
    proof fn lemma_push_view(pre: Self, post: Self, k: u64, v: V)
        requires
            pre.inv(),
            !pre@.dom().contains(k),
            post.items@ == pre.items@.push((k, v)),
        ensures
            post.inv(),
            post@ == pre@.insert(k, v@),
    {
        let n = pre.items@.len();
        assert(!pre.has_key(k));
        assert forall|a: int, b: int|
            0 <= a < b < post.items@.len() implies post.items@[a].0 != post.items@[b].0 by {
            if b < n {
                assert(post.items@[a] == pre.items@[a]);
                assert(post.items@[b] == pre.items@[b]);
            } else {
                assert(post.items@[a] == pre.items@[a]);
                assert(post.items@[b].0 == k);
            }
        }
        assert(post.items@[n as int].0 == k);
        assert(post.has_key(k));
        post.lemma_at(n as int);
        assert forall|k2: u64| k2 != k implies post.has_key(k2) == pre.has_key(k2) by {
            if post.has_key(k2) {
                let j = choose|j: int| 0 <= j < post.items@.len() && post.items@[j].0 == k2;
                assert(j < n);
                assert(pre.items@[j] == post.items@[j]);
                assert(pre.has_key(k2));
            }
            if pre.has_key(k2) {
                let j = choose|j: int| 0 <= j < pre.items@.len() && pre.items@[j].0 == k2;
                assert(post.items@[j] == pre.items@[j]);
                assert(post.has_key(k2));
            }
        }
        assert forall|k2: u64| k2 != k && #[trigger] pre.has_key(k2) implies post@[k2] == pre@[k2] by {
            let j = choose|j: int| 0 <= j < pre.items@.len() && pre.items@[j].0 == k2;
            assert(post.items@[j] == pre.items@[j]);
            pre.lemma_at(j);
            post.lemma_at(j);
        }
        assert(post@ =~= pre@.insert(k, v@));
    }

    /// Binds `k` to `v`, replacing any existing binding.
    pub fn insert(&mut self, k: u64, v: V)
        requires
            old(self).inv(),
        ensures
            final(self).inv(),
            final(self)@ == old(self)@.insert(k, v@),
    {
        self.remove(k);
        let ghost pre = *self;
        self.items.push((k, v));
        proof {
            Self::lemma_push_view(pre, *self, k, v);
            assert(old(self)@.remove(k).insert(k, v@) =~= old(self)@.insert(k, v@));
        }
    }

    pub fn clear(&mut self)
        ensures
            final(self).inv(),
            final(self)@ == Map::<u64, V::V>::empty(),
    {
        self.items.clear();
        proof {
            assert(self@ =~= Map::<u64, V::V>::empty());
        }
    }
}

impl<V: View> View for KeyedStore<V> {
    type V = Map<u64, <V as View>::V>;

    closed spec fn view(&self) -> Map<u64, <V as View>::V> {
        Map::new(
            |k: u64| self.has_key(k),
            |k: u64| self.items@[self.spec_index_of(k)].1@,
        )
    }
}

/// The in-memory cache backend: entry bytes held in process memory, keyed by
/// `SegmentInfo.sequence`.  Entries are write-once and read-many; nothing is
/// evicted until `invalidate` or `clear`.
pub struct MemoryCache {
    store: KeyedStore<Vec<u8>>,
}

impl MemoryCache {
    pub closed spec fn inv(self) -> bool {
        self.store.inv()
    }

    pub fn new() -> (r: Self)
        ensures
            r.inv(),
            r@ == Map::<u64, Seq<u8>>::empty(),
    {
        MemoryCache { store: KeyedStore::new() }
    }

    /// Acquires the writer for `segment` and commits `bytes` through it.
    /// The write-once discipline of `open_writer` is enforced here: once an
    /// entry exists it is read-only, and a second writer is refused, which
    /// the result reports as `false`.
    pub fn write(&mut self, segment: &SegmentInfo, bytes: Vec<u8>) -> (r: bool)
        requires
            old(self).inv(),
        ensures
            final(self).inv(),
            r == !old(self)@.dom().contains(segment.sequence),
            r ==> final(self)@ == old(self)@.insert(segment.sequence, bytes@),
            !r ==> final(self)@ == old(self)@,
    {
        if self.store.contains(segment.sequence) {
            false
        } else {
            self.store.insert(segment.sequence, bytes);
            true
        }
    }

    /// Opens the entry written for `segment` for reading.  Fails with
    /// `NotFound` exactly when no entry exists for that sequence.
    pub fn open_reader(&self, segment: &SegmentInfo) -> (r: IoriResult<&Vec<u8>>)
        requires
            self.inv(),
        ensures
            r is Ok <==> self@.dom().contains(segment.sequence),
            r matches Ok(b) ==> b@ == self@[segment.sequence],
            r is Err ==> r == IoriResult::<&Vec<u8>>::Err(IoriError::NotFound),
    {
        match self.store.get(segment.sequence) {
            Some(b) => Ok(b),
            None => Err(IoriError::NotFound),
        }
    }

    /// Whether an entry was written for `sequence` and not yet invalidated.
    pub fn contains_entry(&self, sequence: u64) -> (r: bool)
        requires
            self.inv(),
        ensures
            r == self@.dom().contains(sequence),
    {
        self.store.contains(sequence)
    }

    /// A memory-backed entry has no stable physical location.
    pub fn segment_path(&self, _segment: &SegmentInfo) -> (r: Option<String>)
        ensures
            r is None,
    {
        None
    }

    /// Removes the entry for `segment`; removing an entry that was never
    /// written is permitted and leaves the cache as it was.
    pub fn invalidate(&mut self, segment: &SegmentInfo) -> (r: IoriResult<()>)
        requires
            old(self).inv(),
        ensures
            final(self).inv(),
            final(self)@ == old(self)@.remove(segment.sequence),
            r == IoriResult::<()>::Ok(()),
    {
        self.store.remove(segment.sequence);
        Ok(())
    }

    /// Removes every entry owned by this cache instance.
    pub fn clear(&mut self) -> (r: IoriResult<()>)
        ensures
            final(self).inv(),
            final(self)@ == Map::<u64, Seq<u8>>::empty(),
            r == IoriResult::<()>::Ok(()),
    {
        self.store.clear();
        Ok(())
    }
}

impl View for MemoryCache {
    type V = Map<u64, Seq<u8>>;

    closed spec fn view(&self) -> Map<u64, Seq<u8>> {
        self.store@
    }
}

/// Two reads of the same written entry return the same bytes.
///
/// `open_reader` pins every successful result to the cache's view at the
/// entry's sequence, so any two reads of one written segment, with no write
/// in between, are forced to agree.
pub proof fn lemma_open_reader_idempotent(cache: MemoryCache, seq: u64, b1: Seq<u8>, b2: Seq<u8>)
    requires
        cache@.dom().contains(seq),
        b1 == cache@[seq],
        b2 == cache@[seq],
    ensures
        b1 == b2,
{
}

/// The cache backend over files that already exist on disk: it maps each
/// sequence to the location of the file holding that segment's bytes.  The
/// entries are pre-populated by the caller, so the cache is read-only: no
/// writer can be acquired.  Opening the located file is the caller's I/O.
pub struct ExistingLocalCache {
    files: KeyedStore<String>,
}

impl ExistingLocalCache {
    pub closed spec fn inv(self) -> bool {
        self.files.inv()
    }

    pub fn new() -> (r: Self)
        ensures
            r.inv(),
            r@ == Map::<u64, Seq<char>>::empty(),
    {
        ExistingLocalCache { files: KeyedStore::new() }
    }

    /// Registers `file` as the entry for `segment`, replacing any earlier
    /// registration for the same sequence.
    pub fn add_file(&mut self, segment: &SegmentInfo, file: String)
        requires
            old(self).inv(),
        ensures
            final(self).inv(),
            final(self)@ == old(self)@.insert(segment.sequence, file@),
    {
        self.files.insert(segment.sequence, file);
    }

    /// Every entry of this cache is pre-populated and therefore read-only:
    /// no writer is ever handed out.
    pub fn open_writer(&self, _segment: &SegmentInfo) -> (r: Option<()>)
        ensures
            r is None,
    {
        None
    }

    /// The location whose bytes a reader for `segment` would stream.  Fails
    /// with `NotFound` exactly when no file was registered for the sequence.
    pub fn reader_location(&self, segment: &SegmentInfo) -> (r: IoriResult<&String>)
        requires
            self.inv(),
        ensures
            r is Ok <==> self@.dom().contains(segment.sequence),
            r matches Ok(p) ==> p@ == self@[segment.sequence],
            r is Err ==> r == IoriResult::<&String>::Err(IoriError::NotFound),
    {
        match self.files.get(segment.sequence) {
            Some(p) => Ok(p),
            None => Err(IoriError::NotFound),
        }
    }

    /// Best-effort physical location of the entry: present exactly when a
    /// file was registered for the sequence.
    pub fn segment_path(&self, segment: &SegmentInfo) -> (r: Option<String>)
        requires
            self.inv(),
        ensures
            r is Some <==> self@.dom().contains(segment.sequence),
            r matches Some(p) ==> p@ == self@[segment.sequence],
    {
        match self.files.get(segment.sequence) {
            Some(p) => Some(p.clone()),
            None => None,
        }
    }

    /// Drops the registration for `segment`; a sequence that was never
    /// registered is left as it was.
    pub fn invalidate(&mut self, segment: &SegmentInfo) -> (r: IoriResult<()>)
        requires
            old(self).inv(),
        ensures
            final(self).inv(),
            final(self)@ == old(self)@.remove(segment.sequence),
            r == IoriResult::<()>::Ok(()),
    {
        self.files.remove(segment.sequence);
        Ok(())
    }

    /// Drops every registration owned by this cache instance.
    pub fn clear(&mut self) -> (r: IoriResult<()>)
        ensures
            final(self).inv(),
            final(self)@ == Map::<u64, Seq<char>>::empty(),
            r == IoriResult::<()>::Ok(()),
    {
        self.files.clear();
        Ok(())
    }
}

impl View for ExistingLocalCache {
    type V = Map<u64, Seq<char>>;

    closed spec fn view(&self) -> Map<u64, Seq<char>> {
        self.files@
    }
}

} // verus!

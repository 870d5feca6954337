//! The memoizing asset cache.
//!
//! Each distinct content key is resolved through the caller-supplied
//! loader exactly once; the loaded asset is stored at the next free
//! index and that index, wrapped as a handle, is returned for this and
//! every later request of the same key. Handles are append-only for the
//! life of the cache: nothing is ever deleted, so an issued handle never
//! dangles. Clearing the cache forgets only the key-to-handle map, not
//! the assets, so re-resolving a path after a clear yields a fresh
//! handle while the old one stays valid.
//!
//! The asset payload is generic: the engine stores renderer-owned model
//! data here without the verified core ever looking inside it.

use vstd::prelude::*;

use crate::components::ModelId;

verus! {

/// The cache: assets by handle index, and the key memoization table in
/// insertion order.
pub struct AssetManager<T> {
    assets: Vec<T>,
    cache: Vec<(String, ModelId)>,
}

impl<T> AssetManager<T> {
    /// The stored assets; a handle is an index into this sequence.
    pub closed spec fn assets_spec(self) -> Seq<T> {
        self.assets@
    }

    /// The memoization table, in insertion order.
    pub closed spec fn cache_spec(self) -> Seq<(String, ModelId)> {
        self.cache@
    }

    /// Entry `k` of the memoization table maps `key`.
    pub open spec fn cached_at(self, key: Seq<char>, k: int) -> bool {
        0 <= k < self.cache_spec().len() && self.cache_spec()[k].0@ == key
    }

    /// `key` has been resolved since the last cache clear.
    pub open spec fn is_cached(self, key: Seq<char>) -> bool {
        exists|k: int| self.cached_at(key, k)
    }

    /// The handle `key` resolves to, when it is cached.
    pub open spec fn handle_of(self, key: Seq<char>) -> ModelId {
        self.cache_spec()[choose|k: int| self.cached_at(key, k)].1
    }

    /// Internal consistency: every memoized handle points at a stored
    /// asset, and no key appears twice.
    pub open spec fn wf(self) -> bool {
        &&& forall|k: int|
            0 <= k < self.cache_spec().len() ==> (#[trigger] self.cache_spec()[k]).1.0
                < self.assets_spec().len()
        &&& forall|k1: int, k2: int|
            0 <= k1 < k2 < self.cache_spec().len() ==> self.cache_spec()[k1].0@
                != self.cache_spec()[k2].0@
    }

    /// An empty cache.
    pub fn new() -> (r: AssetManager<T>)
        ensures
            r.wf(),
            r.assets_spec().len() == 0,
            r.cache_spec().len() == 0,
    {
        AssetManager { assets: Vec::new(), cache: Vec::new() }
    }

    /// Find the handle memoized for `key`, if any.
    pub fn lookup(&self, key: &str) -> (r: Option<ModelId>)
        requires
            self.wf(),
        ensures
            r is Some <==> self.is_cached(key@),
            r is Some ==> r == Some(self.handle_of(key@)),
    {
        let owned: String = key.to_owned();
        let n = self.cache.len();
        for k in 0..n
            invariant
                n == self.cache_spec().len(),
                owned@ == key@,
                self.wf(),
                forall|k2: int| 0 <= k2 < k ==> !self.cached_at(key@, k2),
        {
            if self.cache[k].0 == owned {
                proof {
                    assert(self.cached_at(key@, k as int));
                    let w = choose|k2: int| self.cached_at(key@, k2);
                    assert(self.cache_spec()[w].0@ == self.cache_spec()[k as int].0@);
                    assert(w == k as int);
                }
                return Some(self.cache[k].1);
            }
        }
        proof {
            assert forall|k: int| !self.cached_at(key@, k) by {}
        }
        None
    }

    /// Resolve `key` to a handle. A key seen before answers from the
    /// memoization table without invoking the loader; a new key runs the
    /// loader once and, on success, stores the asset at the next free
    /// index. A loader failure is handed back unchanged and caches
    /// nothing.
    pub fn load_or_get<E, F: FnOnce() -> Result<T, E>>(&mut self, key: &str, loader: F) -> (r:
        Result<ModelId, E>)
        requires
            old(self).wf(),
            call_requires(loader, ()),
        ensures
            final(self).wf(),
            old(self).is_cached(key@) ==> *final(self) == *old(self) && r == Ok::<ModelId, E>(
                old(self).handle_of(key@),
            ),
            !old(self).is_cached(key@) ==> match r {
                Ok(id) => {
                    &&& id.0 == old(self).assets_spec().len()
                    &&& exists|v: T|
                        call_ensures(loader, (), Ok(v)) && final(self).assets_spec() == old(self).assets_spec().push(v)
                    &&& final(self).cache_spec().len() == old(self).cache_spec().len() + 1
                    &&& final(self).is_cached(key@)
                    &&& final(self).handle_of(key@) == id
                },
                Err(e) => call_ensures(loader, (), Err::<T, E>(e)) && *final(self) == *old(self),
            },
            // handles already issued stay valid and unchanged
            forall|key2: Seq<char>|
                #[trigger] old(self).is_cached(key2) ==> final(self).is_cached(key2) && final(self).handle_of(key2) == old(self).handle_of(key2),
            // and no key other than the requested one becomes cached
            forall|key2: Seq<char>|
                #[trigger] final(self).is_cached(key2) ==> old(self).is_cached(key2) || key2
                    == key@,
            forall|i: int|
                0 <= i < old(self).assets_spec().len() ==> final(self).assets_spec()[i] == old(self).assets_spec()[i],
    {
        match self.lookup(key) {
            Some(id) => Ok(id),
            None => {
                match loader() {
                    Ok(asset) => {
                        let id = ModelId(self.assets.len());
                        let owned: String = key.to_owned();
                        self.assets.push(asset);
                        self.cache.push((owned, id));
                        proof {
                            let pre = *old(self);
                            let post = *self;
                            assert(post.cached_at(key@, post.cache_spec().len() - 1));
                            assert forall|key2: Seq<char>| post.is_cached(key2) implies
                                pre.is_cached(key2) || key2 == key@ by {
                                let w = choose|k: int| post.cached_at(key2, k);
                                if w < pre.cache_spec().len() {
                                    assert(pre.cached_at(key2, w));
                                }
                            }
                            assert forall|key2: Seq<char>| pre.is_cached(key2) implies
                                post.is_cached(key2) && post.handle_of(key2) == pre.handle_of(
                                key2,
                            ) by {
                                let k = choose|k: int| pre.cached_at(key2, k);
                                assert(post.cached_at(key2, k));
                                let w = choose|k2: int| post.cached_at(key2, k2);
                                if w == post.cache_spec().len() - 1 {
                                    assert(key2 == key@);
                                    assert(pre.cached_at(key@, k));
                                }
                                assert(pre.cached_at(key2, w));
                                let w0 = choose|k2: int| pre.cached_at(key2, k2);
                                assert(pre.cache_spec()[w0].0@ == pre.cache_spec()[w].0@);
                                assert(w0 == w);
                            }
                            assert(post.wf()) by {
                                assert forall|k1: int, k2: int|
                                    0 <= k1 < k2 < post.cache_spec().len() implies
                                    post.cache_spec()[k1].0@ != post.cache_spec()[k2].0@ by {
                                    if k2 == post.cache_spec().len() - 1 {
                                        assert(!pre.cached_at(key@, k1));
                                    }
                                }
                            }
                            let w = choose|k: int| post.cached_at(key@, k);
                            assert(post.cached_at(key@, w));
                            if w != post.cache_spec().len() - 1 {
                                assert(pre.cached_at(key@, w));
                            }
                        }
                        Ok(id)
                    }
                    Err(e) => Err(e),
                }
            }
        }
    }

    /// The asset a handle points at, or nothing for a handle this cache
    /// never issued.
    pub fn get(&self, id: ModelId) -> (r: Option<&T>)
        ensures
            id.0 < self.assets_spec().len() ==> r == Some(&self.assets_spec()[id.0 as int]),
            id.0 >= self.assets_spec().len() ==> r is None,
    {
        if id.0 < self.assets.len() {
            Some(&self.assets[id.0])
        } else {
            None
        }
    }

    /// The model a handle points at: the handle-indexed lookup the
    /// renderer consumes.
    pub fn get_model(&self, id: ModelId) -> (r: Option<&T>)
        ensures
            id.0 < self.assets_spec().len() ==> r == Some(&self.assets_spec()[id.0 as int]),
            id.0 >= self.assets_spec().len() ==> r is None,
    {
        self.get(id)
    }

    /// How many assets have been loaded.
    pub fn asset_count(&self) -> (r: usize)
        ensures
            r == self.assets_spec().len(),
    {
        self.assets.len()
    }

    /// Forget the key-to-handle memoization only: every asset stays, and
    /// every issued handle keeps pointing at the same asset, but each
    /// key will be re-resolved — and re-loaded — on its next request.
    pub fn clear_cache(&mut self)
        ensures
            final(self).wf(),
            final(self).assets_spec() == old(self).assets_spec(),
            final(self).cache_spec().len() == 0,
            forall|key: Seq<char>| !final(self).is_cached(key),
    {
        self.cache.clear();
    }
}

} // verus!

use vstd::prelude::*;

verus! {

/// Why a texture, font or sound could not be loaded.
#[derive(Clone, Debug, PartialEq, Eq)]
pub enum ResourceLoadError {
    /// No file at the path.
    Missing(String),
    /// The file is there but could not be decoded.
    Malformed(String),
}

/// The map from key to handle that a list of entries stands for; a later
/// entry of the same key would win, but keys are kept unique.
pub open spec fn entries_map<H>(entries: Seq<(String, H)>) -> Map<Seq<char>, H>
    decreases entries.len(),
{
    if entries.len() == 0 {
        Map::empty()
    } else {
        entries_map(entries.drop_last()).insert(entries.last().0@, entries.last().1)
    }
}

/// No two entries share a key.
pub open spec fn unique_keys<H>(entries: Seq<(String, H)>) -> bool {
    forall|i: int, j: int|
        0 <= i < j < entries.len() ==> #[trigger] entries[i].0@ != #[trigger] entries[j].0@
}

/// A key is in the map exactly when some entry has it, and with unique keys
/// it maps to that entry's handle.
proof fn lemma_entries_map<H>(entries: Seq<(String, H)>, key: Seq<char>)
    requires
        unique_keys(entries),
    ensures
        entries_map(entries).contains_key(key) <==> exists|i: int|
            0 <= i < entries.len() && #[trigger] entries[i].0@ == key,
        forall|i: int|
            0 <= i < entries.len() && #[trigger] entries[i].0@ == key ==> entries_map(entries)[key]
                == entries[i].1,
    decreases entries.len(),
{
    if entries.len() > 0 {
        let rest = entries.drop_last();
        assert(unique_keys(rest));
        lemma_entries_map(rest, key);
        let n = entries.len() - 1;
        assert forall|i: int| 0 <= i < entries.len() && #[trigger] entries[i].0@ == key implies entries_map(
            entries,
        )[key] == entries[i].1 by {
            if i < n {
                assert(rest[i] == entries[i]);
                assert(entries[i].0@ != entries[n].0@);
            }
        }
        if entries_map(entries).contains_key(key) {
            if key != entries[n].0@ {
                let i = choose|i: int| 0 <= i < rest.len() && #[trigger] rest[i].0@ == key;
                assert(entries[i] == rest[i]);
            }
        }
        if exists|i: int| 0 <= i < entries.len() && #[trigger] entries[i].0@ == key {
            let i = choose|i: int| 0 <= i < entries.len() && #[trigger] entries[i].0@ == key;
            if i < n {
                assert(rest[i] == entries[i]);
            }
        }
    }
}

/// Handles loaded so far, by path or name. Each key is loaded at most once:
/// a handle, once cached, stays for the cache's lifetime and is never
/// replaced.
pub struct ResourceCache<H> {
    entries: Vec<(String, H)>,
}

impl<H> View for ResourceCache<H> {
    type V = Map<Seq<char>, H>;

    closed spec fn view(&self) -> Map<Seq<char>, H> {
        entries_map(self.entries@)
    }
}

impl<H> ResourceCache<H> {
    pub closed spec fn wf(&self) -> bool {
        unique_keys(self.entries@)
    }

    /// An empty cache.
    pub fn new() -> (r: ResourceCache<H>)
        ensures
            r.wf(),
            r@ == Map::<Seq<char>, H>::empty(),
    {
        ResourceCache { entries: Vec::new() }
    }

    /// The position of `key`'s entry, if any.
    fn find(&self, key: &str) -> (r: Option<usize>)
        requires
            self.wf(),
        ensures
            r matches Some(i) ==> i < self.entries@.len() && self.entries@[i as int].0@ == key@,
            r is None ==> !self@.contains_key(key@),
    {
        let wanted = key.to_string();
        let mut i: usize = 0;
        while i < self.entries.len()
            invariant
                i <= self.entries@.len(),
                wanted@ == key@,
                forall|j: int| 0 <= j < i ==> #[trigger] self.entries@[j].0@ != key@,
            decreases self.entries@.len() - i,
        {
            if self.entries[i].0 == wanted {
                return Some(i);
            }
            i = i + 1;
        }
        proof {
            lemma_entries_map(self.entries@, key@);
        }
        None
    }

    /// Whether a handle is cached under `key`.
    pub fn contains(&self, key: &str) -> (r: bool)
        requires
            self.wf(),
        ensures
            r == self@.contains_key(key@),
    {
        match self.find(key) {
            Some(i) => {
                proof {
                    lemma_entries_map(self.entries@, key@);
                }
                true
            },
            None => false,
        }
    }

    /// The handle cached under `key`, if any.
    pub fn get(&self, key: &str) -> (r: Option<&H>)
        requires
            self.wf(),
        ensures
            r matches Some(h) ==> self@.contains_key(key@) && *h == self@[key@],
            r is None ==> !self@.contains_key(key@),
    {
        match self.find(key) {
            Some(i) => {
                proof {
                    lemma_entries_map(self.entries@, key@);
                }
                Some(&self.entries[i].1)
            },
            None => None,
        }
    }

    /// Caches `handle` under `key` unless a handle is cached there already,
    /// in which case the cache is left as it is. Returns whether `handle`
    /// was stored.
    pub fn insert(&mut self, key: String, handle: H) -> (stored: bool)
        requires
            old(self).wf(),
        ensures
            final(self).wf(),
            stored == !old(self)@.contains_key(key@),
            final(self)@ == if stored {
                old(self)@.insert(key@, handle)
            } else {
                old(self)@
            },
    {
        match self.find(key.as_str()) {
            Some(i) => {
                proof {
                    lemma_entries_map(self.entries@, key@);
                }
                false
            },
            None => {
                let ghost old_entries = self.entries@;
                let ghost kv = key@;
                proof {
                    lemma_entries_map(old_entries, kv);
                }
                self.entries.push((key, handle));
                assert(self.entries@.drop_last() =~= old_entries);
                assert forall|i: int, j: int|
                    0 <= i < j < self.entries@.len() implies #[trigger] self.entries@[i].0@
                    != #[trigger] self.entries@[j].0@ by {
                    if j < old_entries.len() {
                        assert(old_entries[i].0@ != old_entries[j].0@);
                    } else {
                        assert(old_entries[i].0@ != kv);
                    }
                }
                true
            },
        }
    }
}

/// The cache only grows: whatever was cached under a key before an insert
/// is cached there, unchanged, after it.
pub proof fn lemma_cache_keeps_handles<H>(before: Map<Seq<char>, H>, key: Seq<char>, handle: H, other: Seq<char>)
    requires
        before.contains_key(other),
    ensures
        ({
            let after = if before.contains_key(key) {
                before
            } else {
                before.insert(key, handle)
            };
            after.contains_key(other) && after[other] == before[other]
        }),
{
}

} // verus!

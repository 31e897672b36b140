//! The canonical registry: which path stands for each fingerprint.

use vstd::hash_map::StringHashMap;
use vstd::prelude::*;

verus! {

/// A map from fingerprint to the path currently canonical for it.
///
/// A fingerprint has at most one entry. The registry lives for one run: it
/// starts empty and is filled as files are visited.
pub struct Registry {
    entries: StringHashMap<String>,
}

impl View for Registry {
    type V = Map<Seq<char>, Seq<char>>;

    closed spec fn view(&self) -> Map<Seq<char>, Seq<char>> {
        self.entries@.map_values(|path: String| path@)
    }
}

impl Registry {
    /// An empty registry.
    pub fn new() -> (registry: Registry)
        ensures
            registry@ == Map::<Seq<char>, Seq<char>>::empty(),
    {
        Registry { entries: StringHashMap::new() }
    }

    /// The path canonical for `digest`, if the fingerprint was seen.
    pub fn canonical(&self, digest: &str) -> (path: Option<&String>)
        ensures
            match path {
                Some(p) => self@.contains_key(digest@) && p@ == self@[digest@],
                None => !self@.contains_key(digest@),
            },
    {
        self.entries.get(digest)
    }

    /// Whether `digest` was seen.
    pub fn contains(&self, digest: &str) -> (result: bool)
        ensures
            result == self@.contains_key(digest@),
    {
        self.entries.contains_key(digest)
    }

    /// Makes `path` canonical for `digest`, in place of any earlier path.
    pub fn record(&mut self, digest: String, path: String)
        ensures
            final(self)@ == old(self)@.insert(digest@, path@),
    {
        self.entries.insert(digest, path);
    }

    /// The number of fingerprints seen.
    pub fn len(&self) -> (count: usize)
        ensures
            count == self@.len(),
    {
        broadcast use vstd::hash_map::group_hash_map_axioms;

        assert(self@.dom() =~= self.entries@.dom());
        self.entries.len()
    }

    /// Whether no fingerprint was seen.
    pub fn is_empty(&self) -> (result: bool)
        ensures
            result == (self@ == Map::<Seq<char>, Seq<char>>::empty()),
    {
        let empty = self.entries.is_empty();
        assert(self@.is_empty() ==> self@ =~= Map::<Seq<char>, Seq<char>>::empty());
        empty
    }
}

} // verus!

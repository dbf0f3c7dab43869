//! The labels found so far, by abbreviated commit id.

use vstd::prelude::*;
use vstd::hash_map::StringHashMap;

verus! {

/// The label of each commit that has been resolved. A commit keeps the label that it
/// was first given.
pub struct LabelCache {
    labels: StringHashMap<String>,
}

impl View for LabelCache {
    type V = Map<Seq<char>, Seq<char>>;

    closed spec fn view(&self) -> Map<Seq<char>, Seq<char>> {
        self.labels@.map_values(|label: String| label@)
    }
}

impl LabelCache {
    /// A cache without labels.
    pub fn new() -> (cache: LabelCache)
        ensures
            cache@ == Map::<Seq<char>, Seq<char>>::empty(),
    {
        LabelCache { labels: StringHashMap::new() }
    }

    /// The label of the commit abbreviated as `short_id`, if it has one.
    pub fn get(&self, short_id: &str) -> (label: Option<&String>)
        ensures
            match label {
                Some(l) => self@.contains_key(short_id@) && l@ == self@[short_id@],
                None => !self@.contains_key(short_id@),
            },
    {
        self.labels.get(short_id)
    }

    /// Gives the commit abbreviated as `short_id` the label `label`, unless it has one.
    pub fn remember(&mut self, short_id: String, label: String)
        ensures
            final(self)@ == if old(self)@.contains_key(short_id@) {
                old(self)@
            } else {
                old(self)@.insert(short_id@, label@)
            },
    {
        if !self.labels.contains_key(short_id.as_str()) {
            self.labels.insert(short_id, label);
        }
    }

    /// The number of commits that have a label.
    pub fn len(&self) -> (count: usize)
        ensures
            count == self@.len(),
    {
        assert(self@.dom() == self.labels@.dom());
        self.labels.len()
    }
}

} // verus!

//! The vocabulary: resolving a category name to a stable id.
//!
//! Resolution is a capability handed to the compaction call. A vocabulary
//! is a list of `(name, id)` entries; a name not in the list falls back
//! to the category's raw index, so an empty vocabulary reproduces the
//! plain "id is the index" behaviour.

use vstd::prelude::*;

verus! {

/// The id that `entries` give to `name`: the id of the first entry whose
/// name matches, or `fallback` when none does.
pub open spec fn resolve_spec(entries: Seq<(String, i32)>, name: Seq<char>, fallback: i32) -> i32
    decreases entries.len(),
{
    if entries.len() == 0 {
        fallback
    } else if entries[0].0@ == name {
        entries[0].1
    } else {
        resolve_spec(entries.drop_first(), name, fallback)
    }
}

/// A lookup table from category names to stable ids.
pub struct Vocabulary {
    pub entries: Vec<(String, i32)>,
}

impl Vocabulary {
    /// The empty vocabulary: every name falls back to the raw index.
    pub fn empty() -> (v: Vocabulary)
        ensures
            v.entries@.len() == 0,
    {
        Vocabulary { entries: Vec::new() }
    }

    /// A vocabulary holding the given `(name, id)` entries; on duplicate
    /// names the earliest entry wins.
    pub fn with_entries(entries: Vec<(String, i32)>) -> (v: Vocabulary)
        ensures
            v.entries@ == entries@,
    {
        Vocabulary { entries }
    }

    /// Resolve `name`, falling back to `fallback` when it is unknown.
    pub fn resolve(&self, name: &String, fallback: i32) -> (r: i32)
        ensures
            r == resolve_spec(self.entries@, name@, fallback),
    {
        let n = self.entries.len();
        let mut k: usize = 0;
        proof {
            assert(self.entries@.skip(0) =~= self.entries@);
        }
        while k < n
            invariant
                n == self.entries@.len(),
                k <= n,
                resolve_spec(self.entries@, name@, fallback) == resolve_spec(
                    self.entries@.skip(k as int),
                    name@,
                    fallback,
                ),
            decreases n - k,
        {
            let pair: &(String, i32) = &self.entries[k];
            proof {
                assert(self.entries@.skip(k as int)[0] == self.entries@[k as int]);
            }
            if pair.0 == *name {
                return pair.1;
            }
            proof {
                assert(self.entries@.skip(k as int).drop_first() =~= self.entries@.skip(
                    k as int + 1,
                ));
            }
            k = k + 1;
        }
        proof {
            assert(self.entries@.skip(n as int).len() == 0);
        }
        fallback
    }
}

/// The id an empty vocabulary resolves every name to is the fallback
/// itself: the documented "raw index as id" behaviour.
pub proof fn lemma_empty_vocabulary_falls_back(name: Seq<char>, fallback: i32)
    ensures
        resolve_spec(Seq::<(String, i32)>::empty(), name, fallback) == fallback,
{
}

} // verus!

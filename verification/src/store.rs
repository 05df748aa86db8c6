//! The document store as the engine sees it: documents under composite
//! keys, read whole and written whole.

use crate::document::{
    distinct_keys, entries_view, find, lemma_lookup_put, lemma_put_distinct, lookup, put,
    put_entry, Document, Json,
};
use crate::onboarding_laws::store_after;
use vstd::prelude::*;
use vstd::string::*;

verus! {

/// What a write did.
#[derive(Clone, Copy, Debug, PartialEq, Eq, Structural)]
pub enum Outcome {
    /// The key was new.
    Inserted,
    /// The key held a document, which was replaced.
    Updated,
}

/// Why the store could not serve a request.
#[derive(Clone, Copy, Debug, PartialEq, Eq, Structural)]
pub enum StoreError {
    /// No document is held under the key.
    NotFound,
}

/// A store that keeps its documents in memory.
pub struct MemoryStore {
    entries: Vec<(String, Document)>,
}

impl View for MemoryStore {
    type V = Seq<(Seq<char>, Json)>;

    closed spec fn view(&self) -> Seq<(Seq<char>, Json)> {
        entries_view(self.entries@)
    }
}

impl MemoryStore {
    /// No key is held twice. Every store that `new` and the methods hand
    /// out is well formed.
    pub closed spec fn well_formed(&self) -> bool {
        distinct_keys(entries_view(self.entries@))
    }

    /// In a well-formed store no key is held twice.
    pub proof fn lemma_keys_distinct(&self)
        requires
            self.well_formed(),
        ensures
            distinct_keys(self@),
    {
    }

    /// A store that holds nothing.
    pub fn new() -> (store: MemoryStore)
        ensures
            store@ == Seq::<(Seq<char>, Json)>::empty(),
            store.well_formed(),
    {
        let entries: Vec<(String, Document)> = Vec::new();
        assert(entries_view(entries@) =~= Seq::empty());
        MemoryStore { entries }
    }

    /// The number of documents held.
    pub fn len(&self) -> (count: usize)
        ensures
            count == self@.len(),
    {
        self.entries.len()
    }

    /// The document under a key; `NotFound` where the store holds none.
    pub fn get(&self, key: &str) -> (found: Result<&Document, StoreError>)
        ensures
            match found {
                Ok(doc) => lookup(self@, key@) == Some(doc@),
                Err(e) => e == StoreError::NotFound && lookup(self@, key@) is None,
            },
    {
        let key = String::from_str(key);
        match find(&self.entries, &key) {
            Some(i) => Ok(&self.entries[i].1),
            None => Err(StoreError::NotFound),
        }
    }

    /// Writes a document under a key, whole: a new key is inserted, a key
    /// that holds a document has it replaced. Every other key holds what
    /// it held. The flag changes nothing: the store always upserts.
    pub fn put(&mut self, key: &str, document: Document, overwrite_if_exists: bool) -> (outcome:
        Result<Outcome, StoreError>)
        requires
            old(self).well_formed(),
        ensures
            final(self).well_formed(),
            outcome == if lookup(old(self)@, key@) is None {
                Ok::<Outcome, StoreError>(Outcome::Inserted)
            } else {
                Ok::<Outcome, StoreError>(Outcome::Updated)
            },
            final(self)@ == put(old(self)@, key@, document@),
            lookup(final(self)@, key@) == Some(document@),
            forall|other: Seq<char>|
                other != key@ ==> #[trigger] lookup(final(self)@, other) == lookup(
                    old(self)@,
                    other,
                ),
    {
        proof {
            lemma_put_distinct(self@, key@, document@);
            lemma_lookup_put(self@, key@, document@, key@);
            assert forall|other: Seq<char>| other != key@ implies #[trigger] lookup(
                put(self@, key@, document@),
                other,
            ) == lookup(self@, other) by {
                lemma_lookup_put(self@, key@, document@, other);
            }
        }
        let _ = overwrite_if_exists;
        let key = String::from_str(key);
        let held = find(&self.entries, &key).is_some();
        put_entry(&mut self.entries, key, document);
        if held {
            Ok(Outcome::Updated)
        } else {
            Ok(Outcome::Inserted)
        }
    }

    /// Writes every document of a list under its key, in order, replacing
    /// what is there.
    pub fn put_all(&mut self, writes: &Vec<(String, Document)>)
        requires
            old(self).well_formed(),
        ensures
            final(self).well_formed(),
            final(self)@ == store_after(old(self)@, entries_view(writes@), writes@.len() as int),
    {
        let ghost model = entries_view(writes@);
        let ghost start = self@;
        let mut i: usize = 0;
        while i < writes.len()
            invariant
                i <= writes.len(),
                model == entries_view(writes@),
                self.well_formed(),
                self@ == store_after(start, model, i as int),
            decreases writes.len() - i,
        {
            assert(model[i as int] == (writes@[i as int].0@, writes@[i as int].1@));
            let _ = self.put(writes[i].0.as_str(), writes[i].1.duplicate(), true);
            i += 1;
        }
    }
}

} // verus!

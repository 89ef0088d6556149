//! The store: a mapping of strings held in memory, the path of the file that
//! holds its snapshot, and whether it changed since the last flush.
use vstd::prelude::*;

use crate::codec::{decode_pairs, decoded_pairs, encode_pairs};
use crate::pairs::{
    lemma_absent, lemma_at, lemma_push, lemma_remove, lemma_update, map_of, pairs_of,
    unique_keys,
};

verus! {

/// Why opening or flushing a store failed; each carries the underlying cause.
#[derive(Debug)]
pub enum StoreError {
    /// Reading or writing the backing file failed.
    Io(String),
    /// The file's bytes are not a snapshot of a mapping.
    Decode(String),
    /// The mapping could not be encoded.
    Encode(String),
}

/// The mapping that a file's contents give at open time: `None` stands for
/// no file, and an empty file gives an empty mapping; `None` as the result
/// means the contents do not decode.
pub open spec fn loaded_map(contents: Option<Seq<u8>>) -> Option<Map<Seq<char>, Seq<char>>> {
    match contents {
        None => Some(Map::empty()),
        Some(b) => if b.len() == 0 {
            Some(Map::empty())
        } else {
            match decoded_pairs(b) {
                Some(p) => Some(map_of(p)),
                None => None,
            }
        },
    }
}

/// The bytes of a file, or `None` where there is none.
pub open spec fn file_bytes(contents: Option<Vec<u8>>) -> Option<Seq<u8>> {
    match contents {
        Some(b) => Some(b@),
        None => None,
    }
}

/// `b` is a complete snapshot of the mapping `m`: a non-empty byte string
/// that decodes to pairs giving `m`.
pub open spec fn snapshot_of(b: Seq<u8>, m: Map<Seq<char>, Seq<char>>) -> bool {
    &&& b.len() > 0
    &&& decoded_pairs(b) matches Some(p)
    &&& map_of(p) == m
}

/// `after` is `before` once a flush of it has completed: the same mapping and
/// path, and nothing left to write.
pub open spec fn flush_completed(before: Store, after: Store) -> bool {
    &&& after@ == before@
    &&& after.path() == before.path()
    &&& after.wf() == before.wf()
    &&& !after.dirty()
}

pub struct Store {
    file_path: String,
    entries: Vec<(String, String)>,
    modified: bool,
}

impl View for Store {
    type V = Map<Seq<char>, Seq<char>>;

    closed spec fn view(&self) -> Map<Seq<char>, Seq<char>> {
        map_of(pairs_of(self.entries@))
    }
}

impl Store {
    /// The store's own invariant: each key is held once.
    pub closed spec fn wf(&self) -> bool {
        unique_keys(pairs_of(self.entries@))
    }

    /// The path of the backing file.
    pub closed spec fn path(&self) -> Seq<char> {
        self.file_path@
    }

    /// Whether the mapping changed since it was opened or last flushed.
    pub closed spec fn dirty(&self) -> bool {
        self.modified
    }

    /// What a lookup of `k` gives.
    pub open spec fn lookup(&self, k: Seq<char>) -> Option<Seq<char>> {
        if self@.contains_key(k) {
            Some(self@[k])
        } else {
            None
        }
    }

    /// Opens the store whose backing file is at `path`. `contents` is what the
    /// file holds, or `None` where there is no file. An empty or absent file
    /// gives an empty mapping; other contents are decoded, and a failure to
    /// decode is a `Decode` error.
    pub fn open(path: &str, contents: Option<Vec<u8>>) -> (r: Result<Store, StoreError>)
        ensures
            match loaded_map(file_bytes(contents)) {
                Some(m) => r matches Ok(s) && s.wf() && s@ == m && s.path() == path@
                    && !s.dirty(),
                None => r matches Err(StoreError::Decode(_)),
            },
            contents is None ==> (r matches Ok(s) && s@ == Map::<Seq<char>, Seq<char>>::empty()),
            (contents matches Some(b) && b@.len() == 0) ==> (r matches Ok(s) && s@.is_empty()),
    {
        let mut store = Store { file_path: path.to_owned(), entries: Vec::new(), modified: false };
        assert(pairs_of(store.entries@) =~= Seq::empty());
        match contents {
            None => Ok(store),
            Some(bytes) => {
                if bytes.len() == 0 {
                    Ok(store)
                } else {
                    match decode_pairs(bytes.as_slice()) {
                        Err(e) => Err(StoreError::Decode(e)),
                        Ok(pairs) => {
                            let ghost p = pairs_of(pairs@);
                            let mut i: usize = 0;
                            while i < pairs.len()
                                invariant
                                    p == pairs_of(pairs@),
                                    store.wf(),
                                    store.path() == path@,
                                    store@ == map_of(p.take(i as int)),
                                    i <= pairs@.len(),
                                decreases pairs@.len() - i,
                            {
                                assert(p.take(i as int + 1).drop_last() =~= p.take(i as int));
                                store.insert(pairs[i].0.clone(), pairs[i].1.clone());
                                i = i + 1;
                            }
                            assert(p.take(pairs@.len() as int) =~= p);
                            store.modified = false;
                            Ok(store)
                        },
                    }
                }
            },
        }
    }

    /// The index of the pair that holds `key`, if any.
    fn find(&self, key: &String) -> (r: Option<usize>)
        ensures
            match r {
                Some(i) => i < self.entries@.len() && pairs_of(self.entries@)[i as int].0
                    == key@,
                None => forall|i: int|
                    0 <= i < self.entries@.len() ==> pairs_of(self.entries@)[i].0 != key@,
            },
    {
        let mut i: usize = 0;
        while i < self.entries.len()
            invariant
                i <= self.entries@.len(),
                forall|j: int| 0 <= j < i ==> pairs_of(self.entries@)[j].0 != key@,
            decreases self.entries@.len() - i,
        {
            if self.entries[i].0 == *key {
                return Some(i);
            }
            i = i + 1;
        }
        None
    }

    /// The value held for `key`, if any.
    pub fn get(&self, key: &str) -> (r: Option<&String>)
        requires
            self.wf(),
        ensures
            match r {
                Some(v) => self.lookup(key@) == Some(v@),
                None => self.lookup(key@) is None,
            },
    {
        let k = key.to_owned();
        match self.find(&k) {
            Some(i) => {
                proof {
                    lemma_at(pairs_of(self.entries@), i as int);
                }
                Some(&self.entries[i].1)
            },
            None => {
                proof {
                    lemma_absent(pairs_of(self.entries@), key@);
                }
                None
            },
        }
    }

    /// Whether a value is held for `key`.
    pub fn contains_key(&self, key: &str) -> (r: bool)
        requires
            self.wf(),
        ensures
            r == self@.contains_key(key@),
    {
        self.get(key).is_some()
    }

    /// Sets the value for `key`, replacing any earlier one, and marks the
    /// store as changed.
    pub fn insert(&mut self, key: String, v: String)
        requires
            old(self).wf(),
        ensures
            final(self).wf(),
            final(self)@ == old(self)@.insert(key@, v@),
            final(self).path() == old(self).path(),
            final(self).dirty(),
    {
        let ghost p = pairs_of(self.entries@);
        match self.find(&key) {
            Some(i) => {
                proof {
                    lemma_update(p, i as int, v@);
                }
                self.entries.set(i, (key, v));
                assert(pairs_of(self.entries@) =~= p.update(i as int, (p[i as int].0, v@)));
            },
            None => {
                let ghost e = (key@, v@);
                self.entries.push((key, v));
                assert(pairs_of(self.entries@) =~= p.push(e));
                proof {
                    lemma_push(p, e);
                }
            },
        }
        self.modified = true;
    }

    /// Removes `key` and hands back its value, if any. The store is marked as
    /// changed in either case.
    pub fn remove(&mut self, key: &str) -> (r: Option<String>)
        requires
            old(self).wf(),
        ensures
            final(self).wf(),
            match r {
                Some(v) => old(self).lookup(key@) == Some(v@),
                None => old(self).lookup(key@) is None,
            },
            final(self)@ == old(self)@.remove(key@),
            final(self).path() == old(self).path(),
            final(self).dirty(),
    {
        let ghost p = pairs_of(self.entries@);
        let k = key.to_owned();
        let r = match self.find(&k) {
            Some(i) => {
                proof {
                    lemma_at(p, i as int);
                    lemma_remove(p, i as int);
                }
                let (_, v) = self.entries.remove(i);
                assert(pairs_of(self.entries@) =~= p.remove(i as int));
                Some(v)
            },
            None => {
                proof {
                    lemma_absent(p, key@);
                }
                assert(old(self)@.remove(key@) =~= old(self)@);
                None
            },
        };
        self.modified = true;
        r
    }

    /// Empties the mapping and marks the store as changed.
    pub fn clear(&mut self)
        requires
            old(self).wf(),
        ensures
            final(self).wf(),
            final(self)@ == Map::<Seq<char>, Seq<char>>::empty(),
            final(self).path() == old(self).path(),
            final(self).dirty(),
    {
        self.entries.clear();
        assert(pairs_of(self.entries@) =~= Seq::empty());
        self.modified = true;
    }

    /// The path of the backing file.
    pub fn get_path(&self) -> (r: &str)
        ensures
            r@ == self.path(),
    {
        self.file_path.as_str()
    }

    /// Whether the mapping changed since it was opened or last flushed.
    pub fn is_modified(&self) -> (r: bool)
        ensures
            r == self.dirty(),
    {
        self.modified
    }

    /// The first half of a flush: the bytes to write over the backing file,
    /// or `None` where nothing changed since the last flush and no write is
    /// needed.
    pub fn snapshot(&self) -> (r: Result<Option<Vec<u8>>, StoreError>)
        requires
            self.wf(),
        ensures
            !self.dirty() ==> r matches Ok(None),
            self.dirty() ==> (r matches Ok(Some(b)) && snapshot_of(b@, self@)),
    {
        if !self.modified {
            return Ok(None);
        }
        match encode_pairs(&self.entries) {
            Ok(b) => Ok(Some(b)),
            Err(e) => Err(StoreError::Encode(e)),
        }
    }

    /// The second half of a flush, given how writing the snapshot went: on
    /// success the store is clean; on failure it is unchanged and the write's
    /// cause comes back as an `Io` error, so that the flush can be retried.
    pub fn complete_flush(&mut self, written: Result<(), String>) -> (r: Result<(), StoreError>)
        ensures
            final(self)@ == old(self)@,
            final(self).wf() == old(self).wf(),
            final(self).path() == old(self).path(),
            match written {
                Ok(()) => r is Ok && flush_completed(*old(self), *final(self)),
                Err(e) => r == Err::<(), StoreError>(StoreError::Io(e)) && final(self).dirty()
                    == old(self).dirty(),
            },
    {
        match written {
            Ok(()) => {
                self.modified = false;
                Ok(())
            },
            Err(e) => Err(StoreError::Io(e)),
        }
    }
}

/// Reopening from the snapshot that a flush wrote gives back the flushed
/// mapping: the snapshot loads without error, and in the reopened store every
/// key gives the same lookup as in the flushed one.
pub proof fn round_trip(s: Store, b: Seq<u8>, reopened: Store)
    requires
        s.wf(),
        snapshot_of(b, s@),
        loaded_map(Some(b)) == Some(reopened@),
    ensures
        loaded_map(Some(b)) == Some(s@),
        forall|k: Seq<char>| #[trigger] reopened.lookup(k) == s.lookup(k),
{
}

/// Whether a key is present agrees with whether a lookup of it finds a value.
pub proof fn contains_agrees_with_get(s: Store, k: Seq<char>)
    ensures
        s@.contains_key(k) == s.lookup(k) is Some,
{
}

/// Flushing twice with no change between: once the first flush has completed
/// the store is clean and holds the same mapping, so the second flush writes
/// nothing and leaves the store as it is.
pub proof fn flush_is_idempotent(s: Store, t: Store)
    requires
        flush_completed(s, t),
    ensures
        !t.dirty(),
        t@ == s@,
        flush_completed(t, t),
{
}

} // verus!

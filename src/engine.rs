//! The capability a storage engine offers to the server, and an engine that
//! keeps its data in memory.
use vstd::prelude::*;

use crate::error::KvsError;

verus! {

/// A key-value store that the server can serve. Each operation is atomic:
/// it sees the store wholly before or wholly after any other operation.
pub trait KvsEngine {
    /// The keys that the store holds, each with its value.
    spec fn store(&self) -> Map<Seq<char>, Seq<char>>;

    /// The engine cannot fail: every operation that its contract allows to
    /// succeed does.
    spec fn reliable(&self) -> bool;

    /// The value of `key`, or `None` where the store does not hold it. A
    /// missing key is no error; only a fault of the engine is.
    fn get(&self, key: String) -> (r: Result<Option<String>, KvsError>)
        ensures
            r matches Ok(Some(v)) ==> self.store().contains_key(key@) && self.store()[key@] == v@,
            r matches Ok(None) ==> !self.store().contains_key(key@),
            self.reliable() ==> r is Ok,
    ;

    /// Sets `key` to `value`. On a fault of the engine the store is kept.
    fn set(&mut self, key: String, value: String) -> (r: Result<(), KvsError>)
        ensures
            r is Ok ==> final(self).store() == old(self).store().insert(key@, value@),
            r is Err ==> final(self).store() == old(self).store(),
            old(self).reliable() ==> r is Ok && final(self).reliable(),
    ;

    /// Removes `key`. Removing a key that the store does not hold fails
    /// with `KeyNotFound`.
    fn remove(&mut self, key: String) -> (r: Result<(), KvsError>)
        ensures
            r is Ok ==> old(self).store().contains_key(key@) && final(self).store() == old(
                self,
            ).store().remove(key@),
            !old(self).store().contains_key(key@) ==> r == Err::<(), KvsError>(
                KvsError::KeyNotFound,
            ),
            r == Err::<(), KvsError>(KvsError::KeyNotFound) ==> !old(self).store().contains_key(
                key@,
            ),
            r is Err ==> final(self).store() == old(self).store(),
            old(self).reliable() ==> final(self).reliable() && (old(self).store().contains_key(
                key@,
            ) ==> r is Ok),
    ;
}

/// The map that a list of entries describes: a later entry for a key
/// overrides an earlier one.
pub open spec fn map_of(s: Seq<(String, String)>) -> Map<Seq<char>, Seq<char>>
    decreases s.len(),
{
    if s.len() == 0 {
        Map::empty()
    } else {
        map_of(s.drop_last()).insert(s.last().0@, s.last().1@)
    }
}

/// An engine that holds its entries in memory.
pub struct MemEngine {
    entries: Vec<(String, String)>,
}

/// The entries of `entries` whose key is not `key`, in order, and whether
/// there was one whose key is.
fn without_key(entries: &Vec<(String, String)>, key: &String) -> (r: (Vec<(String, String)>, bool))
    ensures
        map_of(r.0@) == map_of(entries@).remove(key@),
        r.1 == map_of(entries@).contains_key(key@),
{
    let mut out: Vec<(String, String)> = Vec::new();
    let mut present = false;
    let mut i: usize = 0;
    while i < entries.len()
        invariant
            i <= entries@.len(),
            map_of(out@) == map_of(entries@.take(i as int)).remove(key@),
            present == map_of(entries@.take(i as int)).contains_key(key@),
        decreases entries@.len() - i,
    {
        let ghost before = out@;
        assert(entries@.take(i + 1).drop_last() =~= entries@.take(i as int));
        if entries[i].0 == *key {
            present = true;
            assert(map_of(entries@.take(i + 1)).remove(key@) =~= map_of(
                entries@.take(i as int),
            ).remove(key@));
        } else {
            let k = entries[i].0.clone();
            let v = entries[i].1.clone();
            out.push((k, v));
            assert(out@.drop_last() =~= before);
            assert(map_of(out@) =~= map_of(entries@.take(i + 1)).remove(key@));
        }
        i = i + 1;
    }
    assert(entries@.take(i as int) =~= entries@);
    (out, present)
}

impl MemEngine {
    /// An engine that holds no key.
    pub fn new() -> (r: MemEngine)
        ensures
            r.store() == Map::<Seq<char>, Seq<char>>::empty(),
            r.reliable(),
    {
        MemEngine { entries: Vec::new() }
    }
}

impl KvsEngine for MemEngine {
    closed spec fn store(&self) -> Map<Seq<char>, Seq<char>> {
        map_of(self.entries@)
    }

    open spec fn reliable(&self) -> bool {
        true
    }

    fn get(&self, key: String) -> (r: Result<Option<String>, KvsError>) {
        let mut found: Option<usize> = None;
        let mut i: usize = 0;
        while i < self.entries.len()
            invariant
                i <= self.entries@.len(),
                found matches Some(j) ==> j < i && map_of(self.entries@.take(i as int)).contains_key(
                    key@,
                ) && map_of(self.entries@.take(i as int))[key@] == self.entries@[j as int].1@,
                found is None ==> !map_of(self.entries@.take(i as int)).contains_key(key@),
            decreases self.entries@.len() - i,
        {
            assert(self.entries@.take(i + 1).drop_last() =~= self.entries@.take(i as int));
            if self.entries[i].0 == key {
                found = Some(i);
            }
            i = i + 1;
        }
        assert(self.entries@.take(i as int) =~= self.entries@);
        match found {
            Some(j) => Ok(Some(self.entries[j].1.clone())),
            None => Ok(None),
        }
    }

    fn set(&mut self, key: String, value: String) -> (r: Result<(), KvsError>) {
        let (mut rest, _) = without_key(&self.entries, &key);
        let ghost kept = rest@;
        rest.push((key, value));
        assert(rest@.drop_last() =~= kept);
        assert(map_of(rest@) =~= map_of(old(self).entries@).insert(key@, value@));
        self.entries = rest;
        Ok(())
    }

    fn remove(&mut self, key: String) -> (r: Result<(), KvsError>) {
        let (rest, present) = without_key(&self.entries, &key);
        if !present {
            return Err(KvsError::KeyNotFound);
        }
        self.entries = rest;
        Ok(())
    }
}

} // verus!

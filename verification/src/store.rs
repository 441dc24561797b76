//! The store: the in-memory map from string keys to string values, together
//! with the name of the durability log file it is recovered from. The map is
//! mutated only through `set` and `delete`; the caller that owns the store is
//! expected to serialize all access to it (one exclusive critical section
//! covering both the mutation and the matching log append).

use vstd::prelude::*;

use crate::semantics::{remove_keys, removed_count, StoreModel};

verus! {

/// The key-value store. `map` holds the live data; `aof_file` names the
/// append-only log file that mutations are recorded in.
pub struct S {
    pub map: vstd::hash_map::StringHashMap<String>,
    pub aof_file: String,
}

impl View for S {
    type V = StoreModel;

    /// The store viewed as a map from key characters to value characters.
    open spec fn view(&self) -> StoreModel {
        Map::new(
            |k: Seq<char>| self.map@.contains_key(k),
            |k: Seq<char>| self.map@[k]@,
        )
    }
}

impl S {
    /// Creates an empty store backed by the named log file.
    pub fn new(aof_file: String) -> (s: S)
        ensures
            s@ == Map::<Seq<char>, Seq<char>>::empty(),
            s.aof_file == aof_file,
    {
        let s = S { map: vstd::hash_map::StringHashMap::new(), aof_file };
        proof {
            assert(s@ =~= Map::<Seq<char>, Seq<char>>::empty());
        }
        s
    }

    /// Pure lookup: the value under the key, or nothing if the key is absent.
    pub fn get(&self, key: &String) -> (r: Option<&String>)
        ensures
            match r {
                Some(v) => self@.contains_key(key@) && v@ == self@[key@],
                None => !self@.contains_key(key@),
            },
    {
        self.map.get(key.as_str())
    }

    /// Inserts or overwrites the key with the value.
    pub fn set(&mut self, key: String, value: String)
        ensures
            final(self)@ == old(self)@.insert(key@, value@),
            final(self).aof_file == old(self).aof_file,
    {
        self.map.insert(key, value);
        proof {
            assert(self@ =~= old(self)@.insert(key@, value@));
        }
    }

    /// Removes each listed key if present and returns how many were actually
    /// removed.
    pub fn delete(&mut self, keys: &Vec<String>) -> (count: usize)
        ensures
            final(self)@ == remove_keys(old(self)@, keys.deep_view()),
            count == removed_count(old(self)@, keys.deep_view()),
            final(self).aof_file == old(self).aof_file,
    {
        let ghost kv = keys.deep_view();
        let ghost orig = self@;
        let mut count: usize = 0;
        let mut i: usize = 0;
        proof {
            assert(kv.skip(0) =~= kv);
        }
        while i < keys.len()
            invariant
                i <= keys.len(),
                count <= i,
                kv == keys.deep_view(),
                kv.len() == keys.len(),
                remove_keys(orig, kv) == remove_keys(self@, kv.skip(i as int)),
                removed_count(orig, kv) == count + removed_count(self@, kv.skip(i as int)),
                self.aof_file == old(self).aof_file,
            decreases keys.len() - i,
        {
            let ghost pre = self@;
            let ghost rest = kv.skip(i as int);
            proof {
                assert(kv[i as int] == keys.deep_view()[i as int]);
                assert(rest.len() == kv.len() - i);
                assert(rest.first() == kv[i as int]);
                assert(rest.drop_first() =~= kv.skip(i as int + 1));
            }
            let present = self.map.contains_key(keys[i].as_str());
            if present {
                count = count + 1;
            }
            self.map.remove(keys[i].as_str());
            proof {
                assert(self@ =~= pre.remove(kv[i as int]));
                if !present {
                    assert(pre.remove(kv[i as int]) =~= pre);
                }
            }
            i = i + 1;
        }
        proof {
            assert(kv.skip(keys.len() as int) =~= Seq::<Seq<char>>::empty());
        }
        count
    }
}

} // verus!

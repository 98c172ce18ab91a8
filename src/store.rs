use vstd::prelude::*;
use crate::error::ServiceError;
use crate::keys::{key_text, RedisKey};
use crate::lifecycle::{apply_write, apply_writes, writes_of, StoreCommand, StoreModel, Write};

verus! {

/// An in-process key-value store with the semantics that the session core
/// assumes of the outside store: each key holds at most one record, a write
/// replaces it, a delete removes it. Keys may carry a time to live, which this
/// store records but does not enforce.
pub struct RedisClient {
    entries: Vec<(String, String, Option<u32>)>,
}

impl RedisClient {
    /// Records by key text.
    pub closed spec fn view(&self) -> StoreModel {
        Map::new(
            |k: Seq<char>| exists|i: int| 0 <= i < self.entries.len() && (#[trigger] self.entries@[i]).0@ == k,
            |k: Seq<char>| self.entries@[self.index_of(k)].1@,
        )
    }

    /// Times to live by key text, for keys that have one.
    pub closed spec fn ttls(&self) -> Map<Seq<char>, u32> {
        Map::new(
            |k: Seq<char>| exists|i: int| 0 <= i < self.entries.len() && (#[trigger] self.entries@[i]).0@ == k && self.entries@[i].2 is Some,
            |k: Seq<char>| self.entries@[self.index_of(k)].2->Some_0,
        )
    }

    closed spec fn index_of(&self, k: Seq<char>) -> int {
        choose|i: int| 0 <= i < self.entries.len() && (#[trigger] self.entries@[i]).0@ == k
    }

    /// Keys are unique.
    pub closed spec fn wf(&self) -> bool {
        forall|i: int, j: int|
            0 <= i < self.entries.len() && 0 <= j < self.entries.len() && i != j ==> (
            #[trigger] self.entries@[i]).0@ != (#[trigger] self.entries@[j]).0@
    }

    proof fn lemma_index(&self, i: int)
        requires
            self.wf(),
            0 <= i < self.entries.len(),
        ensures
            self.index_of(self.entries@[i].0@) == i,
            self.view().contains_key(self.entries@[i].0@),
            self.view()[self.entries@[i].0@] == self.entries@[i].1@,
    {
        let k = self.entries@[i].0@;
        assert(exists|j: int| 0 <= j < self.entries.len() && (#[trigger] self.entries@[j]).0@ == k);
    }

    pub fn new() -> (r: RedisClient)
        ensures
            r.wf(),
            r.view() == Map::<Seq<char>, Seq<char>>::empty(),
            r.ttls() == Map::<Seq<char>, u32>::empty(),
    {
        let r = RedisClient { entries: Vec::new() };
        proof {
            assert(r.view() =~= Map::<Seq<char>, Seq<char>>::empty());
            assert(r.ttls() =~= Map::<Seq<char>, u32>::empty());
        }
        r
    }

    fn find(&self, k: &String) -> (r: Option<usize>)
        requires
            self.wf(),
        ensures
            match r {
                Some(i) => i < self.entries.len() && self.entries@[i as int].0@ == k@,
                None => !self.view().contains_key(k@),
            },
    {
        let mut i: usize = 0;
        while i < self.entries.len()
            invariant
                i <= self.entries.len(),
                forall|j: int| 0 <= j < i ==> (#[trigger] self.entries@[j]).0@ != k@,
            decreases self.entries.len() - i,
        {
            if self.entries[i].0 == *k {
                return Some(i);
            }
            i = i + 1;
        }
        None
    }

    /// The record under `key`; `NotFound` where there is none.
    pub fn get(&self, key: &RedisKey) -> (r: Result<String, ServiceError>)
        requires
            self.wf(),
        ensures
            match r {
                Ok(v) => self.view().contains_key(key_text(*key)) && v@ == self.view()[key_text(*key)],
                Err(e) => !self.view().contains_key(key_text(*key)) && e is NotFound,
            },
    {
        let k = key.to_string();
        match self.find(&k) {
            Some(i) => {
                proof {
                    self.lemma_index(i as int);
                }
                Ok(self.entries[i].1.clone())
            },
            None => Err(ServiceError::NotFound(k)),
        }
    }

    /// Whether a record stands under `key`.
    pub fn key_exists(&self, key: &RedisKey) -> (r: bool)
        requires
            self.wf(),
        ensures
            r == self.view().contains_key(key_text(*key)),
    {
        let k = key.to_string();
        match self.find(&k) {
            Some(i) => {
                proof {
                    self.lemma_index(i as int);
                }
                true
            },
            None => false,
        }
    }

    fn put_text(&mut self, k: String, v: String)
        requires
            old(self).wf(),
        ensures
            final(self).wf(),
            final(self).view() == old(self).view().insert(k@, v@),
    {
        let ghost k_view = k@;
        let ghost before = self.view();
        match self.find(&k) {
            Some(i) => {
                proof {
                    self.lemma_index(i as int);
                }
                let ttl = self.entries[i].2;
                self.entries.set(i, (k, v, ttl));
                proof {
                    assert forall|j: int| 0 <= j < self.entries.len() && j != i implies self.entries@[j] == old(self).entries@[j] by {}
                    assert(self.view() =~= before.insert(k_view, v@)) by {
                        assert forall|key: Seq<char>| #[trigger] self.view().contains_key(key) == before.insert(k_view, v@).contains_key(key) by {
                            if before.contains_key(key) {
                                let j = old(self).index_of(key);
                                assert(self.entries@[j].0@ == key);
                            }
                            if self.view().contains_key(key) {
                                let j = self.index_of(key);
                                if j != i {
                                    assert(old(self).entries@[j].0@ == key);
                                }
                            }
                        }
                        assert forall|key: Seq<char>| #[trigger] self.view().contains_key(key) implies self.view()[key] == before.insert(k_view, v@)[key] by {
                            let j = self.index_of(key);
                            self.lemma_index(j);
                            if j != i {
                                old(self).lemma_index(j);
                            }
                        }
                    }
                }
            },
            None => {
                self.entries.push((k, v, None));
                proof {
                    let n = old(self).entries.len() as int;
                    assert forall|j: int| 0 <= j < n implies self.entries@[j] == old(self).entries@[j] by {}
                    assert(self.view() =~= before.insert(k_view, v@)) by {
                        assert forall|key: Seq<char>| #[trigger] self.view().contains_key(key) == before.insert(k_view, v@).contains_key(key) by {
                            if before.contains_key(key) {
                                let j = old(self).index_of(key);
                                assert(self.entries@[j].0@ == key);
                            }
                            if key == k_view {
                                assert(self.entries@[n].0@ == key);
                            }
                        }
                        assert forall|key: Seq<char>| #[trigger] self.view().contains_key(key) implies self.view()[key] == before.insert(k_view, v@)[key] by {
                            let j = self.index_of(key);
                            self.lemma_index(j);
                            if j != n {
                                old(self).lemma_index(j);
                            }
                        }
                    }
                }
            },
        }
    }

    fn remove_text(&mut self, k: &String)
        requires
            old(self).wf(),
        ensures
            final(self).wf(),
            final(self).view() == old(self).view().remove(k@),
    {
        let ghost before = self.view();
        match self.find(k) {
            Some(i) => {
                proof {
                    self.lemma_index(i as int);
                }
                let _ = self.entries.remove(i);
                proof {
                    let o = old(self).entries@;
                    assert forall|j: int| 0 <= j < self.entries.len() implies self.entries@[j] == (if j < i { o[j] } else { o[j + 1] }) by {}
                    assert(self.view() =~= before.remove(k@)) by {
                        assert forall|key: Seq<char>| #[trigger] self.view().contains_key(key) == before.remove(k@).contains_key(key) by {
                            if before.contains_key(key) && key != k@ {
                                let j = old(self).index_of(key);
                                assert(j != i);
                                if j < i {
                                    assert(self.entries@[j].0@ == key);
                                } else {
                                    assert(self.entries@[j - 1].0@ == key);
                                }
                            }
                            if self.view().contains_key(key) {
                                let j = self.index_of(key);
                                let oj = if j < i { j } else { j + 1 };
                                assert(o[oj].0@ == key);
                                assert(oj != i);
                            }
                        }
                        assert forall|key: Seq<char>| #[trigger] self.view().contains_key(key) implies self.view()[key] == before.remove(k@)[key] by {
                            let j = self.index_of(key);
                            self.lemma_index(j);
                            let oj = if j < i { j } else { j + 1 };
                            old(self).lemma_index(oj);
                        }
                    }
                }
            },
            None => {
                proof {
                    assert(self.view() =~= before.remove(k@));
                }
            },
        }
    }

    /// Stores `value` under `key`, replacing what stood there.
    pub fn set(&mut self, key: &RedisKey, value: &str)
        requires
            old(self).wf(),
        ensures
            final(self).wf(),
            final(self).view() == old(self).view().insert(key_text(*key), value@),
    {
        self.put_text(key.to_string(), String::from_str(value));
    }

    /// Removes the record under `key`, if any.
    pub fn delete(&mut self, key: &RedisKey)
        requires
            old(self).wf(),
        ensures
            final(self).wf(),
            final(self).view() == old(self).view().remove(key_text(*key)),
    {
        let k = key.to_string();
        self.remove_text(&k);
    }

    /// Gives the record under `key` a time to live; false where there is no
    /// such record.
    pub fn expire(&mut self, key: &RedisKey, seconds: u32) -> (r: bool)
        requires
            old(self).wf(),
        ensures
            final(self).wf(),
            final(self).view() == old(self).view(),
            r == old(self).view().contains_key(key_text(*key)),
            r ==> final(self).ttls() == old(self).ttls().insert(key_text(*key), seconds),
            !r ==> final(self).ttls() == old(self).ttls(),
    {
        let k = key.to_string();
        match self.find(&k) {
            Some(i) => {
                proof {
                    self.lemma_index(i as int);
                }
                let ghost before = self.view();
                let ghost tb = self.ttls();
                let (kk, vv, _) = self.entries.remove(i);
                self.entries.insert(i, (kk, vv, Some(seconds)));
                proof {
                    let o = old(self).entries@;
                    assert forall|j: int| 0 <= j < self.entries.len() && j != i implies self.entries@[j] == o[j] by {}
                    assert(self.entries@[i as int].0@ == o[i as int].0@);
                    assert(self.view() =~= before) by {
                        assert forall|key: Seq<char>| #[trigger] self.view().contains_key(key) == before.contains_key(key) by {
                            if before.contains_key(key) {
                                let j = old(self).index_of(key);
                                assert(self.entries@[j].0@ == key);
                            }
                            if self.view().contains_key(key) {
                                let j = self.index_of(key);
                                assert(o[j].0@ == key);
                            }
                        }
                        assert forall|key: Seq<char>| #[trigger] self.view().contains_key(key) implies self.view()[key] == before[key] by {
                            let j = self.index_of(key);
                            self.lemma_index(j);
                            old(self).lemma_index(j);
                        }
                    }
                    assert(self.ttls() =~= tb.insert(k@, seconds)) by {
                        assert forall|key: Seq<char>| #[trigger] self.ttls().contains_key(key) == tb.insert(k@, seconds).contains_key(key) by {
                            if tb.contains_key(key) {
                                let j = choose|j: int| 0 <= j < o.len() && (#[trigger] o[j]).0@ == key && o[j].2 is Some;
                                assert(self.entries@[j].0@ == key);
                                if j != i {
                                    assert(self.entries@[j].2 is Some);
                                }
                            }
                            if key == k@ {
                                assert(self.entries@[i as int].0@ == key && self.entries@[i as int].2 is Some);
                            }
                            if self.ttls().contains_key(key) && key != k@ {
                                let j = choose|j: int| 0 <= j < self.entries.len() && (#[trigger] self.entries@[j]).0@ == key && self.entries@[j].2 is Some;
                                assert(j != i);
                                assert(o[j].0@ == key && o[j].2 is Some);
                            }
                        }
                        assert forall|key: Seq<char>| #[trigger] self.ttls().contains_key(key) implies self.ttls()[key] == tb.insert(k@, seconds)[key] by {
                            let j = self.index_of(key);
                            self.lemma_index(j);
                            old(self).lemma_index(j);
                        }
                    }
                }
                true
            },
            None => false,
        }
    }

    /// Performs one write.
    pub fn execute(&mut self, command: &StoreCommand)
        requires
            old(self).wf(),
        ensures
            final(self).wf(),
            final(self).view() == apply_write(old(self).view(), command@),
    {
        match command {
            StoreCommand::Put(k, v) => self.put_text(k.clone(), v.clone()),
            StoreCommand::Delete(k) => self.remove_text(k),
        }
    }

    /// Performs the writes in order.
    pub fn execute_raw(&mut self, commands: &Vec<StoreCommand>)
        requires
            old(self).wf(),
        ensures
            final(self).wf(),
            final(self).view() == apply_writes(old(self).view(), writes_of(commands@)),
    {
        let ghost start = self.view();
        let ghost ws = writes_of(commands@);
        let mut i: usize = 0;
        proof {
            assert(ws.subrange(0, ws.len() as int) =~= ws);
        }
        while i < commands.len()
            invariant
                self.wf(),
                i <= commands.len(),
                ws == writes_of(commands@),
                apply_writes(start, ws) == apply_writes(self.view(), ws.subrange(i as int, ws.len() as int)),
            decreases commands.len() - i,
        {
            proof {
                let rest = ws.subrange(i as int, ws.len() as int);
                assert(rest[0] == commands@[i as int]@);
                assert(rest.drop_first() =~= ws.subrange(i + 1, ws.len() as int));
            }
            self.execute(&commands[i]);
            i = i + 1;
        }
        proof {
            assert(ws.subrange(i as int, ws.len() as int) =~= Seq::<Write>::empty());
        }
    }
}

} // verus!

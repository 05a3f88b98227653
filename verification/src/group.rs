//! A keyed collection of engines with one active member: operations on the
//! group are forwarded to the active engine.

use vstd::prelude::*;

use crate::record::{apply_post, redo_post, undo_post, Record, RecordView};
use crate::stack::{stack_pop_post, stack_push_post, Stack};
use crate::{Command, Error, Slot};
use core::hash::Hash;
use std::collections::hash_map::RandomState;
use std::collections::HashMap;

verus! {

broadcast use vstd::std_specs::hash::group_hash_axioms;

/// Whether the key type hashes by value, so that the map underneath the
/// group behaves like a mathematical map. It holds for the primitive
/// integer types and `bool`; the contracts of the group promise nothing
/// without it.
pub open spec fn reliable_keys<K>() -> bool {
    vstd::std_specs::hash::obeys_key_model::<K>()
        && vstd::std_specs::hash::builds_valid_hashers::<RandomState>()
}

/// The mathematical model of a [`Group`].
#[verifier::reject_recursive_types(K)]
pub struct GroupView<K, V> {
    /// The engines by key.
    pub map: Map<K, V>,
    /// The key of the active engine, if one is set.
    pub active: Option<K>,
}

/// Relies on HashMap::remove_entry: it removes the named key's entry and
/// returns the stored key together with its value. Under the key model the
/// stored key equals the one looked up, exactly as the other map
/// operations are specified.
#[verifier::external_body]
fn take_entry<K: Eq + Hash, V>(map: &mut HashMap<K, V>, key: &K) -> (r: Option<(K, V)>)
    ensures
        reliable_keys::<K>() ==> match r {
            Some(pair) => {
                &&& old(map)@.contains_key(*key)
                &&& pair.0 == *key
                &&& pair.1 == old(map)@[*key]
                &&& final(map)@ == old(map)@.remove(*key)
            },
            None => {
                &&& !old(map)@.contains_key(*key)
                &&& final(map)@ == old(map)@
            },
        },
{
    map.remove_entry(key)
}

/// A group of engines under user-chosen keys, of which at most one is
/// active. Operations on the group delegate to the active engine.
#[derive(Clone, Debug, Eq, PartialEq)]
pub struct Group<K: Eq + Hash, V> {
    map: HashMap<K, V>,
    active: Option<K>,
}

impl<K: Eq + Hash, V> View for Group<K, V> {
    type V = GroupView<K, V>;

    closed spec fn view(&self) -> GroupView<K, V> {
        GroupView { map: self.map@, active: self.active }
    }
}

impl<K: Eq + Hash, V> Group<K, V> {
    /// Returns a new, empty group with no active member.
    pub fn new() -> (r: Group<K, V>)
        ensures
            r@.map == Map::<K, V>::empty(),
            r@.active == None::<K>,
    {
        Group { map: HashMap::new(), active: None }
    }

    /// Returns the number of engines in the group.
    pub fn len(&self) -> (r: usize)
        ensures
            reliable_keys::<K>() ==> r == self@.map.len(),
    {
        self.map.len()
    }

    /// Returns `true` if the group holds no engine.
    pub fn is_empty(&self) -> (r: bool)
        ensures
            reliable_keys::<K>() ==> r == (self@.map.len() == 0),
    {
        self.map.is_empty()
    }

    /// Inserts an engine under the given key, returning the engine that
    /// held the key before, if any.
    pub fn insert(&mut self, k: K, v: V) -> (r: Option<V>)
        ensures
            final(self)@.active == old(self)@.active,
            reliable_keys::<K>() ==> {
                &&& final(self)@.map == old(self)@.map.insert(k, v)
                &&& match r {
                    Some(prev) => old(self)@.map.contains_key(k) && prev == old(self)@.map[k],
                    None => !old(self)@.map.contains_key(k),
                }
            },
    {
        self.map.insert(k, v)
    }

    /// Removes the engine under the given key and returns it, if any. The
    /// active key is left as it is; when it named the removed engine, the
    /// group simply has no active engine any more.
    pub fn remove(&mut self, k: &K) -> (r: Option<V>)
        ensures
            final(self)@.active == old(self)@.active,
            reliable_keys::<K>() ==> {
                &&& final(self)@.map == old(self)@.map.remove(*k)
                &&& match r {
                    Some(prev) => old(self)@.map.contains_key(*k) && prev == old(self)@.map[*k],
                    None => !old(self)@.map.contains_key(*k),
                }
            },
    {
        self.map.remove(k)
    }

    /// Returns the active engine, if one is set and still present.
    pub fn get(&self) -> (r: Option<&V>)
        ensures
            reliable_keys::<K>() ==> match self@.active {
                None => r is None,
                Some(k) => if self@.map.contains_key(k) {
                    r matches Some(v) && *v == self@.map[k]
                } else {
                    r is None
                },
            },
    {
        match &self.active {
            Some(k) => self.map.get(k),
            None => None,
        }
    }

    /// Sets the active key. Setting a key that is not in the group is
    /// refused and returns `false`; setting `None` clears the active key.
    pub fn set(&mut self, k: Option<K>) -> (r: bool)
        ensures
            final(self)@.map == old(self)@.map,
            reliable_keys::<K>() ==> match k {
                Some(key) => if old(self)@.map.contains_key(key) {
                    r && final(self)@.active == Some(key)
                } else {
                    !r && final(self)@.active == old(self)@.active
                },
                None => r && final(self)@.active == None::<K>,
            },
    {
        match k {
            Some(key) => {
                if self.map.contains_key(&key) {
                    self.active = Some(key);
                    true
                } else {
                    false
                }
            },
            None => {
                self.active = None;
                true
            },
        }
    }
}

impl<K: Eq + Hash, R, C: Command<R>> Group<K, Stack<R, C>> {
    /// Calls [`Stack::push`] on the active stack, or returns `None` when
    /// no active stack is present.
    pub fn push(&mut self, cmd: C) -> (r: Option<Result<(), Error<R, C>>>)
        ensures
            final(self)@.active == old(self)@.active,
            reliable_keys::<K>() ==> match old(self)@.active {
                None => r is None && final(self)@ == old(self)@,
                Some(k) => if old(self)@.map.contains_key(k) {
                    &&& r is Some
                    &&& final(self)@.map == old(self)@.map.insert(k, final(self)@.map[k])
                    &&& stack_push_post(old(self)@.map[k]@, final(self)@.map[k]@, r->0)
                } else {
                    r is None && final(self)@ == old(self)@
                },
            },
    {
        let k = match &self.active {
            Some(k) => k,
            None => {
                return None;
            },
        };
        match take_entry(&mut self.map, k) {
            Some((key, mut stack)) => {
                let res = stack.push(cmd);
                self.map.insert(key, stack);
                proof {
                    if reliable_keys::<K>() {
                        assert(self@.map =~= old(self)@.map.insert(
                            old(self)@.active->0,
                            self@.map[old(self)@.active->0],
                        ));
                    }
                }
                Some(res)
            },
            None => None,
        }
    }

    /// Calls [`Stack::pop`] on the active stack, or returns `None` when no
    /// active stack is present.
    pub fn pop(&mut self) -> (r: Option<Result<C, Error<R, C>>>)
        ensures
            final(self)@.active == old(self)@.active,
            reliable_keys::<K>() ==> match old(self)@.active {
                None => r is None && final(self)@ == old(self)@,
                Some(k) => if old(self)@.map.contains_key(k) {
                    &&& final(self)@.map == old(self)@.map.insert(k, final(self)@.map[k])
                    &&& stack_pop_post(old(self)@.map[k]@, final(self)@.map[k]@, r)
                } else {
                    r is None && final(self)@ == old(self)@
                },
            },
    {
        let k = match &self.active {
            Some(k) => k,
            None => {
                return None;
            },
        };
        match take_entry(&mut self.map, k) {
            Some((key, mut stack)) => {
                let res = stack.pop();
                self.map.insert(key, stack);
                proof {
                    if reliable_keys::<K>() {
                        assert(self@.map =~= old(self)@.map.insert(
                            old(self)@.active->0,
                            self@.map[old(self)@.active->0],
                        ));
                    }
                }
                res
            },
            None => None,
        }
    }
}

impl<K: Eq + Hash, R, C: Command<R>, S: Slot> Group<K, Record<R, C, S>> {
    /// Calls [`Record::apply`] on the active record, or returns `None`
    /// when no active record is present.
    pub fn push(&mut self, cmd: C) -> (r: Option<Result<Vec<C>, Error<R, C>>>)
        requires
            reliable_keys::<K>(),
            match old(self)@.active {
                Some(k) => old(self)@.map.contains_key(k) ==> old(self)@.map[k].wf(),
                None => true,
            },
        ensures
            final(self)@.active == old(self)@.active,
            match old(self)@.active {
                None => r is None && final(self)@ == old(self)@,
                Some(k) => if old(self)@.map.contains_key(k) {
                    &&& r is Some
                    &&& final(self)@.map == old(self)@.map.insert(k, final(self)@.map[k])
                    &&& final(self)@.map[k].wf()
                    &&& apply_post(old(self)@.map[k]@, final(self)@.map[k]@, r->0)
                } else {
                    r is None && final(self)@ == old(self)@
                },
            },
    {
        let k = match &self.active {
            Some(k) => k,
            None => {
                return None;
            },
        };
        match take_entry(&mut self.map, k) {
            Some((key, mut record)) => {
                let res = record.apply(cmd);
                self.map.insert(key, record);
                proof {
                    assert(self@.map =~= old(self)@.map.insert(
                        old(self)@.active->0,
                        self@.map[old(self)@.active->0],
                    ));
                }
                Some(res)
            },
            None => None,
        }
    }

    /// Calls [`Record::redo`] on the active record, or returns `None` when
    /// no active record is present.
    pub fn redo(&mut self) -> (r: Option<Result<(), C::Error>>)
        requires
            reliable_keys::<K>(),
            match old(self)@.active {
                Some(k) => old(self)@.map.contains_key(k) ==> old(self)@.map[k].wf(),
                None => true,
            },
        ensures
            final(self)@.active == old(self)@.active,
            match old(self)@.active {
                None => r is None && final(self)@ == old(self)@,
                Some(k) => if old(self)@.map.contains_key(k) {
                    &&& final(self)@.map == old(self)@.map.insert(k, final(self)@.map[k])
                    &&& final(self)@.map[k].wf()
                    &&& redo_post(old(self)@.map[k]@, final(self)@.map[k]@, r)
                } else {
                    r is None && final(self)@ == old(self)@
                },
            },
    {
        let k = match &self.active {
            Some(k) => k,
            None => {
                return None;
            },
        };
        match take_entry(&mut self.map, k) {
            Some((key, mut record)) => {
                let res = record.redo();
                self.map.insert(key, record);
                proof {
                    assert(self@.map =~= old(self)@.map.insert(
                        old(self)@.active->0,
                        self@.map[old(self)@.active->0],
                    ));
                }
                res
            },
            None => None,
        }
    }

    /// Calls [`Record::undo`] on the active record, or returns `None` when
    /// no active record is present.
    pub fn undo(&mut self) -> (r: Option<Result<(), C::Error>>)
        requires
            reliable_keys::<K>(),
            match old(self)@.active {
                Some(k) => old(self)@.map.contains_key(k) ==> old(self)@.map[k].wf(),
                None => true,
            },
        ensures
            final(self)@.active == old(self)@.active,
            match old(self)@.active {
                None => r is None && final(self)@ == old(self)@,
                Some(k) => if old(self)@.map.contains_key(k) {
                    &&& final(self)@.map == old(self)@.map.insert(k, final(self)@.map[k])
                    &&& final(self)@.map[k].wf()
                    &&& undo_post(old(self)@.map[k]@, final(self)@.map[k]@, r)
                } else {
                    r is None && final(self)@ == old(self)@
                },
            },
    {
        let k = match &self.active {
            Some(k) => k,
            None => {
                return None;
            },
        };
        match take_entry(&mut self.map, k) {
            Some((key, mut record)) => {
                let res = record.undo();
                self.map.insert(key, record);
                proof {
                    assert(self@.map =~= old(self)@.map.insert(
                        old(self)@.active->0,
                        self@.map[old(self)@.active->0],
                    ));
                }
                res
            },
            None => None,
        }
    }
}

impl<K: Eq + Hash, V> Default for Group<K, V> {
    /// Same as [`Group::new`].
    fn default() -> (r: Group<K, V>)
        ensures
            r@.map == Map::<K, V>::empty(),
            r@.active == None::<K>,
    {
        Group::new()
    }
}

} // verus!

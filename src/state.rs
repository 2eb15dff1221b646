//! The per-entity attribute store: typed values under attribute keys, the
//! keys written during the current tick, and the keys that only live while
//! some node keeps writing them.

use vstd::prelude::*;
use crate::assoc::{keys_unique, has_key, assoc_map, lemma_assoc_get, lemma_assoc_push,
    lemma_assoc_update, lemma_assoc_remove};
use crate::node_id::NodeId;

verus! {

/// A slot of the attribute store.
#[derive(Debug, Clone, Copy, PartialEq, Eq, Structural, Hash)]
pub enum Attribute {
    /// Time elapsed in this tick, in microseconds.
    Delta,
    /// Frames to advance, accumulated by rate nodes and used by index nodes.
    Frames,
    /// The frame rate last used, in thousandths of a frame per second.
    LastFps,
    /// Time carried between ticks towards the next frame, as progress in
    /// millionths of a frame at the rate node's rate (elapsed time times
    /// that rate); scale nodes keep it in the same unit.
    TimeThisFrame,
    /// A frame counter of an index node. Definitions written by hand use
    /// slots 256 to 65535, which no name-made identity can take.
    IndexId(u16),
    /// A key of the application's own.
    Custom(u64),
}

/// A value held by the store.
#[derive(Debug, Clone, Copy, PartialEq, Eq, Structural)]
pub enum AttrValue {
    UInt(u64),
    Bool(bool),
    Id(NodeId),
}

/// A read of a key with a type other than the one it was written with.
#[derive(Debug, Clone, Copy, PartialEq, Eq, Structural)]
pub enum AttributeError {
    TypeMismatch(Attribute),
}

/// What a typed read of an unsigned integer gives on a map of values.
pub open spec fn read_u64(values: Map<Attribute, AttrValue>, key: Attribute) -> Result<Option<u64>, AttributeError> {
    if !values.contains_key(key) {
        Ok(None)
    } else {
        match values[key] {
            AttrValue::UInt(v) => Ok(Some(v)),
            _ => Err(AttributeError::TypeMismatch(key)),
        }
    }
}

/// What a typed read of a flag gives on a map of values.
pub open spec fn read_bool(values: Map<Attribute, AttrValue>, key: Attribute) -> Result<Option<bool>, AttributeError> {
    if !values.contains_key(key) {
        Ok(None)
    } else {
        match values[key] {
            AttrValue::Bool(b) => Ok(Some(b)),
            _ => Err(AttributeError::TypeMismatch(key)),
        }
    }
}

/// What a typed read of a node identity gives on a map of values.
pub open spec fn read_id(values: Map<Attribute, AttrValue>, key: Attribute) -> Result<Option<NodeId>, AttributeError> {
    if !values.contains_key(key) {
        Ok(None)
    } else {
        match values[key] {
            AttrValue::Id(i) => Ok(Some(i)),
            _ => Err(AttributeError::TypeMismatch(key)),
        }
    }
}

/// The values left once the temporary keys that were not written in the
/// tick are evicted.
pub open spec fn evict_stale(values: Map<Attribute, AttrValue>, changed: Set<Attribute>, temp: Set<Attribute>) -> Map<Attribute, AttrValue> {
    values.remove_keys(temp.difference(changed))
}

/// The values a store starts with.
pub open spec fn initial_values() -> Map<Attribute, AttrValue> {
    map![Attribute::Delta => AttrValue::UInt(0), Attribute::Frames => AttrValue::UInt(0)]
}

pub open spec fn set_of(s: Seq<Attribute>) -> Set<Attribute> {
    Set::new(|a: Attribute| s.contains(a))
}

/// The attribute store of one animated entity.
#[derive(Debug)]
pub struct AnimationState {
    data: Vec<(Attribute, AttrValue)>,
    changed: Vec<Attribute>,
    temp: Vec<Attribute>,
}

impl AnimationState {
    /// The stored values, by key.
    pub closed spec fn values(&self) -> Map<Attribute, AttrValue> {
        assoc_map(self.data@)
    }

    /// The keys written since the last `clear_changed`.
    pub closed spec fn changed_keys(&self) -> Set<Attribute> {
        set_of(self.changed@)
    }

    /// The keys marked temporary.
    pub closed spec fn temporary_keys(&self) -> Set<Attribute> {
        set_of(self.temp@)
    }

    pub closed spec fn wf(&self) -> bool {
        &&& keys_unique(self.data@)
        &&& self.changed@.no_duplicates()
        &&& self.temp@.no_duplicates()
    }

    /// A store holding a zero elapsed time and a zero frame count.
    pub fn new() -> (r: AnimationState)
        ensures
            r.wf(),
            r.values() == initial_values(),
            r.changed_keys() == Set::<Attribute>::empty(),
            r.temporary_keys() == Set::<Attribute>::empty(),
    {
        let mut data: Vec<(Attribute, AttrValue)> = Vec::new();
        data.push((Attribute::Delta, AttrValue::UInt(0)));
        data.push((Attribute::Frames, AttrValue::UInt(0)));
        let r = AnimationState { data, changed: Vec::new(), temp: Vec::new() };
        proof {
            let s = r.data@;
            assert(s.drop_last().drop_last() =~= Seq::<(Attribute, AttrValue)>::empty());
            reveal_with_fuel(assoc_map, 3);
            assert(assoc_map(s) =~= initial_values());
            assert(set_of(r.changed@) =~= Set::<Attribute>::empty());
            assert(set_of(r.temp@) =~= Set::<Attribute>::empty());
        }
        r
    }

    /// Where `key` stands in `data`, if anywhere.
    fn find(&self, key: Attribute) -> (r: Option<usize>)
        requires
            self.wf(),
        ensures
            match r {
                Some(i) => i < self.data@.len() && self.data@[i as int].0 == key,
                None => !has_key(self.data@, key),
            },
    {
        let mut i: usize = 0;
        while i < self.data.len()
            invariant
                i <= self.data@.len(),
                forall|j: int| 0 <= j < i ==> self.data@[j].0 != key,
            decreases self.data.len() - i,
        {
            if self.data[i].0 == key {
                return Some(i);
            }
            i = i + 1;
        }
        None
    }

    /// The value under `key`, which must be present.
    pub fn get_attribute(&self, key: Attribute) -> (r: AttrValue)
        requires
            self.wf(),
            self.values().contains_key(key),
        ensures
            r == self.values()[key],
    {
        proof {
            lemma_assoc_get(self.data@, key);
        }
        match self.find(key) {
            Some(i) => self.data[i].1,
            None => {
                proof {
                    assert(false);
                }
                AttrValue::UInt(0)
            },
        }
    }

    /// The value under `key`, or `None` where there is none.
    pub fn try_get_attribute(&self, key: Attribute) -> (r: Option<AttrValue>)
        requires
            self.wf(),
        ensures
            r == if self.values().contains_key(key) {
                Some(self.values()[key])
            } else {
                None
            },
    {
        proof {
            lemma_assoc_get(self.data@, key);
        }
        match self.find(key) {
            Some(i) => Some(self.data[i].1),
            None => None,
        }
    }

    /// The unsigned integer under `key`: `Ok(None)` where the key is absent,
    /// an error where it holds a value of another type.
    pub fn try_get_u64(&self, key: Attribute) -> (r: Result<Option<u64>, AttributeError>)
        requires
            self.wf(),
        ensures
            r == read_u64(self.values(), key),
    {
        match self.try_get_attribute(key) {
            None => Ok(None),
            Some(AttrValue::UInt(v)) => Ok(Some(v)),
            Some(_) => Err(AttributeError::TypeMismatch(key)),
        }
    }

    /// The flag under `key`: `Ok(None)` where the key is absent, an error
    /// where it holds a value of another type.
    pub fn try_get_bool(&self, key: Attribute) -> (r: Result<Option<bool>, AttributeError>)
        requires
            self.wf(),
        ensures
            r == read_bool(self.values(), key),
    {
        match self.try_get_attribute(key) {
            None => Ok(None),
            Some(AttrValue::Bool(b)) => Ok(Some(b)),
            Some(_) => Err(AttributeError::TypeMismatch(key)),
        }
    }

    /// The node identity under `key`: `Ok(None)` where the key is absent,
    /// an error where it holds a value of another type.
    pub fn try_get_id(&self, key: Attribute) -> (r: Result<Option<NodeId>, AttributeError>)
        requires
            self.wf(),
        ensures
            r == read_id(self.values(), key),
    {
        match self.try_get_attribute(key) {
            None => Ok(None),
            Some(AttrValue::Id(i)) => Ok(Some(i)),
            Some(_) => Err(AttributeError::TypeMismatch(key)),
        }
    }

    /// Stores `val` under `key` and marks the key as written in this tick.
    pub fn set_attribute(&mut self, key: Attribute, val: AttrValue)
        requires
            old(self).wf(),
        ensures
            final(self).wf(),
            final(self).values() == old(self).values().insert(key, val),
            final(self).changed_keys() == old(self).changed_keys().insert(key),
            final(self).temporary_keys() == old(self).temporary_keys(),
    {
        self.change(key);
        let ghost d = self.data@;
        match self.find(key) {
            Some(i) => {
                proof {
                    lemma_assoc_update(d, i as int, val);
                }
                self.data.set(i, (key, val));
                assert(self.data@ =~= d.update(i as int, (d[i as int].0, val)));
            },
            None => {
                proof {
                    lemma_assoc_push(d, key, val);
                }
                self.data.push((key, val));
            },
        }
    }

    /// Whether `s` holds `key`.
    fn holds(s: &Vec<Attribute>, key: Attribute) -> (r: Option<usize>)
        ensures
            match r {
                Some(i) => i < s@.len() && s@[i as int] == key,
                None => !s@.contains(key),
            },
    {
        let mut i: usize = 0;
        while i < s.len()
            invariant
                i <= s@.len(),
                forall|j: int| 0 <= j < i ==> s@[j] != key,
            decreases s.len() - i,
        {
            if s[i] == key {
                return Some(i);
            }
            i = i + 1;
        }
        None
    }

    /// Takes `key` out of the temporary keys; tells whether it was there.
    pub fn set_persistent(&mut self, key: &Attribute) -> (r: bool)
        requires
            old(self).wf(),
        ensures
            final(self).wf(),
            r == old(self).temporary_keys().contains(*key),
            final(self).temporary_keys() == old(self).temporary_keys().remove(*key),
            final(self).values() == old(self).values(),
            final(self).changed_keys() == old(self).changed_keys(),
    {
        let key = *key;
        let ghost t = self.temp@;
        match AnimationState::holds(&self.temp, key) {
            Some(i) => {
                self.temp.remove(i);
                proof {
                    assert(self.temp@ =~= t.remove(i as int));
                    assert forall|a: int, b: int| 0 <= a < b < self.temp@.len() implies self.temp@[a] != self.temp@[b] by {
                        let a2 = if a < i { a } else { a + 1 };
                        let b2 = if b < i { b } else { b + 1 };
                        assert(self.temp@[a] == t[a2] && self.temp@[b] == t[b2]);
                    }
                    assert forall|x: Attribute| set_of(self.temp@).contains(x) == set_of(t).remove(key).contains(x) by {
                        if x != key && t.contains(x) {
                            let j = choose|j: int| 0 <= j < t.len() && t[j] == x;
                            let j2 = if j < i { j } else { j - 1 };
                            assert(self.temp@[j2] == x);
                        }
                        if self.temp@.contains(x) {
                            let j = choose|j: int| 0 <= j < self.temp@.len() && self.temp@[j] == x;
                            let j2 = if j < i { j } else { j + 1 };
                            assert(t[j2] == x);
                            assert(j2 != i);
                        }
                    }
                    assert(set_of(self.temp@) =~= set_of(t).remove(key));
                }
                true
            },
            None => {
                assert(set_of(t) =~= set_of(t).remove(key));
                false
            },
        }
    }

    /// Marks `key` temporary; tells whether it was not yet.
    pub fn set_temporary(&mut self, key: Attribute) -> (r: bool)
        requires
            old(self).wf(),
        ensures
            final(self).wf(),
            r == !old(self).temporary_keys().contains(key),
            final(self).temporary_keys() == old(self).temporary_keys().insert(key),
            final(self).values() == old(self).values(),
            final(self).changed_keys() == old(self).changed_keys(),
    {
        let ghost t = self.temp@;
        match AnimationState::holds(&self.temp, key) {
            Some(_) => {
                assert(set_of(t) =~= set_of(t).insert(key));
                false
            },
            None => {
                self.temp.push(key);
                assert(set_of(self.temp@) =~= set_of(t).insert(key)) by {
                    assert forall|x: Attribute| self.temp@.contains(x) == (t.contains(x) || x == key) by {
                        if t.contains(x) {
                            let j = choose|j: int| 0 <= j < t.len() && t[j] == x;
                            assert(self.temp@[j] == x);
                        }
                        if x == key {
                            assert(self.temp@[t.len() as int] == x);
                        }
                    }
                }
                true
            },
        }
    }

    /// Whether `key` was written in this tick.
    pub fn changed(&self, key: &Attribute) -> (r: bool)
        ensures
            r == self.changed_keys().contains(*key),
    {
        AnimationState::holds(&self.changed, *key).is_some()
    }

    fn change(&mut self, key: Attribute)
        requires
            old(self).wf(),
        ensures
            final(self).wf(),
            final(self).data@ == old(self).data@,
            final(self).changed_keys() == old(self).changed_keys().insert(key),
            final(self).temp@ == old(self).temp@,
    {
        let ghost c = self.changed@;
        match AnimationState::holds(&self.changed, key) {
            Some(_) => {
                assert(set_of(c) =~= set_of(c).insert(key));
            },
            None => {
                self.changed.push(key);
                assert(set_of(self.changed@) =~= set_of(c).insert(key)) by {
                    assert forall|x: Attribute| self.changed@.contains(x) == (c.contains(x) || x == key) by {
                        if c.contains(x) {
                            let j = choose|j: int| 0 <= j < c.len() && c[j] == x;
                            assert(self.changed@[j] == x);
                        }
                        if x == key {
                            assert(self.changed@[c.len() as int] == x);
                        }
                    }
                }
            },
        }
    }

    /// Removes the value under `key`, if any.
    pub fn clear_attribute(&mut self, key: &Attribute)
        requires
            old(self).wf(),
        ensures
            final(self).wf(),
            final(self).values() == old(self).values().remove(*key),
            final(self).changed_keys() == old(self).changed_keys(),
            final(self).temporary_keys() == old(self).temporary_keys(),
    {
        self.remove_entry(*key);
    }

    fn remove_entry(&mut self, key: Attribute)
        requires
            old(self).wf(),
        ensures
            final(self).wf(),
            final(self).values() == old(self).values().remove(key),
            final(self).changed@ == old(self).changed@,
            final(self).temp@ == old(self).temp@,
    {
        let ghost d = self.data@;
        match self.find(key) {
            Some(i) => {
                proof {
                    lemma_assoc_remove(d, i as int);
                }
                self.data.remove(i);
            },
            None => {
                proof {
                    lemma_assoc_get(d, key);
                }
                assert(assoc_map(d) =~= assoc_map(d).remove(key));
            },
        }
    }

    /// Forgets which keys were written; done once at the end of a tick.
    pub fn clear_changed(&mut self)
        requires
            old(self).wf(),
        ensures
            final(self).wf(),
            final(self).values() == old(self).values(),
            final(self).changed_keys() == Set::<Attribute>::empty(),
            final(self).temporary_keys() == old(self).temporary_keys(),
    {
        self.changed = Vec::new();
        assert(set_of(self.changed@) =~= Set::<Attribute>::empty());
    }

    /// Removes the value of every temporary key that was not written in
    /// this tick; done at the end of a tick, before `clear_changed`.
    pub fn evict_stale_temporaries(&mut self)
        requires
            old(self).wf(),
        ensures
            final(self).wf(),
            final(self).values() == evict_stale(old(self).values(), old(self).changed_keys(), old(self).temporary_keys()),
            final(self).changed_keys() == old(self).changed_keys(),
            final(self).temporary_keys() == old(self).temporary_keys(),
    {
        let ghost v0 = self.values();
        let ghost c = self.changed_keys();
        let ghost t = self.temp@;
        let mut i: usize = 0;
        while i < self.temp.len()
            invariant
                self.wf(),
                t == self.temp@,
                c == self.changed_keys(),
                i <= t.len(),
                self.values() == v0.remove_keys(set_of(t.subrange(0, i as int)).difference(c)),
            decreases self.temp.len() - i,
        {
            let key = self.temp[i];
            let ghost before = self.values();
            if !self.changed(&key) {
                self.remove_entry(key);
            }
            proof {
                let p1 = t.subrange(0, i as int);
                let p2 = t.subrange(0, i + 1);
                let s1 = set_of(p1).difference(c);
                let s2 = set_of(p2).difference(c);
                assert forall|x: Attribute| s2.contains(x) == (s1.contains(x) || (x == key && !c.contains(x))) by {
                    if p2.contains(x) && x != key {
                        let j = choose|j: int| 0 <= j < p2.len() && p2[j] == x;
                        assert(p1[j] == x);
                    }
                    if p1.contains(x) {
                        let j = choose|j: int| 0 <= j < p1.len() && p1[j] == x;
                        assert(p2[j] == x);
                    }
                    if x == key {
                        assert(p2[i as int] == x);
                    }
                }
                assert(self.values() =~= v0.remove_keys(s2));
            }
            i = i + 1;
        }
        assert(t.subrange(0, t.len() as int) =~= t);
    }

    /// The end of a tick: stale temporary values are evicted, then the
    /// record of written keys is cleared.
    pub fn end_tick(&mut self)
        requires
            old(self).wf(),
        ensures
            final(self).wf(),
            final(self).values() == evict_stale(old(self).values(), old(self).changed_keys(), old(self).temporary_keys()),
            final(self).changed_keys() == Set::<Attribute>::empty(),
            final(self).temporary_keys() == old(self).temporary_keys(),
    {
        self.evict_stale_temporaries();
        self.clear_changed();
    }

    /// The start of a tick: records the time elapsed since the last one.
    pub fn update_delta(&mut self, micros: u64)
        requires
            old(self).wf(),
        ensures
            final(self).wf(),
            final(self).values() == old(self).values().insert(Attribute::Delta, AttrValue::UInt(micros)),
            final(self).changed_keys() == old(self).changed_keys().insert(Attribute::Delta),
            final(self).temporary_keys() == old(self).temporary_keys(),
    {
        self.set_attribute(Attribute::Delta, AttrValue::UInt(micros));
    }
}

impl Default for AnimationState {
    fn default() -> (r: AnimationState)
        ensures
            r.wf(),
            r.values() == initial_values(),
            r.changed_keys() == Set::<Attribute>::empty(),
            r.temporary_keys() == Set::<Attribute>::empty(),
    {
        AnimationState::new()
    }
}

/// Reading a key right after writing it gives back the value written, and
/// a typed read of another type is an error, never a converted value.
pub proof fn law_set_then_get(before: AnimationState, after: AnimationState, key: Attribute, val: AttrValue)
    requires
        after.values() == before.values().insert(key, val),
    ensures
        after.values().contains_key(key),
        after.values()[key] == val,
        (match val {
            AttrValue::UInt(v) => read_u64(after.values(), key) == Ok::<Option<u64>, AttributeError>(Some(v)),
            _ => read_u64(after.values(), key) == Err::<Option<u64>, AttributeError>(AttributeError::TypeMismatch(key)),
        }),
        (match val {
            AttrValue::Bool(b) => read_bool(after.values(), key) == Ok::<Option<bool>, AttributeError>(Some(b)),
            _ => read_bool(after.values(), key) == Err::<Option<bool>, AttributeError>(AttributeError::TypeMismatch(key)),
        }),
        (match val {
            AttrValue::Id(i) => read_id(after.values(), key) == Ok::<Option<NodeId>, AttributeError>(Some(i)),
            _ => read_id(after.values(), key) == Err::<Option<NodeId>, AttributeError>(AttributeError::TypeMismatch(key)),
        }),
{
}

/// A temporary key that nobody wrote during the tick is gone after the
/// tick ends, and a key written during the tick is kept.
pub proof fn law_tick_eviction(before: AnimationState, after: AnimationState, key: Attribute)
    requires
        after.values() == evict_stale(before.values(), before.changed_keys(), before.temporary_keys()),
    ensures
        before.temporary_keys().contains(key) && !before.changed_keys().contains(key) ==> !after.values().contains_key(key),
        before.changed_keys().contains(key) && before.values().contains_key(key) ==> after.values().contains_key(key) && after.values()[key] == before.values()[key],
{
}

} // verus!

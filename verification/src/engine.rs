//! The engine-side state of the bridge: the heap of script objects, the
//! installed classes, and the registry mapping native type identities to
//! their installed class.

use vstd::prelude::*;

use crate::descriptor::{ClassDescriptor, FunctionSpecEntry, PropertySpecEntry};
use crate::error::{missing_private_message, Error};

verus! {

/// The handles to a registered class: its constructor object and its
/// prototype object, both indices into the engine's heap.
#[derive(Debug, Clone, Copy, PartialEq, Eq, Structural)]
pub struct ClassInfo {
    pub constructor: usize,
    pub prototype: usize,
}

/// One installed class: its name, its parent class (an earlier entry of the
/// class table, forming a single-inheritance chain), its handles, and the
/// descriptor tables installed with it.
#[derive(Debug)]
pub struct ClassRecord {
    pub name: String,
    pub parent: Option<usize>,
    pub info: ClassInfo,
    pub functions: Vec<FunctionSpecEntry>,
    pub properties: Vec<PropertySpecEntry>,
    pub static_functions: Vec<FunctionSpecEntry>,
    pub static_properties: Vec<PropertySpecEntry>,
}

/// A script object's private slot: it either holds a host value, or is
/// empty because a value was reclaimed or never attached.
#[derive(Debug)]
pub enum Slot<V> {
    Attached(V),
    Detached,
}

/// One object of the engine heap: its class (if it was built from an
/// installed class), its prototype link, and its private slot.
#[derive(Debug)]
pub struct ScriptObject<V> {
    pub class: Option<usize>,
    pub proto: Option<usize>,
    pub slot: Slot<V>,
}

/// A single-threaded engine context: the heap of script objects, the table
/// of installed classes, and the registry mapping a native type identity to
/// the class installed for it.
#[derive(Debug)]
pub struct Engine<V> {
    pub classes: Vec<ClassRecord>,
    pub objects: Vec<ScriptObject<V>>,
    pub registry: Vec<(u64, usize)>,
}

impl<V> Engine<V> {
    /// Class-table entry `i` is internally consistent: its parent stands
    /// earlier in the table, and its handles point into the heap.
    pub open spec fn class_wf(self, i: int) -> bool {
        &&& (self.classes@[i].parent matches Some(p) ==> p < i)
        &&& self.classes@[i].info.prototype < self.objects@.len()
        &&& self.classes@[i].info.constructor < self.objects@.len()
    }

    /// Heap object `i` is internally consistent: its class is an installed
    /// class and its prototype link points into the heap.
    pub open spec fn object_wf(self, i: int) -> bool {
        &&& (self.objects@[i].class matches Some(c) ==> c < self.classes@.len())
        &&& (self.objects@[i].proto matches Some(p) ==> p < self.objects@.len())
    }

    /// The engine is well formed: every class and object is consistent, and
    /// the registry holds each type identity at most once, pointing at an
    /// installed class.
    pub open spec fn wf(self) -> bool {
        &&& forall|i: int| 0 <= i < self.classes@.len() ==> #[trigger] self.class_wf(i)
        &&& forall|i: int| 0 <= i < self.objects@.len() ==> #[trigger] self.object_wf(i)
        &&& forall|i: int, j: int|
            0 <= i < j < self.registry@.len() ==> self.registry@[i].0 != self.registry@[j].0
        &&& forall|i: int|
            0 <= i < self.registry@.len() ==> (#[trigger] self.registry@[i]).1 < self.classes@.len()
    }

    /// The registry holds an entry for this type identity.
    pub open spec fn reg_has(self, key: u64) -> bool {
        exists|i: int| 0 <= i < self.registry@.len() && (#[trigger] self.registry@[i]).0 == key
    }

    /// The class-table index registered for this type identity.
    pub open spec fn reg_class_idx(self, key: u64) -> int
        recommends
            self.reg_has(key),
    {
        let i = choose|i: int| 0 <= i < self.registry@.len() && (#[trigger] self.registry@[i]).0 == key;
        self.registry@[i].1 as int
    }

    /// What a registry lookup returns: the installed class's handles, or
    /// nothing when the type identity was never registered.
    pub open spec fn spec_lookup(self, key: u64) -> Option<ClassInfo> {
        if self.reg_has(key) {
            Some(self.classes@[self.reg_class_idx(key)].info)
        } else {
            None
        }
    }

    /// Class `a` stands on the single-inheritance chain of class `c`
    /// (reflexively: every class is an ancestor of itself).
    pub open spec fn is_ancestor(self, c: int, a: int) -> bool
        decreases c,
    {
        if c == a {
            true
        } else if 0 <= c && c < self.classes@.len() {
            match self.classes@[c].parent {
                Some(p) => p < c && self.is_ancestor(p as int, a),
                None => false,
            }
        } else {
            false
        }
    }

    /// Heap object `id` is an instance of the class registered for `key`:
    /// it was built from a class on whose single-inheritance chain the
    /// registered class stands.
    pub open spec fn spec_instance_of(self, id: int, key: u64) -> bool {
        &&& self.reg_has(key)
        &&& self.objects@[id].class matches Some(c) && self.is_ancestor(
            c as int,
            self.reg_class_idx(key),
        )
    }

    /// The name of the class registered for `key`.
    pub open spec fn reg_class_name(self, key: u64) -> Seq<char>
        recommends
            self.reg_has(key),
    {
        self.classes@[self.reg_class_idx(key)].name@
    }

    /// Builds a fresh engine context with an empty heap and no classes.
    pub fn new() -> (e: Engine<V>)
        ensures
            e.wf(),
            e.classes@ == Seq::<ClassRecord>::empty(),
            e.objects@ == Seq::<ScriptObject<V>>::empty(),
            e.registry@ == Seq::<(u64, usize)>::empty(),
    {
        Engine { classes: Vec::new(), objects: Vec::new(), registry: Vec::new() }
    }

    /// Looks up the class registered for a type identity. Never mutates and
    /// never fails: a miss is reported as `None`.
    pub fn lookup(&self, key: u64) -> (r: Option<ClassInfo>)
        requires
            self.wf(),
        ensures
            r == self.spec_lookup(key),
    {
        match self.find_class_index(key) {
            Some(c) => Some(self.classes[c].info),
            None => None,
        }
    }

    /// Finds the class-table index registered for a type identity.
    pub(crate) fn find_class_index(&self, key: u64) -> (r: Option<usize>)
        requires
            self.wf(),
        ensures
            r matches Some(c) ==> self.reg_has(key) && c as int == self.reg_class_idx(key)
                && c < self.classes@.len(),
            r is None ==> !self.reg_has(key),
    {
        let n = self.registry.len();
        let mut i: usize = 0;
        while i < n
            invariant
                self.wf(),
                n == self.registry@.len(),
                0 <= i <= n,
                forall|j: int| 0 <= j < i ==> (#[trigger] self.registry@[j]).0 != key,
            decreases n - i,
        {
            if self.registry[i].0 == key {
                let c = self.registry[i].1;
                assert(self.reg_has(key));
                assert(self.reg_class_idx(key) == c as int) by {
                    let w = choose|w: int|
                        0 <= w < self.registry@.len() && (#[trigger] self.registry@[w]).0 == key;
                    assert(self.registry@[w].0 == key);
                    assert(w == i as int);
                }
                return Some(c);
            }
            i = i + 1;
        }
        None
    }

    /// Installs a class for the descriptor's native type identity: resolves
    /// the parent class (or makes a fresh empty root prototype), allocates
    /// the class's prototype and constructor objects, records the descriptor
    /// tables, and binds the type identity to the new class in the registry.
    ///
    /// Registering the same type identity again installs a second,
    /// independent class and silently rebinds the registry entry to it; the
    /// earlier class's objects stay in the heap.
    pub fn register(&mut self, desc: ClassDescriptor) -> (info: ClassInfo)
        requires
            old(self).wf(),
            desc.parent matches Some(pk) ==> old(self).reg_has(pk),
        ensures
            final(self).wf(),
            // the registry now binds the descriptor's type identity to the
            // new class, and no other binding moved
            final(self).reg_has(desc.type_key),
            final(self).reg_class_idx(desc.type_key) == old(self).classes@.len(),
            final(self).spec_lookup(desc.type_key) == Some(info),
            forall|k: u64|
                k != desc.type_key ==> final(self).reg_has(k) == old(self).reg_has(k) && (old(self).reg_has(k) ==> final(self).reg_class_idx(k) == old(self).reg_class_idx(k)),
            forall|k: u64|
                k != desc.type_key ==> final(self).spec_lookup(k) == old(self).spec_lookup(k),
            // exactly one class is appended, carrying the descriptor's name,
            // tables, resolved parent, and the returned handles
            final(self).classes@ == old(self).classes@.push(ClassRecord {
                name: desc.name,
                parent: (match desc.parent {
                    Some(pk) => Some(old(self).reg_class_idx(pk) as usize),
                    None => None,
                }),
                info,
                functions: desc.functions,
                properties: desc.properties,
                static_functions: desc.static_functions,
                static_properties: desc.static_properties,
            }),
            // the heap grows by fresh objects only; every existing object,
            // its slot included, is untouched
            old(self).objects@.len() <= final(self).objects@.len(),
            forall|i: int|
                0 <= i < old(self).objects@.len() ==> final(self).objects@[i] == old(self).objects@[i],
            forall|i: int|
                old(self).objects@.len() <= i < final(self).objects@.len() ==> final(self).objects@[i].slot is Detached,
            // the returned handles are fresh objects: the class's prototype,
            // linked to the parent's prototype, and its constructor
            old(self).objects@.len() <= info.prototype < final(self).objects@.len(),
            old(self).objects@.len() <= info.constructor < final(self).objects@.len(),
            final(self).objects@[info.prototype as int].class == Some(
                old(self).classes@.len() as usize,
            ),
            desc.parent matches Some(pk) ==> final(self).objects@[info.prototype as int].proto
                == Some(old(self).classes@[old(self).reg_class_idx(pk)].info.prototype),
            // the new class extends its parent, and the ancestry of every
            // existing class is unchanged
            desc.parent matches Some(pk) ==> final(self).is_ancestor(
                old(self).classes@.len() as int,
                old(self).reg_class_idx(pk),
            ),
            forall|c: int, a: int|
                0 <= c < old(self).classes@.len() ==> final(self).is_ancestor(c, a) == old(self).is_ancestor(c, a),
            final(self).registry@.len() <= old(self).registry@.len() + 1,
    {
        let ghost pre = *self;
        // resolve the parent prototype; a class without a parent hangs off a
        // fresh empty root object
        let (parent_class, parent_proto): (Option<usize>, usize) = match desc.parent {
            Some(pk) => {
                let idx = match self.find_class_index(pk) {
                    Some(idx) => idx,
                    None => vstd::pervasive::unreached(),
                };
                proof {
                    assert(pre.class_wf(idx as int));
                }
                (Some(idx), self.classes[idx].info.prototype)
            },
            None => {
                let root = self.objects.len();
                self.objects.push(ScriptObject { class: None, proto: None, slot: Slot::Detached });
                (None, root)
            },
        };
        let new_class_idx = self.classes.len();
        // allocate the class's prototype object against the parent prototype
        let proto_id = self.objects.len();
        self.objects.push(
            ScriptObject { class: Some(new_class_idx), proto: Some(parent_proto), slot: Slot::Detached },
        );
        // allocate the constructor object
        let ctor_id = self.objects.len();
        self.objects.push(ScriptObject { class: None, proto: None, slot: Slot::Detached });
        let info = ClassInfo { constructor: ctor_id, prototype: proto_id };
        self.classes.push(
            ClassRecord {
                name: desc.name,
                parent: parent_class,
                info,
                functions: desc.functions,
                properties: desc.properties,
                static_functions: desc.static_functions,
                static_properties: desc.static_properties,
            },
        );
        // bind the type identity, rebinding silently if it was already bound
        let ghost mid = *self;
        let key = desc.type_key;
        match self.registry_position(key) {
            Some(i) => {
                self.registry[i] = (key, new_class_idx);
                proof {
                    let r = self.registry@;
                    let r0 = pre.registry@;
                    assert(mid.registry@ == r0);
                    assert(r =~= r0.update(i as int, (key, new_class_idx)));
                    // the keys are unchanged entry for entry, so every lookup
                    // finds the same position as before
                    assert(forall|j: int| 0 <= j < r.len() ==> (#[trigger] r[j]).0 == r0[j].0);
                    assert(self.reg_has(key)) by {
                        assert(r[i as int].0 == key);
                    }
                    assert(self.reg_class_idx(key) == new_class_idx) by {
                        let w = choose|w: int| 0 <= w < r.len() && (#[trigger] r[w]).0 == key;
                        assert(r0[w].0 == key);
                        assert(r0[i as int].0 == key);
                        assert(w == i as int);
                    }
                    assert forall|k: u64| k != key implies self.reg_has(k) == pre.reg_has(k) && (
                    pre.reg_has(k) ==> self.reg_class_idx(k) == pre.reg_class_idx(k)) by {
                        if pre.reg_has(k) {
                            let w0 = choose|w: int|
                                0 <= w < r0.len() && (#[trigger] r0[w]).0 == k;
                            assert(r[w0].0 == k);
                            assert(self.reg_has(k));
                            let w1 = choose|w: int| 0 <= w < r.len() && (#[trigger] r[w]).0 == k;
                            assert(r0[w1].0 == k);
                            assert(w1 == w0);
                            assert(w1 != i as int);
                        }
                        if self.reg_has(k) {
                            let w1 = choose|w: int| 0 <= w < r.len() && (#[trigger] r[w]).0 == k;
                            assert(r0[w1].0 == k);
                            assert(pre.reg_has(k));
                        }
                    }
                    assert forall|a: int, b: int| 0 <= a < b < r.len() implies r[a].0 != r[b].0 by {
                        assert(r0[a].0 != r0[b].0);
                    }
                    assert forall|j: int| 0 <= j < r.len() implies (#[trigger] r[j]).1
                        < self.classes@.len() by {
                        if j != i as int {
                            assert((#[trigger] r0[j]).1 < pre.classes@.len());
                        }
                    }
                }
            },
            None => {
                self.registry.push((key, new_class_idx));
                proof {
                    let r = self.registry@;
                    let r0 = pre.registry@;
                    let last = r.len() - 1;
                    assert(r =~= r0.push((key, new_class_idx)));
                    assert(!pre.reg_has(key));
                    assert(forall|j: int| 0 <= j < r0.len() ==> (#[trigger] r0[j]).0 != key);
                    assert(self.reg_has(key)) by {
                        assert(r[last].0 == key);
                    }
                    assert(self.reg_class_idx(key) == new_class_idx) by {
                        let w = choose|w: int| 0 <= w < r.len() && (#[trigger] r[w]).0 == key;
                        assert(w == last);
                    }
                    assert forall|k: u64| k != key implies self.reg_has(k) == pre.reg_has(k) && (
                    pre.reg_has(k) ==> self.reg_class_idx(k) == pre.reg_class_idx(k)) by {
                        if pre.reg_has(k) {
                            let w0 = choose|w: int|
                                0 <= w < r0.len() && (#[trigger] r0[w]).0 == k;
                            assert(r[w0].0 == k);
                            assert(self.reg_has(k));
                            let w1 = choose|w: int| 0 <= w < r.len() && (#[trigger] r[w]).0 == k;
                            assert(w1 != last);
                            assert(r0[w1].0 == k);
                            assert(w1 == w0);
                        }
                        if self.reg_has(k) {
                            let w1 = choose|w: int| 0 <= w < r.len() && (#[trigger] r[w]).0 == k;
                            assert(w1 != last);
                            assert(r0[w1].0 == k);
                            assert(pre.reg_has(k));
                        }
                    }
                    assert forall|a: int, b: int| 0 <= a < b < r.len() implies r[a].0 != r[b].0 by {
                        if b < last {
                            assert(r0[a].0 != r0[b].0);
                        } else {
                            assert(r0[a].0 != key);
                        }
                    }
                    assert forall|j: int| 0 <= j < r.len() implies (#[trigger] r[j]).1
                        < self.classes@.len() by {
                        if j < last {
                            assert((#[trigger] r0[j]).1 < pre.classes@.len());
                        }
                    }
                }
            },
        }
        proof {
            // the grown class table and heap stay well formed
            assert forall|j: int| 0 <= j < self.classes@.len() implies self.class_wf(j) by {
                if j < pre.classes@.len() {
                    assert(pre.class_wf(j));
                }
            }
            assert forall|j: int| 0 <= j < self.objects@.len() implies self.object_wf(j) by {
                if j < pre.objects@.len() {
                    assert(pre.object_wf(j));
                }
            }
            assert forall|c: int, a: int| 0 <= c < pre.classes@.len() implies self.is_ancestor(
                c,
                a,
            ) == pre.is_ancestor(c, a) by {
                lemma_is_ancestor_grows(pre, *self, c, a);
            }
            if desc.parent is Some {
                let pidx = pre.reg_class_idx(desc.parent->0);
                assert(self.is_ancestor(pidx, pidx));
                assert(self.is_ancestor(new_class_idx as int, pidx));
            }
        }
        info
    }

    /// Allocates a new script object of the class registered for `key`,
    /// linked to that class's prototype, and attaches the host value to the
    /// object's private slot. Ownership of the value moves into the heap.
    ///
    /// The class must have been registered: a miss is a broken setup
    /// invariant, not a recoverable condition.
    pub fn create(&mut self, key: u64, value: V) -> (id: usize)
        requires
            old(self).wf(),
            old(self).reg_has(key),
        ensures
            final(self).wf(),
            id == old(self).objects@.len(),
            // one object is appended: an instance of the registered class,
            // hanging off its prototype, with the value attached
            final(self).objects@ == old(self).objects@.push(ScriptObject {
                class: Some(old(self).reg_class_idx(key) as usize),
                proto: Some(old(self).classes@[old(self).reg_class_idx(key)].info.prototype),
                slot: Slot::Attached(value),
            }),
            final(self).spec_instance_of(id as int, key),
            // classes and registrations are untouched
            final(self).classes@ == old(self).classes@,
            final(self).registry@ == old(self).registry@,
            forall|k: u64| final(self).reg_has(k) == old(self).reg_has(k),
            forall|k: u64|
                old(self).reg_has(k) ==> final(self).reg_class_idx(k) == old(self).reg_class_idx(k),
            forall|k: u64| final(self).spec_lookup(k) == old(self).spec_lookup(k),
            forall|c: int, a: int| final(self).is_ancestor(c, a) == old(self).is_ancestor(c, a),
    {
        let ghost pre = *self;
        let idx = match self.find_class_index(key) {
            Some(idx) => idx,
            None => vstd::pervasive::unreached(),
        };
        proof {
            assert(pre.class_wf(idx as int));
        }
        let proto = self.classes[idx].info.prototype;
        let id = self.objects.len();
        self.objects.push(
            ScriptObject { class: Some(idx), proto: Some(proto), slot: Slot::Attached(value) },
        );
        proof {
            assert forall|j: int| 0 <= j < self.classes@.len() implies self.class_wf(j) by {
                assert(pre.class_wf(j));
            }
            assert forall|j: int| 0 <= j < self.objects@.len() implies self.object_wf(j) by {
                if j < pre.objects@.len() {
                    assert(pre.object_wf(j));
                }
            }
            assert forall|c: int, a: int| final(self).is_ancestor(c, a) == pre.is_ancestor(
                c,
                a,
            ) by {
                if 0 <= c < pre.classes@.len() {
                    lemma_is_ancestor_grows(pre, *self, c, a);
                }
            }
            assert forall|k: u64|
                final(self).reg_has(k) == pre.reg_has(k) && (pre.reg_has(k) ==> final(self).reg_class_idx(k) == pre.reg_class_idx(k)) by {
                lemma_registry_congruent(pre, *self, k);
            }
            assert(self.is_ancestor(idx as int, idx as int));
        }
        id
    }

    /// Lends the host value attached to an instance's private slot, without
    /// moving ownership out of the heap. An empty slot is reported as the
    /// "missing" error naming the expected class.
    pub fn borrow(&self, id: usize, key: u64) -> (r: Result<&V, Error>)
        requires
            self.wf(),
            id < self.objects@.len(),
            self.spec_instance_of(id as int, key),
        ensures
            self.objects@[id as int].slot matches Slot::Attached(v) ==> (r matches Ok(b) && *b
                == v),
            self.objects@[id as int].slot is Detached ==> (r matches Err(e) && e.message@
                == missing_private_message(self.reg_class_name(key))),
    {
        let idx = match self.find_class_index(key) {
            Some(idx) => idx,
            None => vstd::pervasive::unreached(),
        };
        match &self.objects[id].slot {
            Slot::Attached(v) => Ok(v),
            Slot::Detached => Err(Error::missing_private(&self.classes[idx].name)),
        }
    }

    /// Lends the host value attached to an instance's private slot for
    /// mutation, without moving ownership out of the heap. The slot must
    /// still hold a value; everything else in the engine stays as it was.
    /// [`lemma_slot_update_preserves_wf`] restores the engine's
    /// well-formedness once the lent reference is given back.
    pub fn borrow_mut(&mut self, id: usize, key: u64) -> (b: &mut V)
        requires
            old(self).wf(),
            id < old(self).objects@.len(),
            old(self).spec_instance_of(id as int, key),
            old(self).objects@[id as int].slot is Attached,
        ensures
            *b == old(self).objects@[id as int].slot->Attached_0,
            final(self).objects@ == old(self).objects@.update(id as int, ScriptObject {
                class: old(self).objects@[id as int].class,
                proto: old(self).objects@[id as int].proto,
                slot: Slot::Attached(*final(b)),
            }),
            final(self).classes@ == old(self).classes@,
            final(self).registry@ == old(self).registry@,
    {
        match &mut self.objects[id].slot {
            Slot::Attached(v) => v,
            Slot::Detached => vstd::pervasive::unreached(),
        }
    }

    /// Reclaims the host value out of an instance's private slot, moving
    /// ownership back to the caller and leaving the slot empty. At most one
    /// reclaim can ever succeed on an object: afterwards the slot stays
    /// empty and the "missing" error is reported, naming the expected class.
    pub fn take(&mut self, id: usize, key: u64) -> (r: Result<Box<V>, Error>)
        requires
            old(self).wf(),
            id < old(self).objects@.len(),
            old(self).spec_instance_of(id as int, key),
        ensures
            final(self).wf(),
            // a still-attached value is handed back and the slot is emptied
            old(self).objects@[id as int].slot matches Slot::Attached(v) ==> (r matches Ok(b)
                && *b == v && final(self).objects@ == old(self).objects@.update(
                id as int,
                ScriptObject {
                    class: old(self).objects@[id as int].class,
                    proto: old(self).objects@[id as int].proto,
                    slot: Slot::Detached,
                },
            )),
            // an already-empty slot is reported, and nothing changes
            old(self).objects@[id as int].slot is Detached ==> (r matches Err(e) && e.message@
                == missing_private_message(old(self).reg_class_name(key)) && final(self).objects@
                == old(self).objects@),
            final(self).classes@ == old(self).classes@,
            final(self).registry@ == old(self).registry@,
            forall|k: u64| final(self).reg_has(k) == old(self).reg_has(k),
            forall|k: u64|
                old(self).reg_has(k) ==> final(self).reg_class_idx(k) == old(self).reg_class_idx(k),
            forall|k: u64| final(self).spec_lookup(k) == old(self).spec_lookup(k),
            forall|c: int, a: int| final(self).is_ancestor(c, a) == old(self).is_ancestor(c, a),
    {
        let ghost pre = *self;
        let idx = match self.find_class_index(key) {
            Some(idx) => idx,
            None => vstd::pervasive::unreached(),
        };
        let mut taken = Slot::Detached;
        core::mem::swap(&mut self.objects[id].slot, &mut taken);
        proof {
            assert forall|j: int| 0 <= j < final(self).classes@.len() implies final(self).class_wf(j) by {
                assert(pre.class_wf(j));
            }
            assert forall|j: int| 0 <= j < final(self).objects@.len() implies final(self).object_wf(j) by {
                assert(pre.object_wf(j));
            }
            assert forall|k: u64|
                self.reg_has(k) == pre.reg_has(k) && (pre.reg_has(k) ==> self.reg_class_idx(k)
                    == pre.reg_class_idx(k)) by {
                lemma_registry_congruent(pre, *self, k);
            }
            assert forall|c: int, a: int| self.is_ancestor(c, a) == pre.is_ancestor(c, a) by {
                if 0 <= c < pre.classes@.len() {
                    lemma_is_ancestor_grows(pre, *self, c, a);
                }
            }
        }
        match taken {
            Slot::Attached(v) => Ok(Box::new(v)),
            Slot::Detached => {
                proof {
                    assert(self.objects@ =~= pre.objects@);
                }
                Err(Error::missing_private(&self.classes[idx].name))
            },
        }
    }

    /// Answers whether a heap object is an instance of the class registered
    /// for `key`, honouring the single-inheritance chain established at
    /// registration: an instance of a subclass is an instance of each
    /// ancestor. An unregistered key matches nothing.
    pub fn instance_of(&self, id: usize, key: u64) -> (r: bool)
        requires
            self.wf(),
            id < self.objects@.len(),
        ensures
            r == self.spec_instance_of(id as int, key),
    {
        let target = match self.find_class_index(key) {
            Some(idx) => idx,
            None => {
                return false;
            },
        };
        match self.objects[id].class {
            Some(c) => {
                proof {
                    assert(self.object_wf(id as int));
                }
                self.class_extends(c, target)
            },
            None => false,
        }
    }

    /// Walks the single-inheritance chain upward from class `c`, checking
    /// whether class `target` stands on it.
    fn class_extends(&self, c: usize, target: usize) -> (r: bool)
        requires
            self.wf(),
            c < self.classes@.len(),
        ensures
            r == self.is_ancestor(c as int, target as int),
        decreases c,
    {
        if c == target {
            return true;
        }
        proof {
            assert(self.class_wf(c as int));
        }
        match self.classes[c].parent {
            Some(p) => self.class_extends(p, target),
            None => false,
        }
    }

    /// Finds the registry position holding a type identity, if any.
    fn registry_position(&self, key: u64) -> (r: Option<usize>)
        ensures
            r matches Some(i) ==> i < self.registry@.len() && self.registry@[i as int].0 == key,
            r is None ==> !self.reg_has(key),
    {
        let n = self.registry.len();
        let mut i: usize = 0;
        while i < n
            invariant
                n == self.registry@.len(),
                0 <= i <= n,
                forall|j: int| 0 <= j < i ==> (#[trigger] self.registry@[j]).0 != key,
            decreases n - i,
        {
            if self.registry[i].0 == key {
                return Some(i);
            }
            i = i + 1;
        }
        None
    }
}

/// A registry answer is a function of the registry table alone: two engines
/// holding the same table (one of them well formed, so that each type
/// identity is bound at most once) agree on where every type identity is
/// bound.
pub proof fn lemma_registry_congruent<V>(e1: Engine<V>, e2: Engine<V>, key: u64)
    requires
        e1.wf(),
        e1.registry@ == e2.registry@,
    ensures
        e1.reg_has(key) == e2.reg_has(key),
        e1.reg_has(key) ==> e1.reg_class_idx(key) == e2.reg_class_idx(key),
{
    if e1.reg_has(key) {
        let w1 = choose|i: int| 0 <= i < e1.registry@.len() && (#[trigger] e1.registry@[i]).0 == key;
        assert(e2.registry@[w1].0 == key);
        assert(e2.reg_has(key));
        let w2 = choose|i: int| 0 <= i < e2.registry@.len() && (#[trigger] e2.registry@[i]).0 == key;
        assert(e1.registry@[w2].0 == key);
        assert(w1 == w2);
    } else {
        if e2.reg_has(key) {
            let w2 = choose|i: int|
                0 <= i < e2.registry@.len() && (#[trigger] e2.registry@[i]).0 == key;
            assert(e1.registry@[w2].0 == key);
        }
    }
}

/// Rewriting one object's private slot, leaving its class and prototype
/// link as they were, keeps the engine well formed. This restores the
/// engine's validity after a slot was mutated through a lent reference.
pub proof fn lemma_slot_update_preserves_wf<V>(pre: Engine<V>, post: Engine<V>, id: int, s: Slot<V>)
    requires
        pre.wf(),
        0 <= id < pre.objects@.len(),
        post.classes@ == pre.classes@,
        post.registry@ == pre.registry@,
        post.objects@ == pre.objects@.update(id, ScriptObject {
            class: pre.objects@[id].class,
            proto: pre.objects@[id].proto,
            slot: s,
        }),
    ensures
        post.wf(),
{
    assert forall|j: int| 0 <= j < post.classes@.len() implies post.class_wf(j) by {
        assert(pre.class_wf(j));
    }
    assert forall|j: int| 0 <= j < post.objects@.len() implies post.object_wf(j) by {
        assert(pre.object_wf(j));
    }
}

/// Ancestry only reads the class table up to the starting class, so growing
/// the class table (or changing anything else of the engine) leaves the
/// ancestry of the existing classes as it was.
pub proof fn lemma_is_ancestor_grows<V>(pre: Engine<V>, post: Engine<V>, c: int, a: int)
    requires
        pre.classes@.len() <= post.classes@.len(),
        forall|i: int| 0 <= i < pre.classes@.len() ==> post.classes@[i] == pre.classes@[i],
        0 <= c < pre.classes@.len(),
    ensures
        post.is_ancestor(c, a) == pre.is_ancestor(c, a),
    decreases c,
{
    if c != a {
        match pre.classes@[c].parent {
            Some(p) => {
                if p < c {
                    lemma_is_ancestor_grows(pre, post, p as int, a);
                }
            },
            None => {},
        }
    }
}

} // verus!

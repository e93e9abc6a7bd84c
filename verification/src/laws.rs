//! The bridge's laws: properties relating several operations, stated over
//! the same spec functions the operations' contracts use.

use vstd::prelude::*;

use crate::engine::{
    lemma_is_ancestor_grows, lemma_registry_congruent, Engine, ScriptObject, Slot,
};

verus! {

/// Referential stability of `lookup`: its answer is a function of the
/// registry and the class table alone. Every object operation (`create`,
/// `borrow`, `take`, `instance_of`, `from_script_value`) leaves both as
/// they were — their contracts say so — hence after a type is registered,
/// `lookup` returns the same class info on every later call.
pub proof fn lemma_lookup_stable<V>(e1: Engine<V>, e2: Engine<V>, key: u64)
    requires
        e1.wf(),
        e1.registry@ == e2.registry@,
        e1.classes@ == e2.classes@,
    ensures
        e1.spec_lookup(key) == e2.spec_lookup(key),
{
    lemma_registry_congruent(e1, e2, key);
}

/// Round trip: `create` appends an object whose private slot holds exactly
/// the given value, so the slot of the fresh object is `Attached(v)` — and
/// `take` on a slot that holds a value hands that very value back, by its
/// contract. Together: `take(create(v))` returns `v`.
pub proof fn lemma_create_take_roundtrip<V>(e: Engine<V>, post: Engine<V>, key: u64, v: V, id: int)
    requires
        e.wf(),
        e.reg_has(key),
        // what `create` ensures of the engine it leaves behind
        id == e.objects@.len(),
        post.objects@ == e.objects@.push(ScriptObject {
            class: Some(e.reg_class_idx(key) as usize),
            proto: Some(e.classes@[e.reg_class_idx(key)].info.prototype),
            slot: Slot::Attached(v),
        }),
    ensures
        post.objects@[id].slot == Slot::Attached(v),
{
}

/// At-most-once reclaim: a successful `take` leaves the slot `Detached`.
/// On a `Detached` slot, the contracts of `take` and `borrow` allow only
/// the "missing" error naming the class — never old data — so a second
/// `take`, and any later `borrow`, must fail.
pub proof fn lemma_reclaim_at_most_once<V>(pre: Engine<V>, post: Engine<V>, id: int)
    requires
        0 <= id < pre.objects@.len(),
        // what `take` ensures of a successful reclaim
        post.objects@ == pre.objects@.update(id, ScriptObject {
            class: pre.objects@[id].class,
            proto: pre.objects@[id].proto,
            slot: Slot::Detached,
        }),
    ensures
        post.objects@[id].slot is Detached,
        !(post.objects@[id].slot is Attached),
{
}

/// Ancestry is transitive along the single-inheritance chain.
pub proof fn lemma_is_ancestor_transitive<V>(e: Engine<V>, c: int, m: int, a: int)
    requires
        e.is_ancestor(c, m),
        e.is_ancestor(m, a),
    ensures
        e.is_ancestor(c, a),
    decreases c,
{
    if c != m {
        match e.classes@[c].parent {
            Some(p) => {
                lemma_is_ancestor_transitive(e, p as int, m, a);
            },
            None => {},
        }
    }
}

/// Chain transitivity of `instance_of`: an object freshly created from the
/// class registered for `sub` is an instance of the class registered for
/// `sup` whenever the latter stands on the former's inheritance chain —
/// as `register` establishes for each declared parent.
pub proof fn lemma_instance_of_ancestor<V>(
    e: Engine<V>,
    post: Engine<V>,
    sub: u64,
    sup: u64,
    v: V,
    id: int,
)
    requires
        e.wf(),
        e.reg_has(sub),
        e.reg_has(sup),
        e.is_ancestor(e.reg_class_idx(sub), e.reg_class_idx(sup)),
        // what `create` ensures of the engine it leaves behind
        id == e.objects@.len(),
        post.objects@ == e.objects@.push(ScriptObject {
            class: Some(e.reg_class_idx(sub) as usize),
            proto: Some(e.classes@[e.reg_class_idx(sub)].info.prototype),
            slot: Slot::Attached(v),
        }),
        post.classes@ == e.classes@,
        post.registry@ == e.registry@,
    ensures
        post.spec_instance_of(id, sup),
{
    lemma_registry_congruent(e, post, sub);
    lemma_registry_congruent(e, post, sup);
    let c = e.reg_class_idx(sub);
    let a = e.reg_class_idx(sup);
    if c == a {
        assert(post.is_ancestor(c, a));
    } else {
        assert(0 <= c < e.classes@.len());
        lemma_is_ancestor_grows(e, post, c, a);
    }
}

} // verus!

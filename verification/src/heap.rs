//! The heap arena and the internal methods that traverse prototype links:
//! `HasProperty`, `Get` and `SetPrototypeOf`.
//!
//! Object records reference each other by arena index, so the operations
//! that follow prototype links live here.  The arena maintains the
//! structural invariant [`heap_wf`]: every record is well formed and every
//! prototype chain is finite and acyclic — stated as chain [`depth`]
//! reaching a terminal value within fuel `len`.  `SetPrototypeOf` is the
//! only operation that rewires a link; its cycle guard walks the candidate
//! chain and rejects any link that would route a chain back into the object
//! being rewired, which is exactly what preserves the invariant.

use vstd::prelude::*;
use crate::chain::chain_contains;
use crate::chain::depth;
use crate::chain::lemma_compose;
use crate::chain::lemma_depth_bound;
use crate::chain::lemma_depth_le_fuel;
use crate::chain::lemma_depth_stable;
use crate::chain::lemma_extend_frame;
use crate::chain::lemma_proto_frame;
use crate::chain::lemma_update_frame;
use crate::object::ObjView;
use crate::object::Object;
use crate::object::delete_ok;
use crate::object::delete_post;
use crate::object::dop_ok;
use crate::object::dop_post;
use crate::object::needs_setter_call;
use crate::object::set_ok;
use crate::object::set_post;
use crate::property::Property;
use crate::property::PropertyKey;
use crate::property::ResidentDescriptor;
use crate::value::Value;
use crate::value::same_value;

verus! {

/// A value fit to stand as a prototype link in heap `s`: `null`, or a
/// reference to a resident object — never dangling.
pub open spec fn valid_link(s: Seq<ObjView>, v: Value) -> bool {
    match v {
        Value::Null => true,
        Value::Object(j) => (j as int) < s.len(),
        _ => false,
    }
}

/// The heap invariant: every record is well formed and every resident
/// prototype chain reaches its end within `len` links — prototype chains
/// are finite and acyclic.
pub open spec fn heap_wf(s: Seq<ObjView>) -> bool {
    forall|i: int|
        0 <= i < s.len() ==> (#[trigger] s[i]).wf() && depth(s, s[i].prototype, s.len()) >= 0
}

/// Whether the object at `i`, or any object on its prototype chain, owns a
/// property under `key`.
pub open spec fn spec_has_property(s: Seq<ObjView>, i: int, key: PropertyKey) -> bool {
    s[i].has_entry(key) || spec_has_property_link(s, s[i].prototype, key, s.len())
}

/// Inherited lookup along a chain: true as soon as a visited object owns an
/// entry under `key`; false at a terminal link.
pub open spec fn spec_has_property_link(
    s: Seq<ObjView>,
    link: Value,
    key: PropertyKey,
    fuel: nat,
) -> bool
    decreases fuel,
{
    match link {
        Value::Object(j) => fuel > 0 && (j as int) < s.len() && (s[j as int].has_entry(key)
            || spec_has_property_link(s, s[j as int].prototype, key, (fuel - 1) as nat)),
        _ => false,
    }
}

/// What `Get` on the object at `i` returns: the stored value of the first
/// data property under `key` found on the chain; the `undefined` sentinel
/// for an accessor property (invoking a getter is the evaluator's job) and
/// for a chain without the property.
pub open spec fn spec_get(s: Seq<ObjView>, i: int, key: PropertyKey) -> Value {
    match s[i].lookup(key) {
        Some(ResidentDescriptor::Data { value, .. }) => value,
        Some(ResidentDescriptor::Accessor { .. }) => Value::Undefined,
        None => spec_get_link(s, s[i].prototype, key, s.len()),
    }
}

/// Inherited `Get` along a chain.
pub open spec fn spec_get_link(s: Seq<ObjView>, link: Value, key: PropertyKey, fuel: nat) -> Value
    decreases fuel,
{
    match link {
        Value::Object(j) => if fuel == 0 || (j as int) >= s.len() {
            Value::Undefined
        } else {
            match s[j as int].lookup(key) {
                Some(ResidentDescriptor::Data { value, .. }) => value,
                Some(ResidentDescriptor::Accessor { .. }) => Value::Undefined,
                None => spec_get_link(s, s[j as int].prototype, key, (fuel - 1) as nat),
            }
        },
        _ => Value::Undefined,
    }
}

/// Whether `SetPrototypeOf(i, val)` succeeds: trivially when `val` is
/// already the prototype; otherwise the object must be extensible and the
/// chain from `val` must not pass through `i`.
pub open spec fn spo_ok(s: Seq<ObjView>, i: int, val: Value) -> bool {
    s[i].prototype == val || (s[i].extensible && !chain_contains(
        s,
        val,
        i,
        (s.len() + 1) as nat,
    ))
}

/// The heap after `SetPrototypeOf(i, val)`: the one prototype link replaced
/// on success, nothing at all on failure or on the trivial no-op.
pub open spec fn spo_post(s: Seq<ObjView>, i: int, val: Value) -> Seq<ObjView> {
    if s[i].prototype == val {
        s
    } else if s[i].extensible && !chain_contains(s, val, i, (s.len() + 1) as nat) {
        s.update(i, ObjView { prototype: val, ..s[i] })
    } else {
        s
    }
}

/// Replacing an object without touching its prototype link preserves the
/// heap invariant.
proof fn lemma_wf_after_object_update(s: Seq<ObjView>, i: int, o2: ObjView)
    requires
        heap_wf(s),
        0 <= i < s.len(),
        o2.wf(),
        o2.prototype == s[i].prototype,
    ensures
        heap_wf(s.update(i, o2)),
{
    let s2 = s.update(i, o2);
    assert forall|j: int| 0 <= j < s.len() implies (#[trigger] s2[j]).prototype
        == s[j].prototype by {}
    assert forall|x: int| 0 <= x < s2.len() implies (#[trigger] s2[x]).wf() && depth(
        s2,
        s2[x].prototype,
        s2.len(),
    ) >= 0 by {
        lemma_proto_frame(s, s2, s[x].prototype, s.len());
    }
}

/// The object graph: an arena of object records addressed by index.
/// Collection of unreachable records is a collaborator concern; this core
/// maintains the reachability structure the collector relies on, in
/// particular that prototype chains stay finite and acyclic.
pub struct Heap {
    objects: Vec<Object>,
}

impl View for Heap {
    type V = Seq<ObjView>;

    closed spec fn view(&self) -> Seq<ObjView> {
        self.objects@.map_values(|o: Object| o@)
    }
}

impl Heap {
    /// The heap invariant; see [`heap_wf`].
    pub open spec fn wf(self) -> bool {
        heap_wf(self@)
    }

    /// An empty arena.
    pub fn new() -> (r: Heap)
        ensures
            r@ == Seq::<ObjView>::empty(),
            r.wf(),
    {
        let r = Heap { objects: Vec::new() };
        proof {
            assert(r@ =~= Seq::<ObjView>::empty());
        }
        r
    }

    /// The number of resident objects.
    pub fn len(&self) -> (r: usize)
        ensures
            r == self@.len(),
    {
        proof {
            assert(self@.len() == self.objects@.len());
        }
        self.objects.len()
    }

    /// Create a fresh ordinary object: extensible, `null` prototype, empty
    /// tables.  Returns its handle.
    pub fn new_object(&mut self) -> (i: usize)
        requires
            old(self).wf(),
        ensures
            final(self).wf(),
            i as int == old(self)@.len(),
            final(self)@ == old(self)@.push(ObjView::empty()),
    {
        proof {
            assert(self@.len() == self.objects@.len());
        }
        let i = self.objects.len();
        self.objects.push(Object::new());
        proof {
            let s = old(self)@;
            let s2 = self@;
            assert(s2 =~= s.push(ObjView::empty()));
            assert forall|x: int| 0 <= x < s2.len() implies (#[trigger] s2[x]).wf() && depth(
                s2,
                s2[x].prototype,
                s2.len(),
            ) >= 0 by {
                if x < s.len() {
                    lemma_extend_frame(s, s2, s[x].prototype, s.len());
                    lemma_depth_le_fuel(s2, s2[x].prototype, s.len());
                    lemma_depth_stable(s2, s2[x].prototype, s.len(), s2.len());
                } else {
                    assert(s2[x].prototype == Value::Null);
                }
            }
        }
        i
    }

    /// Create a fresh object with an explicitly supplied prototype (an
    /// object reference or `null`).  Returns its handle.
    pub fn new_object_with_prototype(&mut self, proto: Value) -> (i: usize)
        requires
            old(self).wf(),
            valid_link(old(self)@, proto),
        ensures
            final(self).wf(),
            i as int == old(self)@.len(),
            final(self)@ == old(self)@.push(
                ObjView { prototype: proto, ..ObjView::empty() },
            ),
    {
        proof {
            assert(self@.len() == self.objects@.len());
        }
        let i = self.objects.len();
        let mut o = Object::new();
        o.set_prototype_raw(proto);
        self.objects.push(o);
        proof {
            let s = old(self)@;
            let s2 = self@;
            assert(s2 =~= s.push(ObjView { prototype: proto, ..ObjView::empty() }));
            assert forall|x: int| 0 <= x < s2.len() implies (#[trigger] s2[x]).wf() && depth(
                s2,
                s2[x].prototype,
                s2.len(),
            ) >= 0 by {
                if x < s.len() {
                    lemma_extend_frame(s, s2, s[x].prototype, s.len());
                    lemma_depth_le_fuel(s2, s2[x].prototype, s.len());
                    lemma_depth_stable(s2, s2[x].prototype, s.len(), s2.len());
                } else {
                    match proto {
                        Value::Object(c) => {
                            assert(depth(s, proto, (s.len() + 1) as nat) == 1 + depth(
                                s,
                                s[c as int].prototype,
                                s.len(),
                            ));
                            lemma_extend_frame(s, s2, proto, (s.len() + 1) as nat);
                            lemma_depth_le_fuel(s2, proto, (s.len() + 1) as nat);
                            lemma_depth_stable(s2, proto, (s.len() + 1) as nat, s2.len());
                        },
                        _ => {},
                    }
                }
            }
        }
        i
    }

    /// Determine whether new properties may be added to the object at `i`.
    pub fn is_extensible(&self, i: usize) -> (r: bool)
        requires
            self.wf(),
            (i as int) < self@.len(),
        ensures
            r == self@[i as int].extensible,
    {
        proof {
            assert(self@.len() == self.objects@.len());
            assert(self@[i as int] == self.objects@[i as int]@);
        }
        self.objects[i].is_extensible()
    }

    /// Forbid adding new own properties to the object at `i`, for good.
    /// Idempotent; always succeeds on an ordinary object.
    pub fn prevent_extensions(&mut self, i: usize) -> (r: bool)
        requires
            old(self).wf(),
            (i as int) < old(self)@.len(),
        ensures
            final(self).wf(),
            r,
            final(self)@ == old(self)@.update(
                i as int,
                ObjView { extensible: false, ..old(self)@[i as int] },
            ),
    {
        proof {
            assert(self@.len() == self.objects@.len());
            assert(self@[i as int] == self.objects@[i as int]@);
        }
        let mut obj = self.objects[i].clone();
        let r = obj.prevent_extensions();
        self.objects.set(i, obj);
        proof {
            let s = old(self)@;
            let post = ObjView { extensible: false, ..s[i as int] };
            assert(self@ =~= s.update(i as int, post));
            lemma_wf_after_object_update(s, i as int, post);
        }
        r
    }

    /// The prototype link of the object at `i`: an object reference or
    /// `null`; no side effects.
    pub fn get_prototype_of(&self, i: usize) -> (r: Value)
        requires
            self.wf(),
            (i as int) < self@.len(),
        ensures
            r == self@[i as int].prototype,
    {
        proof {
            assert(self@.len() == self.objects@.len());
            assert(self@[i as int] == self.objects@[i as int]@);
        }
        self.objects[i].get_prototype_of()
    }

    /// A defensive copy of the descriptor the object at `i` owns under
    /// `key`, if any; inherited properties are not consulted.
    pub fn get_own_property(&self, i: usize, key: &PropertyKey) -> (r: Option<Property>)
        requires
            self.wf(),
            (i as int) < self@.len(),
        ensures
            r == (match self@[i as int].lookup(*key) {
                Some(d) => Some(d.spec_to_property()),
                None => None::<Property>,
            }),
    {
        proof {
            assert(self@.len() == self.objects@.len());
            assert(self@[i as int] == self.objects@[i as int]@);
        }
        self.objects[i].get_own_property(key)
    }

    /// Define an own property on the object at `i`; see
    /// [`Object::define_own_property`].
    pub fn define_own_property(&mut self, i: usize, key: &PropertyKey, desc: Property) -> (r: bool)
        requires
            old(self).wf(),
            (i as int) < old(self)@.len(),
        ensures
            final(self).wf(),
            r == dop_ok(old(self)@[i as int], *key, desc),
            final(self)@ == old(self)@.update(
                i as int,
                dop_post(old(self)@[i as int], *key, desc),
            ),
    {
        proof {
            assert(self@.len() == self.objects@.len());
            assert(self@[i as int] == self.objects@[i as int]@);
        }
        let mut obj = self.objects[i].clone();
        let r = obj.define_own_property(key, desc);
        self.objects.set(i, obj);
        proof {
            let s = old(self)@;
            let post = dop_post(s[i as int], *key, desc);
            assert(self@ =~= s.update(i as int, post));
            assert(post.prototype == s[i as int].prototype);
            lemma_wf_after_object_update(s, i as int, post);
        }
        r
    }

    /// Delete the property of the object at `i` under `key`; see
    /// [`Object::delete`].
    pub fn delete(&mut self, i: usize, key: &PropertyKey) -> (r: bool)
        requires
            old(self).wf(),
            (i as int) < old(self)@.len(),
        ensures
            final(self).wf(),
            r == delete_ok(old(self)@[i as int], *key),
            final(self)@ == old(self)@.update(
                i as int,
                delete_post(old(self)@[i as int], *key),
            ),
    {
        proof {
            assert(self@.len() == self.objects@.len());
            assert(self@[i as int] == self.objects@[i as int]@);
        }
        let mut obj = self.objects[i].clone();
        let r = obj.delete(key);
        self.objects.set(i, obj);
        proof {
            let s = old(self)@;
            let post = delete_post(s[i as int], *key);
            assert(self@ =~= s.update(i as int, post));
            assert(post.prototype == s[i as int].prototype);
            lemma_wf_after_object_update(s, i as int, post);
        }
        r
    }

    /// Ordinary assignment to the object at `i`; see [`Object::set`].
    pub fn set(&mut self, i: usize, key: &PropertyKey, val: Value) -> (r: bool)
        requires
            old(self).wf(),
            (i as int) < old(self)@.len(),
            !needs_setter_call(old(self)@[i as int], *key),
        ensures
            final(self).wf(),
            r == set_ok(old(self)@[i as int], *key),
            final(self)@ == old(self)@.update(
                i as int,
                set_post(old(self)@[i as int], *key, val),
            ),
    {
        proof {
            assert(self@.len() == self.objects@.len());
            assert(self@[i as int] == self.objects@[i as int]@);
        }
        let mut obj = self.objects[i].clone();
        let r = obj.set(key, val);
        self.objects.set(i, obj);
        proof {
            let s = old(self)@;
            let post = set_post(s[i as int], *key, val);
            assert(self@ =~= s.update(i as int, post));
            assert(post.prototype == s[i as int].prototype);
            lemma_wf_after_object_update(s, i as int, post);
        }
        r
    }

    /// Whether the chain starting at `start` passes through object
    /// `target`.  The chain is finite by the heap invariant, so the walk
    /// terminates.
    fn proto_chain_contains(&self, start: Value, target: usize) -> (r: bool)
        requires
            self.wf(),
            depth(self@, start, (self@.len() + 1) as nat) >= 0,
        ensures
            r == chain_contains(self@, start, target as int, (self@.len() + 1) as nat),
    {
        let mut cur: Value = start;
        let ghost mut fuel: nat = (self@.len() + 1) as nat;
        loop
            invariant
                self.wf(),
                depth(self@, cur, fuel) >= 0,
                chain_contains(self@, start, target as int, (self@.len() + 1) as nat)
                    == chain_contains(self@, cur, target as int, fuel),
            decreases fuel,
        {
            match cur {
                Value::Object(j) => {
                    if j == target {
                        return true;
                    }
                    proof {
                        assert(self@.len() == self.objects@.len());
                        assert(self@[j as int] == self.objects@[j as int]@);
                    }
                    cur = self.objects[j].get_prototype_of();
                    proof {
                        fuel = (fuel - 1) as nat;
                    }
                },
                _ => {
                    return false;
                },
            }
        }
    }

    /// Inherited lookup along the chain from `start`.
    fn has_property_link(&self, start: Value, key: &PropertyKey) -> (r: bool)
        requires
            self.wf(),
            depth(self@, start, self@.len()) >= 0,
        ensures
            r == spec_has_property_link(self@, start, *key, self@.len()),
    {
        let mut cur: Value = start;
        let ghost mut fuel: nat = self@.len();
        loop
            invariant
                self.wf(),
                depth(self@, cur, fuel) >= 0,
                spec_has_property_link(self@, start, *key, self@.len())
                    == spec_has_property_link(self@, cur, *key, fuel),
            decreases fuel,
        {
            match cur {
                Value::Object(j) => {
                    proof {
                        assert(self@.len() == self.objects@.len());
                        assert(self@[j as int] == self.objects@[j as int]@);
                    }
                    if self.objects[j].lookup_resident(key).is_some() {
                        return true;
                    }
                    cur = self.objects[j].get_prototype_of();
                    proof {
                        fuel = (fuel - 1) as nat;
                    }
                },
                _ => {
                    return false;
                },
            }
        }
    }

    /// Whether the object at `i` has an own or inherited property under
    /// `key`.  The prototype chain is acyclic by the heap invariant, so the
    /// recursion over it always terminates.
    fn ordinary_has_property(&self, i: usize, key: &PropertyKey) -> (r: bool)
        requires
            self.wf(),
            (i as int) < self@.len(),
        ensures
            r == spec_has_property(self@, i as int, *key),
    {
        proof {
            assert(self@.len() == self.objects@.len());
            assert(self@[i as int] == self.objects@[i as int]@);
        }
        if self.objects[i].lookup_resident(key).is_some() {
            return true;
        }
        let start = self.objects[i].get_prototype_of();
        self.has_property_link(start, key)
    }

    /// Whether the object at `i` has an own or inherited property under
    /// `key`.
    pub fn has_property(&self, i: usize, key: &PropertyKey) -> (r: bool)
        requires
            self.wf(),
            (i as int) < self@.len(),
        ensures
            r == spec_has_property(self@, i as int, *key),
    {
        self.ordinary_has_property(i, key)
    }

    /// Inherited `Get` along the chain from `start`.
    fn get_link(&self, start: Value, key: &PropertyKey) -> (r: Value)
        requires
            self.wf(),
            depth(self@, start, self@.len()) >= 0,
        ensures
            r == spec_get_link(self@, start, *key, self@.len()),
    {
        let mut cur: Value = start;
        let ghost mut fuel: nat = self@.len();
        loop
            invariant
                self.wf(),
                depth(self@, cur, fuel) >= 0,
                spec_get_link(self@, start, *key, self@.len()) == spec_get_link(
                    self@,
                    cur,
                    *key,
                    fuel,
                ),
            decreases fuel,
        {
            match cur {
                Value::Object(j) => {
                    proof {
                        assert(self@.len() == self.objects@.len());
                        assert(self@[j as int] == self.objects@[j as int]@);
                    }
                    match self.objects[j].lookup_resident(key) {
                        Some(ResidentDescriptor::Data { value, .. }) => {
                            return value;
                        },
                        Some(ResidentDescriptor::Accessor { .. }) => {
                            return Value::undefined();
                        },
                        None => {},
                    }
                    cur = self.objects[j].get_prototype_of();
                    proof {
                        fuel = (fuel - 1) as nat;
                    }
                },
                _ => {
                    return Value::undefined();
                },
            }
        }
    }

    /// `Get` on the object at `i`: the stored value of the first data
    /// property under `key` on the prototype chain; the `undefined`
    /// sentinel when the chain lacks the property, and for an accessor
    /// property — the evaluator must fetch the descriptor through
    /// `GetOwnProperty` and invoke the getter itself.
    pub fn get(&self, i: usize, key: &PropertyKey) -> (r: Value)
        requires
            self.wf(),
            (i as int) < self@.len(),
        ensures
            r == spec_get(self@, i as int, *key),
    {
        proof {
            assert(self@.len() == self.objects@.len());
            assert(self@[i as int] == self.objects@[i as int]@);
        }
        match self.objects[i].lookup_resident(key) {
            Some(ResidentDescriptor::Data { value, .. }) => value,
            Some(ResidentDescriptor::Accessor { .. }) => Value::undefined(),
            None => {
                let start = self.objects[i].get_prototype_of();
                self.get_link(start, key)
            },
        }
    }

    /// Set the prototype of the object at `i` to `val` (an object
    /// reference or `null`).
    ///
    /// Succeeds trivially when `val` already is the prototype.  Fails, with
    /// no mutation, when the object is not extensible, and when the chain
    /// from `val` leads back to the object itself — the cycle guard that
    /// keeps every prototype chain finite and acyclic.
    pub fn set_prototype_of(&mut self, i: usize, val: Value) -> (r: bool)
        requires
            old(self).wf(),
            (i as int) < old(self)@.len(),
            valid_link(old(self)@, val),
        ensures
            final(self).wf(),
            r == spo_ok(old(self)@, i as int, val),
            final(self)@ == spo_post(old(self)@, i as int, val),
    {
        proof {
            assert(self@.len() == self.objects@.len());
            assert(self@[i as int] == self.objects@[i as int]@);
        }
        let current = self.objects[i].get_prototype_of();
        if same_value(&current, &val) {
            return true;
        }
        if !self.objects[i].is_extensible() {
            return false;
        }
        proof {
            let s = self@;
            match val {
                Value::Object(c) => {
                    assert(depth(s, val, (s.len() + 1) as nat) == 1 + depth(
                        s,
                        s[c as int].prototype,
                        s.len(),
                    ));
                },
                _ => {},
            }
        }
        if self.proto_chain_contains(val, i) {
            return false;
        }
        let mut obj = self.objects[i].clone();
        obj.set_prototype_raw(val);
        self.objects.set(i, obj);
        proof {
            let s = old(self)@;
            let n1 = (s.len() + 1) as nat;
            let post = ObjView { prototype: val, ..s[i as int] };
            let s2 = s.update(i as int, post);
            assert(self@ =~= s2);
            assert forall|j: int| 0 <= j < s.len() && j != i as int implies (
            #[trigger] s2[j]).prototype == s[j].prototype by {}
            // The candidate chain avoids `i`, so it survives the update.
            lemma_update_frame(s, i as int, post, val, n1);
            assert(depth(s2, val, n1) >= 0);
            assert forall|x: int| 0 <= x < s2.len() implies (#[trigger] s2[x]).wf() && depth(
                s2,
                s2[x].prototype,
                s2.len(),
            ) >= 0 by {
                if x == i as int {
                    lemma_depth_bound(s2, val, n1);
                } else {
                    lemma_compose(s, s2, i as int, s[x].prototype, s.len(), n1);
                    lemma_depth_bound(s2, s[x].prototype, (s.len() + n1 + 1) as nat);
                }
            }
        }
        true
    }
}


/// Prototype cycle rejection: when `a`'s prototype is `b`, making `a` the
/// prototype of `b` must fail — the chain from `a` leads back to `b` — and
/// `b`'s prototype link stays exactly as it was.
pub proof fn lemma_prototype_cycle_rejected(s: Seq<ObjView>, a: usize, b: usize)
    requires
        heap_wf(s),
        (a as int) < s.len(),
        (b as int) < s.len(),
        s[a as int].prototype == Value::Object(b),
    ensures
        !spo_ok(s, b as int, Value::Object(a)),
        spo_post(s, b as int, Value::Object(a)) == s,
{
    let va = Value::Object(a);
    let vb = Value::Object(b);
    let n = s.len();
    if a == b {
        // A self-loop would already violate the invariant.
        let d = depth(s, vb, n);
        assert(depth(s, s[a as int].prototype, n) >= 0);
        assert(d == 1 + depth(s, va, (n - 1) as nat));
        lemma_depth_le_fuel(s, va, (n - 1) as nat);
        lemma_depth_stable(s, va, (n - 1) as nat, n);
        assert(false);
    }
    // The chain from `a` reaches `b` in one step.
    assert(chain_contains(s, va, b as int, (n + 1) as nat)) by {
        assert(chain_contains(s, vb, b as int, n));
    }
    // And `b`'s prototype cannot already be `a`: the two links together
    // would form a two-step cycle, which the invariant's finite depths
    // exclude.
    if s[b as int].prototype == va {
        let da = depth(s, va, n);
        let db = depth(s, vb, n);
        assert(db == 1 + depth(s, va, (n - 1) as nat));
        lemma_depth_le_fuel(s, va, (n - 1) as nat);
        lemma_depth_stable(s, va, (n - 1) as nat, n);
        assert(db == 1 + da);
        assert(da == 1 + depth(s, vb, (n - 1) as nat));
        lemma_depth_le_fuel(s, vb, (n - 1) as nat);
        lemma_depth_stable(s, vb, (n - 1) as nat, n);
        assert(da == 1 + db);
        assert(false);
    }
}

/// Inherited lookup: when `a`'s prototype is `b`, `b` owns a data property
/// under `key` and `a` does not own the key itself, then `a` has the
/// property, `Get` on `a` returns the stored value — while `a`'s own
/// lookup stays absent.
pub proof fn lemma_inherited_lookup(
    s: Seq<ObjView>,
    a: usize,
    b: usize,
    key: PropertyKey,
    d: ResidentDescriptor,
)
    requires
        heap_wf(s),
        (a as int) < s.len(),
        (b as int) < s.len(),
        s[a as int].prototype == Value::Object(b),
        s[a as int].lookup(key) is None,
        s[b as int].lookup(key) == Some(d),
        d is Data,
    ensures
        spec_has_property(s, a as int, key),
        spec_get(s, a as int, key) == d->Data_value,
{
    let vb = Value::Object(b);
    let n = s.len();
    assert(s[b as int].has_entry(key));
    assert(spec_has_property_link(s, vb, key, n));
    assert(spec_get_link(s, vb, key, n) == d->Data_value);
    assert(!s[a as int].has_entry(key));
}

} // verus!

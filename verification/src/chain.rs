//! Prototype-chain reasoning.
//!
//! A prototype link is `null` or an object reference into the heap arena.
//! [`depth`] measures how many links a chain follows before reaching a
//! terminal value, under a fuel bound: a non-negative depth means the chain
//! reaches its end within that fuel.  The heap invariant states that every
//! resident prototype chain has non-negative depth at fuel `len`, which is
//! the tightest uniform bound: a terminating chain never revisits an object,
//! so it visits at most `len` of them ([`lemma_depth_bound`]).  The lemmas
//! here carry that invariant across heap mutations: updating an object that
//! a chain avoids does not disturb it ([`lemma_update_frame`]), a chain
//! re-routed through the updated object still terminates
//! ([`lemma_compose`]), and operations that leave every prototype link alone
//! disturb nothing ([`lemma_proto_frame`], [`lemma_extend_frame`]).

use vstd::prelude::*;
use vstd::set_lib::lemma_int_range;
use vstd::set_lib::lemma_len_subset;
use vstd::set_lib::set_int_range;
use crate::object::ObjView;
use crate::value::Value;

verus! {

/// The number of links from `link` to a terminal value (`null`, or any
/// non-object), or `-1` if `fuel` steps do not reach one.  A dangling
/// object reference also yields `-1`.
pub open spec fn depth(s: Seq<ObjView>, link: Value, fuel: nat) -> int
    decreases fuel,
{
    match link {
        Value::Object(j) => if fuel == 0 || (j as int) >= s.len() {
            -1
        } else {
            let d = depth(s, s[j as int].prototype, (fuel - 1) as nat);
            if d < 0 {
                -1
            } else {
                d + 1
            }
        },
        _ => 0,
    }
}

/// Whether the chain from `link` passes through object `t` within `fuel`
/// steps, `link` itself included.
pub open spec fn chain_contains(s: Seq<ObjView>, link: Value, t: int, fuel: nat) -> bool
    decreases fuel,
{
    match link {
        Value::Object(j) => fuel > 0 && (j as int) < s.len() && ((j as int) == t
            || chain_contains(s, s[j as int].prototype, t, (fuel - 1) as nat)),
        _ => false,
    }
}

/// The set of objects the chain from `link` visits within `fuel` steps.
pub open spec fn chain_set(s: Seq<ObjView>, link: Value, fuel: nat) -> Set<int>
    decreases fuel,
{
    match link {
        Value::Object(j) => if fuel == 0 || (j as int) >= s.len() {
            Set::empty()
        } else {
            chain_set(s, s[j as int].prototype, (fuel - 1) as nat).insert(j as int)
        },
        _ => Set::empty(),
    }
}

/// A reached depth never exceeds the fuel that reached it.
pub proof fn lemma_depth_le_fuel(s: Seq<ObjView>, link: Value, fuel: nat)
    requires
        depth(s, link, fuel) >= 0,
    ensures
        depth(s, link, fuel) <= fuel,
    decreases fuel,
{
    match link {
        Value::Object(j) => {
            lemma_depth_le_fuel(s, s[j as int].prototype, (fuel - 1) as nat);
        },
        _ => {},
    }
}

/// Once reached, the depth is the same under any fuel at least as large as
/// the depth itself.
pub proof fn lemma_depth_stable(s: Seq<ObjView>, link: Value, f: nat, g: nat)
    requires
        depth(s, link, f) >= 0,
        g >= depth(s, link, f),
    ensures
        depth(s, link, g) == depth(s, link, f),
    decreases f,
{
    match link {
        Value::Object(j) => {
            lemma_depth_stable(s, s[j as int].prototype, (f - 1) as nat, (g - 1) as nat);
        },
        _ => {},
    }
}

/// Every object a terminating chain visits is a valid index whose own chain
/// terminates, no deeper than the chain that visited it.
pub proof fn lemma_chain_member(s: Seq<ObjView>, link: Value, fuel: nat, x: int)
    requires
        depth(s, link, fuel) >= 0,
        chain_set(s, link, fuel).contains(x),
    ensures
        0 <= x < s.len(),
        depth(s, Value::Object(x as usize), fuel) >= 1,
        depth(s, Value::Object(x as usize), fuel) <= depth(s, link, fuel),
    decreases fuel,
{
    match link {
        Value::Object(j) => {
            if x == j as int {
            } else {
                let proto = s[j as int].prototype;
                lemma_chain_member(s, proto, (fuel - 1) as nat, x);
                lemma_depth_le_fuel(s, Value::Object(x as usize), (fuel - 1) as nat);
                lemma_depth_stable(s, Value::Object(x as usize), (fuel - 1) as nat, fuel);
            }
        },
        _ => {},
    }
}

/// A terminating chain visits exactly `depth` distinct objects, all of them
/// valid heap indices.
pub proof fn lemma_chain_card(s: Seq<ObjView>, link: Value, fuel: nat)
    requires
        depth(s, link, fuel) >= 0,
    ensures
        chain_set(s, link, fuel).finite(),
        chain_set(s, link, fuel).len() == depth(s, link, fuel),
        chain_set(s, link, fuel).subset_of(set_int_range(0, s.len() as int)),
    decreases fuel,
{
    match link {
        Value::Object(j) => {
            let proto = s[j as int].prototype;
            lemma_chain_card(s, proto, (fuel - 1) as nat);
            if chain_set(s, proto, (fuel - 1) as nat).contains(j as int) {
                // The tail would then reach `j` again, strictly shallower
                // than the chain that starts at `j` — impossible.
                lemma_chain_member(s, proto, (fuel - 1) as nat, j as int);
                lemma_depth_le_fuel(s, Value::Object(j), (fuel - 1) as nat);
                lemma_depth_stable(s, Value::Object(j), (fuel - 1) as nat, fuel);
                assert(false);
            }
        },
        _ => {},
    }
}

/// A terminating chain terminates within fuel `len`: it visits distinct
/// valid indices, so its depth is at most the number of objects in the heap.
pub proof fn lemma_depth_bound(s: Seq<ObjView>, link: Value, fuel: nat)
    requires
        depth(s, link, fuel) >= 0,
    ensures
        depth(s, link, fuel) <= s.len(),
        depth(s, link, s.len() as nat) == depth(s, link, fuel),
{
    lemma_chain_card(s, link, fuel);
    lemma_int_range(0, s.len() as int);
    lemma_len_subset(chain_set(s, link, fuel), set_int_range(0, s.len() as int));
    lemma_depth_stable(s, link, fuel, s.len() as nat);
}

/// Updating an object a chain avoids leaves the chain undisturbed.
pub proof fn lemma_update_frame(s: Seq<ObjView>, t: int, x: ObjView, link: Value, fuel: nat)
    requires
        0 <= t < s.len(),
        depth(s, link, fuel) >= 0,
        !chain_contains(s, link, t, fuel),
    ensures
        depth(s.update(t, x), link, fuel) == depth(s, link, fuel),
        !chain_contains(s.update(t, x), link, t, fuel),
    decreases fuel,
{
    match link {
        Value::Object(j) => {
            lemma_update_frame(s, t, x, s[j as int].prototype, (fuel - 1) as nat);
        },
        _ => {},
    }
}

/// A chain of the old heap still terminates in a heap where only object
/// `t`'s prototype changed, provided `t`'s new chain terminates: the old
/// chain either avoids `t` or runs into `t` and continues along its new
/// chain.
pub proof fn lemma_compose(
    s: Seq<ObjView>,
    s2: Seq<ObjView>,
    t: int,
    link: Value,
    f: nat,
    r: nat,
)
    requires
        s2.len() == s.len(),
        0 <= t < s.len(),
        forall|j: int| 0 <= j < s.len() && j != t ==> (#[trigger] s2[j]).prototype
            == s[j].prototype,
        depth(s, link, f) >= 0,
        depth(s2, s2[t].prototype, r) >= 0,
    ensures
        depth(s2, link, (f + r + 1) as nat) >= 0,
    decreases f,
{
    match link {
        Value::Object(j) => {
            if j as int == t {
                assert(depth(s2, Value::Object(j), (r + 1) as nat) == depth(
                    s2,
                    s2[t].prototype,
                    r,
                ) + 1);
                lemma_depth_le_fuel(s2, link, (r + 1) as nat);
                lemma_depth_stable(s2, link, (r + 1) as nat, (f + r + 1) as nat);
            } else {
                lemma_compose(s, s2, t, s[j as int].prototype, (f - 1) as nat, r);
            }
        },
        _ => {},
    }
}

/// Chains only read prototype links: two heaps of the same length whose
/// objects carry the same prototype links agree on every chain.
pub proof fn lemma_proto_frame(s: Seq<ObjView>, s2: Seq<ObjView>, link: Value, fuel: nat)
    requires
        s2.len() == s.len(),
        forall|j: int| 0 <= j < s.len() ==> (#[trigger] s2[j]).prototype == s[j].prototype,
    ensures
        depth(s2, link, fuel) == depth(s, link, fuel),
    decreases fuel,
{
    match link {
        Value::Object(j) => {
            if 0 <= j as int && (j as int) < s.len() && fuel > 0 {
                lemma_proto_frame(s, s2, s[j as int].prototype, (fuel - 1) as nat);
            }
        },
        _ => {},
    }
}

/// A terminating chain of the old heap is undisturbed by appending objects:
/// it never visits the new indices.
pub proof fn lemma_extend_frame(s: Seq<ObjView>, s2: Seq<ObjView>, link: Value, fuel: nat)
    requires
        s2.len() >= s.len(),
        forall|j: int| 0 <= j < s.len() ==> (#[trigger] s2[j]).prototype == s[j].prototype,
        depth(s, link, fuel) >= 0,
    ensures
        depth(s2, link, fuel) == depth(s, link, fuel),
    decreases fuel,
{
    match link {
        Value::Object(j) => {
            lemma_extend_frame(s, s2, s[j as int].prototype, (fuel - 1) as nat);
        },
        _ => {},
    }
}

} // verus!

//! The object record and the internal methods that touch a single record:
//! extensibility control, own-property lookup, definition, deletion, and the
//! `DefineOwnProperty` reconciliation algorithm.
//!
//! An object record is an extensibility flag, a prototype link and two
//! insertion-ordered property tables (string-keyed and symbol-keyed, keys
//! unique).  Its mathematical model is [`ObjView`].  The internal methods
//! that traverse prototype links live on [`crate::heap::Heap`].

use vstd::prelude::*;
use crate::property::Attribute;
use crate::property::Property;
use crate::property::PropertyKey;
use crate::property::Reconciled;
use crate::property::ResidentDescriptor;
use crate::property::classify;
use crate::property::reconcile;
use crate::property::spec_classify;
use crate::property::spec_reconcile;
use crate::value::Sym;
use crate::value::Value;

verus! {

/// One property table: an insertion-ordered association sequence.
pub type Table = Seq<(Sym, ResidentDescriptor)>;

/// Keys of a property table are pairwise distinct.
pub open spec fn table_wf(es: Table) -> bool {
    forall|i: int, j: int|
        0 <= i < es.len() && 0 <= j < es.len() && i != j ==> (#[trigger] es[i]).0 != (
        #[trigger] es[j]).0
}

/// Whether the table holds an entry under handle `s`.
pub open spec fn table_has(es: Table, s: Sym) -> bool {
    exists|i: int| 0 <= i < es.len() && (#[trigger] es[i]).0 == s
}

/// The index of the entry under handle `s` (meaningful when `table_has`).
pub open spec fn table_index(es: Table, s: Sym) -> int {
    choose|i: int| 0 <= i < es.len() && (#[trigger] es[i]).0 == s
}

/// The resident descriptor stored under handle `s`, if any.
pub open spec fn table_lookup(es: Table, s: Sym) -> Option<ResidentDescriptor> {
    if table_has(es, s) {
        Some(es[table_index(es, s)].1)
    } else {
        None
    }
}

/// The table after storing `d` under `s`: an existing entry is replaced in
/// place (its position kept), a new entry is appended at the end.
pub open spec fn spec_table_insert(es: Table, s: Sym, d: ResidentDescriptor) -> Table {
    if table_has(es, s) {
        es.update(table_index(es, s), (s, d))
    } else {
        es.push((s, d))
    }
}

/// The table after removing the entry under `s`, the order of the remaining
/// entries kept; absent keys leave the table unchanged.
pub open spec fn spec_table_remove(es: Table, s: Sym) -> Table {
    if table_has(es, s) {
        es.remove(table_index(es, s))
    } else {
        es
    }
}

/// The mathematical model of an object record.
#[verifier::ext_equal]
pub ghost struct ObjView {
    /// Gate on adding new own properties.
    pub extensible: bool,
    /// The prototype link: an object reference or `null`.
    pub prototype: Value,
    /// The string-keyed property table, insertion-ordered.
    pub strs: Table,
    /// The symbol-keyed property table, insertion-ordered.
    pub syms: Table,
}

impl ObjView {
    /// A freshly created record: extensible, `null` prototype, empty tables.
    pub open spec fn empty() -> ObjView {
        ObjView { extensible: true, prototype: Value::Null, strs: Seq::empty(), syms: Seq::empty() }
    }

    /// The table the key addresses: string keys and symbol keys occupy
    /// disjoint namespaces.
    pub open spec fn entries(self, key: PropertyKey) -> Table {
        match key {
            PropertyKey::Str(_) => self.strs,
            PropertyKey::Symbol(_) => self.syms,
        }
    }

    /// The record with the table the key addresses replaced by `es`.
    pub open spec fn with_entries(self, key: PropertyKey, es: Table) -> ObjView {
        match key {
            PropertyKey::Str(_) => ObjView { strs: es, ..self },
            PropertyKey::Symbol(_) => ObjView { syms: es, ..self },
        }
    }

    /// Whether the record owns a property under `key`.
    pub open spec fn has_entry(self, key: PropertyKey) -> bool {
        table_has(self.entries(key), key.sym())
    }

    /// The resident descriptor under `key`, if any.
    pub open spec fn lookup(self, key: PropertyKey) -> Option<ResidentDescriptor> {
        table_lookup(self.entries(key), key.sym())
    }

    /// The record after storing `d` under `key` (replace in place, or append).
    pub open spec fn with_entry(self, key: PropertyKey, d: ResidentDescriptor) -> ObjView {
        self.with_entries(key, spec_table_insert(self.entries(key), key.sym(), d))
    }

    /// The record after removing the property under `key`.
    pub open spec fn without_entry(self, key: PropertyKey) -> ObjView {
        self.with_entries(key, spec_table_remove(self.entries(key), key.sym()))
    }

    /// Well-formedness: unique keys in each table, and a prototype link that
    /// is an object reference or `null` — never any other value.
    pub open spec fn wf(self) -> bool {
        table_wf(self.strs) && table_wf(self.syms) && (self.prototype is Null
            || self.prototype is Object)
    }
}

/// Whether `DefineOwnProperty` succeeds on `o` at `key` with input `desc`.
///
/// At an absent key the extensibility flag alone decides; at a resident key
/// the reconciliation rules ([`spec_reconcile`]) decide.
pub open spec fn dop_ok(o: ObjView, key: PropertyKey, desc: Property) -> bool {
    match o.lookup(key) {
        None => o.extensible,
        Some(cur) => !(spec_reconcile(&cur, &desc) is Rejected),
    }
}

/// The record after `DefineOwnProperty` on `o` at `key` with input `desc`.
/// A failed or mutation-free call leaves the record exactly as it was.
pub open spec fn dop_post(o: ObjView, key: PropertyKey, desc: Property) -> ObjView {
    match o.lookup(key) {
        None => if o.extensible {
            o.with_entry(key, spec_classify(&desc))
        } else {
            o
        },
        Some(cur) => match spec_reconcile(&cur, &desc) {
            Reconciled::Updated(n) => o.with_entry(key, n),
            _ => o,
        },
    }
}

/// Whether `Delete` succeeds on `o` at `key`: an absent key deletes
/// trivially, a resident one only if configurable.
pub open spec fn delete_ok(o: ObjView, key: PropertyKey) -> bool {
    match o.lookup(key) {
        None => true,
        Some(d) => d.spec_configurable(),
    }
}

/// The record after `Delete` on `o` at `key`.
pub open spec fn delete_post(o: ObjView, key: PropertyKey) -> ObjView {
    match o.lookup(key) {
        Some(d) => if d.spec_configurable() {
            o.without_entry(key)
        } else {
            o
        },
        None => o,
    }
}

/// Whether the record owns an accessor property under `key` whose setter is
/// present (not `undefined`).  `Set` then signals the caller: invoking the
/// setter is the evaluator's job, not this core's.
pub open spec fn needs_setter_call(o: ObjView, key: PropertyKey) -> bool {
    match o.lookup(key) {
        Some(ResidentDescriptor::Accessor { set, .. }) => !(set is Undefined),
        _ => false,
    }
}

/// Whether `Set` succeeds on `o` at `key` (no own accessor with a setter):
/// a fresh key needs extensibility, a resident data property needs
/// writability, and a setterless accessor always fails.
pub open spec fn set_ok(o: ObjView, key: PropertyKey) -> bool {
    match o.lookup(key) {
        None => o.extensible,
        Some(d) => d is Data && d.spec_writable(),
    }
}

/// The record after `Set` on `o` at `key` with `val`: a fresh key gets a new
/// data property with all attributes `true`; a writable data property keeps
/// its attributes and takes the new value.
pub open spec fn set_post(o: ObjView, key: PropertyKey, val: Value) -> ObjView {
    match o.lookup(key) {
        None => if o.extensible {
            o.with_entry(
                key,
                ResidentDescriptor::Data {
                    value: val,
                    writable: true,
                    enumerable: true,
                    configurable: true,
                },
            )
        } else {
            o
        },
        Some(d) => match d {
            ResidentDescriptor::Data { value: _, writable, enumerable, configurable } => if writable {
                o.with_entry(
                    key,
                    ResidentDescriptor::Data { value: val, writable, enumerable, configurable },
                )
            } else {
                o
            },
            ResidentDescriptor::Accessor { .. } => o,
        },
    }
}

/// The mutable unit of state: an extensibility flag, a prototype link and
/// two insertion-ordered property tables.  Mutated exclusively through the
/// internal methods; its model is [`ObjView`].
pub struct Object {
    pub(crate) extensible: bool,
    pub(crate) prototype: Value,
    pub(crate) string_properties: Vec<(Sym, ResidentDescriptor)>,
    pub(crate) symbol_properties: Vec<(Sym, ResidentDescriptor)>,
}

impl View for Object {
    type V = ObjView;

    closed spec fn view(&self) -> ObjView {
        ObjView {
            extensible: self.extensible,
            prototype: self.prototype,
            strs: self.string_properties@,
            syms: self.symbol_properties@,
        }
    }
}

/// The index of the entry under `s`, scanning in order.
fn find_in(table: &Vec<(Sym, ResidentDescriptor)>, s: Sym) -> (r: Option<usize>)
    ensures
        match r {
            Some(i) => i < table@.len() && table@[i as int].0 == s,
            None => !table_has(table@, s),
        },
{
    let mut i: usize = 0;
    while i < table.len()
        invariant
            i <= table@.len(),
            forall|k: int| 0 <= k < i ==> (#[trigger] table@[k]).0 != s,
        decreases table@.len() - i,
    {
        let pair = table[i];
        if pair.0 == s {
            return Some(i);
        }
        i = i + 1;
    }
    None
}

/// With unique keys, the index the scan found is the index the model names.
proof fn lemma_found_index(es: Table, s: Sym, i: int)
    requires
        table_wf(es),
        0 <= i < es.len(),
        es[i].0 == s,
    ensures
        table_has(es, s),
        table_index(es, s) == i,
{
    assert(table_has(es, s));
    let j = table_index(es, s);
    assert(0 <= j < es.len() && es[j].0 == s);
}

/// Store `d` under `s`: replace the resident entry in place, or append.
fn table_insert(table: &mut Vec<(Sym, ResidentDescriptor)>, s: Sym, d: ResidentDescriptor)
    requires
        table_wf(old(table)@),
    ensures
        final(table)@ == spec_table_insert(old(table)@, s, d),
        table_wf(final(table)@),
{
    match find_in(table, s) {
        Some(i) => {
            proof {
                lemma_found_index(table@, s, i as int);
            }
            table.set(i, (s, d));
            assert(table_wf(table@)) by {
                assert(forall|k: int|
                    0 <= k < table@.len() ==> (#[trigger] table@[k]).0 == old(table)@[k].0);
            }
        },
        None => {
            table.push((s, d));
            assert(table_wf(table@)) by {
                let es = old(table)@;
                assert(forall|k: int| 0 <= k < es.len() ==> (#[trigger] table@[k]) == es[k]);
            }
        },
    }
}

/// Remove the entry under `s`, keeping the order of the rest.
fn table_remove(table: &mut Vec<(Sym, ResidentDescriptor)>, s: Sym)
    requires
        table_wf(old(table)@),
    ensures
        final(table)@ == spec_table_remove(old(table)@, s),
        table_wf(final(table)@),
{
    match find_in(table, s) {
        Some(i) => {
            proof {
                lemma_found_index(table@, s, i as int);
            }
            table.remove(i);
            assert(table_wf(table@)) by {
                let es = old(table)@;
                assert(forall|k: int|
                    0 <= k < table@.len() ==> (#[trigger] table@[k]) == (if k < i as int {
                        es[k]
                    } else {
                        es[k + 1]
                    }));
            }
        },
        None => {},
    }
}


/// The keys of a table, in table order.
fn keys_of(table: &Vec<(Sym, ResidentDescriptor)>) -> (r: Vec<Sym>)
    ensures
        r@ == table@.map_values(|e: (Sym, ResidentDescriptor)| e.0),
{
    let mut r: Vec<Sym> = Vec::new();
    let mut i: usize = 0;
    while i < table.len()
        invariant
            i <= table@.len(),
            r@ == table@.map_values(|e: (Sym, ResidentDescriptor)| e.0).subrange(0, i as int),
        decreases table@.len() - i,
    {
        r.push(table[i].0);
        proof {
            assert(r@ =~= table@.map_values(|e: (Sym, ResidentDescriptor)| e.0).subrange(
                0,
                i + 1,
            ));
        }
        i = i + 1;
    }
    proof {
        assert(r@ =~= table@.map_values(|e: (Sym, ResidentDescriptor)| e.0));
    }
    r
}

impl Clone for Object {
    /// A deep copy with the same model.
    fn clone(&self) -> (res: Self)
        ensures
            res@ == self@,
    {
        let res = Object {
            extensible: self.extensible,
            prototype: self.prototype,
            string_properties: clone_table(&self.string_properties),
            symbol_properties: clone_table(&self.symbol_properties),
        };
        proof {
            assert(res@ =~= self@);
        }
        res
    }
}

fn clone_table(t: &Vec<(Sym, ResidentDescriptor)>) -> (r: Vec<(Sym, ResidentDescriptor)>)
    ensures
        r@ == t@,
{
    let mut r: Vec<(Sym, ResidentDescriptor)> = Vec::new();
    let mut i: usize = 0;
    while i < t.len()
        invariant
            i <= t@.len(),
            r@ == t@.subrange(0, i as int),
        decreases t@.len() - i,
    {
        r.push(t[i]);
        proof {
            assert(r@ =~= t@.subrange(0, i + 1));
        }
        i = i + 1;
    }
    proof {
        assert(r@ =~= t@);
    }
    r
}

impl Object {
    /// A freshly created ordinary object: extensible, `null` prototype,
    /// empty property tables.
    pub fn new() -> (r: Object)
        ensures
            r@ == ObjView::empty(),
            r@.wf(),
    {
        let r = Object {
            extensible: true,
            prototype: Value::Null,
            string_properties: Vec::new(),
            symbol_properties: Vec::new(),
        };
        proof {
            assert(r@ =~= ObjView::empty());
        }
        r
    }

    /// Check if the ordinary object is extensible.
    fn ordinary_is_extensible(&self) -> (r: bool)
        ensures
            r == self@.extensible,
    {
        self.extensible
    }

    /// Determine whether it is permitted to add additional properties to
    /// this object.
    pub fn is_extensible(&self) -> (r: bool)
        ensures
            r == self@.extensible,
    {
        self.ordinary_is_extensible()
    }

    /// Prevent further extensions to the ordinary object.
    fn ordinary_prevent_extensions(&mut self) -> (r: bool)
        ensures
            final(self)@ == (ObjView { extensible: false, ..old(self)@ }),
            r,
    {
        self.extensible = false;
        proof {
            assert(self@ =~= (ObjView { extensible: false, ..old(self)@ }));
        }
        true
    }

    /// Forbid adding new own properties, for good: idempotent, and always
    /// succeeds on an ordinary object.
    pub fn prevent_extensions(&mut self) -> (r: bool)
        ensures
            final(self)@ == (ObjView { extensible: false, ..old(self)@ }),
            r,
    {
        self.ordinary_prevent_extensions()
    }

    /// Returns either the prototype or `null`; no side effects.
    pub fn get_prototype_of(&self) -> (r: Value)
        ensures
            r == self@.prototype,
    {
        self.prototype
    }

    /// Replace the prototype link without any check: the cycle guard lives
    /// on the heap, which owns the only call sites.
    pub(crate) fn set_prototype_raw(&mut self, v: Value)
        ensures
            final(self)@ == (ObjView { prototype: v, ..old(self)@ }),
    {
        self.prototype = v;
        proof {
            assert(self@ =~= (ObjView { prototype: v, ..old(self)@ }));
        }
    }

    /// The resident descriptor under `key`, if any.
    pub(crate) fn lookup_resident(&self, key: &PropertyKey) -> (r: Option<ResidentDescriptor>)
        requires
            self@.wf(),
        ensures
            r == self@.lookup(*key),
    {
        let s = key.handle();
        let table = match key {
            PropertyKey::Str(_) => &self.string_properties,
            PropertyKey::Symbol(_) => &self.symbol_properties,
        };
        match find_in(table, s) {
            Some(i) => {
                proof {
                    lemma_found_index(table@, s, i as int);
                }
                Some(table[i].1)
            },
            None => None,
        }
    }

    /// Returns a defensive copy of the resident descriptor for `key` if
    /// present, else absent: callers never observe live-table mutation
    /// through the returned descriptor.
    pub fn get_own_property(&self, key: &PropertyKey) -> (r: Option<Property>)
        requires
            self@.wf(),
        ensures
            r == (match self@.lookup(*key) {
                Some(d) => Some(d.spec_to_property()),
                None => None::<Property>,
            }),
    {
        match self.lookup_resident(key) {
            Some(d) => Some(d.to_property()),
            None => None,
        }
    }

    /// Helper funnel for property insertion: every protocol operation that
    /// writes a table goes through here.
    pub fn insert_property(&mut self, key: &PropertyKey, desc: ResidentDescriptor)
        requires
            old(self)@.wf(),
        ensures
            final(self)@ == old(self)@.with_entry(*key, desc),
            final(self)@.wf(),
    {
        let s = key.handle();
        match key {
            PropertyKey::Str(_) => table_insert(&mut self.string_properties, s, desc),
            PropertyKey::Symbol(_) => table_insert(&mut self.symbol_properties, s, desc),
        }
        proof {
            assert(self@ =~= old(self)@.with_entry(*key, desc));
        }
    }

    /// Helper funnel for property removal.
    pub fn remove_property(&mut self, key: &PropertyKey)
        requires
            old(self)@.wf(),
        ensures
            final(self)@ == old(self)@.without_entry(*key),
            final(self)@.wf(),
    {
        let s = key.handle();
        match key {
            PropertyKey::Str(_) => table_remove(&mut self.string_properties, s),
            PropertyKey::Symbol(_) => table_remove(&mut self.symbol_properties, s),
        }
        proof {
            assert(self@ =~= old(self)@.without_entry(*key));
        }
    }

    /// Define an own property: the descriptor reconciliation algorithm.
    ///
    /// On success the table reflects the merged result; on failure the
    /// record is unchanged.  At an absent key the extensibility flag alone
    /// decides, and the classified input becomes a brand-new resident
    /// descriptor; at a resident key [`spec_reconcile`] decides.
    pub fn define_own_property(&mut self, key: &PropertyKey, desc: Property) -> (r: bool)
        requires
            old(self)@.wf(),
        ensures
            final(self)@.wf(),
            r == dop_ok(old(self)@, *key, desc),
            final(self)@ == dop_post(old(self)@, *key, desc),
    {
        match self.lookup_resident(key) {
            None => {
                if !self.is_extensible() {
                    return false;
                }
                self.insert_property(key, classify(&desc));
                true
            },
            Some(cur) => {
                match reconcile(&cur, &desc) {
                    Reconciled::Rejected => false,
                    Reconciled::Unchanged => true,
                    Reconciled::Updated(n) => {
                        self.insert_property(key, n);
                        true
                    },
                }
            },
        }
    }

    /// Delete a property: an absent key succeeds trivially, a configurable
    /// resident property is removed, a non-configurable one is protected
    /// for good.
    pub fn delete(&mut self, key: &PropertyKey) -> (r: bool)
        requires
            old(self)@.wf(),
        ensures
            final(self)@.wf(),
            r == delete_ok(old(self)@, *key),
            final(self)@ == delete_post(old(self)@, *key),
    {
        let desc = match self.lookup_resident(key) {
            Some(d) => d,
            None => {
                return true;
            },
        };
        if desc.configurable() {
            self.remove_property(key);
            true
        } else {
            false
        }
    }

    /// Ordinary assignment to an own property.
    ///
    /// A fresh key defines a brand-new data property with all attributes
    /// `true` (gated by extensibility); a writable data property takes the
    /// new value and keeps its attributes; a non-writable data property and
    /// a setterless accessor fail.  The prototype chain is never consulted:
    /// delegating an assignment to an inherited accessor is the evaluator's
    /// concern, not this core's.  An own accessor with a present setter is
    /// excluded by contract: invoking a setter is the evaluator's job, and
    /// the caller must consult [`needs_setter_call`] (through
    /// `GetOwnProperty`) first.
    pub fn set(&mut self, key: &PropertyKey, val: Value) -> (r: bool)
        requires
            old(self)@.wf(),
            !needs_setter_call(old(self)@, *key),
        ensures
            final(self)@.wf(),
            r == set_ok(old(self)@, *key),
            final(self)@ == set_post(old(self)@, *key, val),
    {
        let own_desc = match self.get_own_property(key) {
            Some(d) => d,
            None => Property::data_descriptor(Value::undefined(), Attribute::all()),
        };
        if own_desc.is_data_descriptor() {
            if !own_desc.writable_or(false) {
                return false;
            }
            let patched = own_desc.with_value(val);
            return self.define_own_property(key, patched);
        }
        // Own accessor without a setter: nothing to assign to.
        false
    }

    /// Field shortcut: the stored value of the string-keyed data property
    /// `name`, if one resides here.
    pub fn get_field(&self, name: Sym) -> (r: Option<Value>)
        requires
            self@.wf(),
        ensures
            r == (match self@.lookup(PropertyKey::Str(name)) {
                Some(ResidentDescriptor::Data { value, .. }) => Some(value),
                _ => None::<Value>,
            }),
    {
        match self.lookup_resident(&PropertyKey::Str(name)) {
            Some(ResidentDescriptor::Data { value, .. }) => Some(value),
            _ => None,
        }
    }

    /// Field shortcut: store `value` as a data property under the string
    /// key `name` with all attributes `true`, without consulting writability
    /// or extensibility.  Returns the previous resident descriptor, if any.
    pub fn insert_field(&mut self, name: Sym, value: Value) -> (r: Option<ResidentDescriptor>)
        requires
            old(self)@.wf(),
        ensures
            final(self)@.wf(),
            final(self)@ == old(self)@.with_entry(
                PropertyKey::Str(name),
                ResidentDescriptor::Data {
                    value,
                    writable: true,
                    enumerable: true,
                    configurable: true,
                },
            ),
            r == old(self)@.lookup(PropertyKey::Str(name)),
    {
        let k = PropertyKey::Str(name);
        let prev = self.lookup_resident(&k);
        self.insert_property(
            &k,
            ResidentDescriptor::Data { value, writable: true, enumerable: true, configurable: true },
        );
        prev
    }

    /// The handles of the own string-keyed properties, in stable insertion
    /// order: definition appends, redefinition keeps the position, deletion
    /// closes the gap.
    pub fn own_string_keys(&self) -> (r: Vec<Sym>)
        ensures
            r@ == self@.strs.map_values(|e: (Sym, ResidentDescriptor)| e.0),
    {
        keys_of(&self.string_properties)
    }

    /// The handles of the own symbol-keyed properties, in stable insertion
    /// order.
    pub fn own_symbol_keys(&self) -> (r: Vec<Sym>)
        ensures
            r@ == self@.syms.map_values(|e: (Sym, ResidentDescriptor)| e.0),
    {
        keys_of(&self.symbol_properties)
    }
}


/// Delete semantics in full: an absent key deletes trivially as a no-op; a
/// non-configurable property defeats deletion and survives untouched; a
/// configurable property is removed, so that a subsequent own lookup under
/// the same key is absent.
pub proof fn lemma_delete_semantics(o: ObjView, key: PropertyKey)
    requires
        o.wf(),
    ensures
        (match o.lookup(key) {
            None => delete_ok(o, key) && delete_post(o, key) == o,
            Some(d) => if d.spec_configurable() {
                delete_ok(o, key) && delete_post(o, key).lookup(key) is None
            } else {
                !delete_ok(o, key) && delete_post(o, key) == o && delete_post(
                    o,
                    key,
                ).lookup(key) == o.lookup(key)
            },
        }),
{
    match o.lookup(key) {
        Some(d) => {
            if d.spec_configurable() {
                let es = o.entries(key);
                let s = key.sym();
                let idx = table_index(es, s);
                let es2 = es.remove(idx);
                assert(delete_post(o, key).entries(key) == es2);
                if table_has(es2, s) {
                    let i2 = table_index(es2, s);
                    let j = if i2 < idx {
                        i2
                    } else {
                        i2 + 1
                    };
                    assert(es2[i2] == es[j]);
                    assert(es[j].0 == s && es[idx].0 == s && j != idx);
                    assert(false);
                }
            }
        },
        None => {},
    }
}

/// A no-op patch is idempotent: `DefineOwnProperty` with an all-absent input
/// on a resident property succeeds and leaves the record exactly unchanged.
pub proof fn lemma_noop_patch(o: ObjView, key: PropertyKey)
    requires
        o.has_entry(key),
    ensures
        dop_ok(o, key, Property::spec_empty()),
        dop_post(o, key, Property::spec_empty()) == o,
{
}

/// The extensibility gate: a non-extensible object rejects definition at
/// any absent key with any input, and afterwards still owns no entry there.
pub proof fn lemma_extensibility_gate(o: ObjView, key: PropertyKey, desc: Property)
    requires
        !o.extensible,
        !o.has_entry(key),
    ensures
        !dop_ok(o, key, desc),
        dop_post(o, key, desc) == o,
        dop_post(o, key, desc).lookup(key) is None,
{
}

/// Non-configurable protection: once a data descriptor resides with
/// `configurable = false` and `writable = false`, a value-only patch with a
/// different value (same-value comparison) is rejected and the stored value
/// survives, while the same value succeeds as a mutation-free confirmation.
pub proof fn lemma_frozen_data_protection(
    o: ObjView,
    key: PropertyKey,
    stored: Value,
    enumerable: bool,
    proposed: Value,
)
    requires
        o.lookup(key) == Some(
            ResidentDescriptor::Data {
                value: stored,
                writable: false,
                enumerable,
                configurable: false,
            },
        ),
    ensures
        ({
            let patch = Property { value: Some(proposed), ..Property::spec_empty() };
            &&& proposed != stored ==> !dop_ok(o, key, patch)
            &&& proposed == stored ==> dop_ok(o, key, patch)
            &&& dop_post(o, key, patch) == o
            &&& dop_post(o, key, patch).lookup(key) == o.lookup(key)
        }),
{
}

} // verus!


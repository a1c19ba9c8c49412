//! Property keys, attribute sets and property descriptors, together with the
//! descriptor reconciliation rules that `DefineOwnProperty` applies.
//!
//! Two descriptor shapes exist.  [`Property`] is the *input* shape: any
//! subset of `{value, get, set, writable, enumerable, configurable}` may be
//! present, and an all-absent input is the "no-op patch".  A descriptor that
//! actually resides in an object's table is a [`ResidentDescriptor`]: always
//! classified as a data descriptor or an accessor descriptor, with every
//! attribute it supports present.  [`classify`] turns an input into a
//! resident descriptor, defaulting absent fields (`undefined` for values,
//! getters and setters; `false` for attributes), and [`reconcile`] decides
//! what a patch does to an existing resident descriptor.

use vstd::prelude::*;
use crate::value::Sym;
use crate::value::Value;

verus! {

/// A property key: an interned string handle or an interned symbol handle.
///
/// String keys and symbol keys occupy disjoint namespaces within one object;
/// two keys are equal only within the same tag and the same interned
/// identity.
#[derive(Clone, Copy, PartialEq, Eq, Structural, Debug)]
pub enum PropertyKey {
    /// An interned string key.
    Str(Sym),
    /// An interned symbol key.
    Symbol(Sym),
}

impl PropertyKey {
    /// The interned handle, whichever namespace the key addresses.
    pub open spec fn sym(self) -> Sym {
        match self {
            PropertyKey::Str(s) => s,
            PropertyKey::Symbol(s) => s,
        }
    }

    pub open spec fn spec_is_string(&self) -> bool {
        self is Str
    }

    /// True for string keys, false for symbol keys.
    #[verifier::when_used_as_spec(spec_is_string)]
    pub fn is_string(&self) -> (r: bool)
        ensures
            r == self.spec_is_string(),
    {
        matches!(self, PropertyKey::Str(_))
    }

    /// The interned handle of this key.
    pub fn handle(&self) -> (r: Sym)
        ensures
            r == self.sym(),
    {
        match self {
            PropertyKey::Str(s) => *s,
            PropertyKey::Symbol(s) => *s,
        }
    }
}

/// The attribute set of a property: three independent boolean flags.
///
/// `writable` gates value mutation (data descriptors only), `enumerable`
/// gates visibility during enumeration, `configurable` gates redefinition
/// and removal.
#[derive(Clone, Copy, PartialEq, Eq, Structural, Debug)]
pub struct Attribute {
    pub writable: bool,
    pub enumerable: bool,
    pub configurable: bool,
}

impl Attribute {
    pub fn new(writable: bool, enumerable: bool, configurable: bool) -> (r: Attribute)
        ensures
            r == (Attribute { writable, enumerable, configurable }),
    {
        Attribute { writable, enumerable, configurable }
    }

    /// The attribute set `{writable, enumerable, configurable} = true` that
    /// ordinary assignment and the field shortcuts use.
    pub fn all() -> (r: Attribute)
        ensures
            r == (Attribute { writable: true, enumerable: true, configurable: true }),
    {
        Attribute { writable: true, enumerable: true, configurable: true }
    }
}

/// An input property descriptor: any subset of the six fields may be present.
///
/// This is the shape `DefineOwnProperty` accepts as a patch.  It is never
/// stored: on insertion it is classified into a [`ResidentDescriptor`].
#[derive(Clone, Copy, PartialEq, Eq, Structural, Debug)]
pub struct Property {
    pub value: Option<Value>,
    pub get: Option<Value>,
    pub set: Option<Value>,
    pub writable: Option<bool>,
    pub enumerable: Option<bool>,
    pub configurable: Option<bool>,
}

impl Property {
    /// The all-absent descriptor: the "no-op patch".
    pub fn empty() -> (r: Property)
        ensures
            r == Property::spec_empty(),
    {
        Property {
            value: None,
            get: None,
            set: None,
            writable: None,
            enumerable: None,
            configurable: None,
        }
    }

    pub open spec fn spec_empty() -> Property {
        Property {
            value: None,
            get: None,
            set: None,
            writable: None,
            enumerable: None,
            configurable: None,
        }
    }

    /// A data descriptor input carrying `value` and all three attributes.
    pub fn data_descriptor(value: Value, attribute: Attribute) -> (r: Property)
        ensures
            r == Property::spec_data_descriptor(value, attribute),
    {
        Property {
            value: Some(value),
            get: None,
            set: None,
            writable: Some(attribute.writable),
            enumerable: Some(attribute.enumerable),
            configurable: Some(attribute.configurable),
        }
    }

    pub open spec fn spec_data_descriptor(value: Value, attribute: Attribute) -> Property {
        Property {
            value: Some(value),
            get: None,
            set: None,
            writable: Some(attribute.writable),
            enumerable: Some(attribute.enumerable),
            configurable: Some(attribute.configurable),
        }
    }

    pub open spec fn spec_is_empty(&self) -> bool {
        self.value is None && self.get is None && self.set is None && self.writable is None
            && self.enumerable is None && self.configurable is None
    }

    /// True when every field is absent: such an input is the no-op patch.
    #[verifier::when_used_as_spec(spec_is_empty)]
    pub fn is_empty(&self) -> (r: bool)
        ensures
            r == self.spec_is_empty(),
    {
        self.value.is_none() && self.get.is_none() && self.set.is_none()
            && self.writable.is_none() && self.enumerable.is_none()
            && self.configurable.is_none()
    }

    pub open spec fn spec_is_data_descriptor(&self) -> bool {
        self.value is Some || self.writable is Some
    }

    /// True when the input carries a value or a writable flag: it patches the
    /// data side of a property.
    #[verifier::when_used_as_spec(spec_is_data_descriptor)]
    pub fn is_data_descriptor(&self) -> (r: bool)
        ensures
            r == self.spec_is_data_descriptor(),
    {
        self.value.is_some() || self.writable.is_some()
    }

    pub open spec fn spec_is_accessor_descriptor(&self) -> bool {
        self.get is Some || self.set is Some
    }

    /// True when the input carries a getter or a setter.
    #[verifier::when_used_as_spec(spec_is_accessor_descriptor)]
    pub fn is_accessor_descriptor(&self) -> (r: bool)
        ensures
            r == self.spec_is_accessor_descriptor(),
    {
        self.get.is_some() || self.set.is_some()
    }

    pub open spec fn spec_is_generic_descriptor(&self) -> bool {
        !self.spec_is_data_descriptor() && !self.spec_is_accessor_descriptor()
    }

    /// True when the input is neither a data nor an accessor patch: it can
    /// only carry attribute flags.
    #[verifier::when_used_as_spec(spec_is_generic_descriptor)]
    pub fn is_generic_descriptor(&self) -> (r: bool)
        ensures
            r == self.spec_is_generic_descriptor(),
    {
        !self.is_data_descriptor() && !self.is_accessor_descriptor()
    }

    pub open spec fn spec_writable_or(&self, default: bool) -> bool {
        match self.writable {
            Some(w) => w,
            None => default,
        }
    }

    /// The writable flag, or `default` where it is absent.
    #[verifier::when_used_as_spec(spec_writable_or)]
    pub fn writable_or(&self, default: bool) -> (r: bool)
        ensures
            r == self.spec_writable_or(default),
    {
        match self.writable {
            Some(w) => w,
            None => default,
        }
    }

    pub open spec fn spec_enumerable_or(&self, default: bool) -> bool {
        match self.enumerable {
            Some(e) => e,
            None => default,
        }
    }

    /// The enumerable flag, or `default` where it is absent.
    #[verifier::when_used_as_spec(spec_enumerable_or)]
    pub fn enumerable_or(&self, default: bool) -> (r: bool)
        ensures
            r == self.spec_enumerable_or(default),
    {
        match self.enumerable {
            Some(e) => e,
            None => default,
        }
    }

    pub open spec fn spec_configurable_or(&self, default: bool) -> bool {
        match self.configurable {
            Some(c) => c,
            None => default,
        }
    }

    /// The configurable flag, or `default` where it is absent.
    #[verifier::when_used_as_spec(spec_configurable_or)]
    pub fn configurable_or(&self, default: bool) -> (r: bool)
        ensures
            r == self.spec_configurable_or(default),
    {
        match self.configurable {
            Some(c) => c,
            None => default,
        }
    }

    /// The same input with its value field replaced.
    pub fn with_value(self, value: Value) -> (r: Property)
        ensures
            r == (Property { value: Some(value), ..self }),
    {
        Property { value: Some(value), ..self }
    }
}

/// A descriptor as it resides in an object's property table: always a data
/// descriptor or an accessor descriptor, never generic.
///
/// Absent accessor fields are stored as `undefined`, matching how the
/// protocol treats a missing getter and an undefined getter alike.
#[derive(Clone, Copy, PartialEq, Eq, Structural, Debug)]
pub enum ResidentDescriptor {
    /// A stored value plus its attribute set.
    Data { value: Value, writable: bool, enumerable: bool, configurable: bool },
    /// A getter/setter pair (each possibly `undefined`) plus the attributes
    /// an accessor supports (`writable` excluded).
    Accessor { get: Value, set: Value, enumerable: bool, configurable: bool },
}

impl ResidentDescriptor {
    pub open spec fn spec_is_data_descriptor(&self) -> bool {
        self is Data
    }

    /// True for data descriptors, false for accessor descriptors.
    #[verifier::when_used_as_spec(spec_is_data_descriptor)]
    pub fn is_data_descriptor(&self) -> (r: bool)
        ensures
            r == self.spec_is_data_descriptor(),
    {
        matches!(self, ResidentDescriptor::Data { .. })
    }

    pub open spec fn spec_configurable(&self) -> bool {
        match *self {
            ResidentDescriptor::Data { configurable, .. } => configurable,
            ResidentDescriptor::Accessor { configurable, .. } => configurable,
        }
    }

    /// The configurable attribute.
    #[verifier::when_used_as_spec(spec_configurable)]
    pub fn configurable(&self) -> (r: bool)
        ensures
            r == self.spec_configurable(),
    {
        match self {
            ResidentDescriptor::Data { configurable, .. } => *configurable,
            ResidentDescriptor::Accessor { configurable, .. } => *configurable,
        }
    }

    pub open spec fn spec_enumerable(&self) -> bool {
        match *self {
            ResidentDescriptor::Data { enumerable, .. } => enumerable,
            ResidentDescriptor::Accessor { enumerable, .. } => enumerable,
        }
    }

    /// The enumerable attribute.
    #[verifier::when_used_as_spec(spec_enumerable)]
    pub fn enumerable(&self) -> (r: bool)
        ensures
            r == self.spec_enumerable(),
    {
        match self {
            ResidentDescriptor::Data { enumerable, .. } => *enumerable,
            ResidentDescriptor::Accessor { enumerable, .. } => *enumerable,
        }
    }

    pub open spec fn spec_writable(&self) -> bool {
        match *self {
            ResidentDescriptor::Data { writable, .. } => writable,
            ResidentDescriptor::Accessor { .. } => false,
        }
    }

    /// The writable attribute; accessor descriptors do not carry one and
    /// report `false`.
    #[verifier::when_used_as_spec(spec_writable)]
    pub fn writable(&self) -> (r: bool)
        ensures
            r == self.spec_writable(),
    {
        match self {
            ResidentDescriptor::Data { writable, .. } => *writable,
            ResidentDescriptor::Accessor { .. } => false,
        }
    }

    /// The fully-populated input shape of this resident descriptor, as
    /// `GetOwnProperty` hands it out.
    pub open spec fn spec_to_property(&self) -> Property {
        match *self {
            ResidentDescriptor::Data { value, writable, enumerable, configurable } => Property {
                value: Some(value),
                get: None,
                set: None,
                writable: Some(writable),
                enumerable: Some(enumerable),
                configurable: Some(configurable),
            },
            ResidentDescriptor::Accessor { get, set, enumerable, configurable } => Property {
                value: None,
                get: Some(get),
                set: Some(set),
                writable: None,
                enumerable: Some(enumerable),
                configurable: Some(configurable),
            },
        }
    }

    /// See [`Self::spec_to_property`].
    #[verifier::when_used_as_spec(spec_to_property)]
    pub fn to_property(&self) -> (r: Property)
        ensures
            r == self.spec_to_property(),
    {
        match self {
            ResidentDescriptor::Data { value, writable, enumerable, configurable } => Property {
                value: Some(*value),
                get: None,
                set: None,
                writable: Some(*writable),
                enumerable: Some(*enumerable),
                configurable: Some(*configurable),
            },
            ResidentDescriptor::Accessor { get, set, enumerable, configurable } => Property {
                value: None,
                get: Some(*get),
                set: Some(*set),
                writable: None,
                enumerable: Some(*enumerable),
                configurable: Some(*configurable),
            },
        }
    }
}

/// Classification of an input descriptor into the resident shape.
///
/// An input carrying a getter or setter becomes an accessor descriptor; any
/// other input becomes a data descriptor, an all-absent one defaulting to a
/// data descriptor with an `undefined` value.  Absent fields default to
/// `undefined` (value, getter, setter) and `false` (attributes).
pub open spec fn spec_classify(desc: &Property) -> ResidentDescriptor {
    if desc.spec_is_accessor_descriptor() {
        ResidentDescriptor::Accessor {
            get: match desc.get {
                Some(g) => g,
                None => Value::Undefined,
            },
            set: match desc.set {
                Some(s) => s,
                None => Value::Undefined,
            },
            enumerable: desc.spec_enumerable_or(false),
            configurable: desc.spec_configurable_or(false),
        }
    } else {
        ResidentDescriptor::Data {
            value: match desc.value {
                Some(v) => v,
                None => Value::Undefined,
            },
            writable: desc.spec_writable_or(false),
            enumerable: desc.spec_enumerable_or(false),
            configurable: desc.spec_configurable_or(false),
        }
    }
}

/// See [`spec_classify`].
#[verifier::when_used_as_spec(spec_classify)]
pub fn classify(desc: &Property) -> (r: ResidentDescriptor)
    ensures
        r == spec_classify(desc),
{
    if desc.is_accessor_descriptor() {
        ResidentDescriptor::Accessor {
            get: match desc.get {
                Some(g) => g,
                None => Value::Undefined,
            },
            set: match desc.set {
                Some(s) => s,
                None => Value::Undefined,
            },
            enumerable: desc.enumerable_or(false),
            configurable: desc.configurable_or(false),
        }
    } else {
        ResidentDescriptor::Data {
            value: match desc.value {
                Some(v) => v,
                None => Value::Undefined,
            },
            writable: desc.writable_or(false),
            enumerable: desc.enumerable_or(false),
            configurable: desc.configurable_or(false),
        }
    }
}

/// The outcome of reconciling an input descriptor against the resident
/// descriptor already stored under the same key.
#[derive(Clone, Copy, PartialEq, Eq, Structural, Debug)]
pub enum Reconciled {
    /// The patch is rejected; the table must not change.
    Rejected,
    /// The patch succeeds without any mutation.
    Unchanged,
    /// The patch succeeds and the resident descriptor is replaced.
    Updated(ResidentDescriptor),
}

/// The reconciliation rules `DefineOwnProperty` applies when a resident
/// descriptor already exists under the key.  Deterministic branch order:
///
/// 1. An all-absent input succeeds without mutation.
/// 2. A non-configurable resident rejects an input requesting
///    `configurable = true`, and an input whose *present* enumerable flag
///    differs from the resident's.
/// 3. A generic input (attributes only) overwrites: the classified input
///    becomes the new resident descriptor.
/// 4. An input whose kind (data vs accessor) differs from the resident's is
///    rejected if the resident is non-configurable; otherwise the classified
///    input replaces it.
/// 5. Data on data: a resident that is both non-configurable and
///    non-writable rejects an input requesting `writable = true` or
///    supplying a value that differs (same-value comparison) from the
///    stored one, and otherwise succeeds without mutation; any other data
///    resident is overwritten by the classified input.
/// 6. Accessor on accessor: a non-configurable resident rejects an input
///    supplying a setter or getter that differs (same-value comparison)
///    from the stored one; in every other case the patch succeeds without
///    mutation.
pub open spec fn spec_reconcile(cur: &ResidentDescriptor, desc: &Property) -> Reconciled {
    if desc.spec_is_empty() {
        Reconciled::Unchanged
    } else if !cur.spec_configurable() && desc.spec_configurable_or(false) {
        Reconciled::Rejected
    } else if !cur.spec_configurable() && desc.enumerable is Some && desc.spec_enumerable_or(false)
        != cur.spec_enumerable() {
        Reconciled::Rejected
    } else if desc.spec_is_generic_descriptor() {
        Reconciled::Updated(spec_classify(&desc))
    } else if cur.spec_is_data_descriptor() != desc.spec_is_data_descriptor() {
        if !cur.spec_configurable() {
            Reconciled::Rejected
        } else {
            Reconciled::Updated(spec_classify(&desc))
        }
    } else if cur is Data && desc.spec_is_data_descriptor() {
        if !cur.spec_configurable() && !cur.spec_writable() {
            if desc.spec_writable_or(false) {
                Reconciled::Rejected
            } else if desc.value is Some && desc.value != Some(cur->Data_value) {
                Reconciled::Rejected
            } else {
                Reconciled::Unchanged
            }
        } else {
            Reconciled::Updated(spec_classify(&desc))
        }
    } else {
        if !cur.spec_configurable() {
            if desc.set is Some && desc.set != Some(cur->Accessor_set) {
                Reconciled::Rejected
            } else if desc.get is Some && desc.get != Some(cur->Accessor_get) {
                Reconciled::Rejected
            } else {
                Reconciled::Unchanged
            }
        } else {
            Reconciled::Unchanged
        }
    }
}

/// See [`spec_reconcile`].
#[verifier::when_used_as_spec(spec_reconcile)]
pub fn reconcile(cur: &ResidentDescriptor, desc: &Property) -> (r: Reconciled)
    ensures
        r == spec_reconcile(cur, desc),
{
    if desc.is_empty() {
        return Reconciled::Unchanged;
    }
    if !cur.configurable() {
        if desc.configurable_or(false) {
            return Reconciled::Rejected;
        }
        if desc.enumerable.is_some() && desc.enumerable_or(false) != cur.enumerable() {
            return Reconciled::Rejected;
        }
    }
    if desc.is_generic_descriptor() {
        return Reconciled::Updated(classify(desc));
    }
    if cur.is_data_descriptor() != desc.is_data_descriptor() {
        if !cur.configurable() {
            return Reconciled::Rejected;
        }
        return Reconciled::Updated(classify(desc));
    }
    match cur {
        ResidentDescriptor::Data { value, writable, configurable, .. } => {
            if !*configurable && !*writable {
                if desc.writable_or(false) {
                    return Reconciled::Rejected;
                }
                if let Some(v) = desc.value {
                    if !crate::value::same_value(&v, value) {
                        return Reconciled::Rejected;
                    }
                }
                Reconciled::Unchanged
            } else {
                Reconciled::Updated(classify(desc))
            }
        },
        ResidentDescriptor::Accessor { get, set, configurable, .. } => {
            if !*configurable {
                if let Some(s) = desc.set {
                    if !crate::value::same_value(&s, set) {
                        return Reconciled::Rejected;
                    }
                }
                if let Some(g) = desc.get {
                    if !crate::value::same_value(&g, get) {
                        return Reconciled::Rejected;
                    }
                }
            }
            Reconciled::Unchanged
        },
    }
}

} // verus!

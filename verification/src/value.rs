//! The value representation the object model operates on.
//!
//! Strings and symbols are represented by opaque interned handles: the
//! interning service is a collaborator of this core, and two keys are equal
//! exactly when their handles are equal.  Object references are handles into
//! a [`crate::heap::Heap`] arena.

use vstd::prelude::*;

verus! {

/// An opaque handle produced by the interning service.
///
/// Interned strings and interned symbols are both addressed through such
/// handles; two handles compare equal exactly when they denote the same
/// interned entity.
#[derive(Clone, Copy, PartialEq, Eq, Structural, Hash, Debug)]
pub struct Sym {
    pub val: usize,
}

impl Sym {
    pub fn new(val: usize) -> (r: Sym)
        ensures
            r == (Sym { val }),
    {
        Sym { val }
    }
}

/// A language-level value, as far as this core needs to distinguish them.
///
/// `Undefined` is the "absent" sentinel the protocol returns for missing
/// properties.  `Str` and `Symbol` carry interned handles; `Object` carries
/// a handle into the heap arena.  The runtime's rational numbers are a
/// collaborator concern and do not flow through this core; the numbers that
/// do are integers, for which same-value comparison coincides with equality.
#[derive(Clone, Copy, PartialEq, Eq, Structural, Debug)]
pub enum Value {
    /// The `undefined` sentinel.
    Undefined,
    /// The `null` value.
    Null,
    /// A boolean value.
    Boolean(bool),
    /// An integer number.
    Integer(i64),
    /// An interned string.
    Str(Sym),
    /// An interned symbol.
    Symbol(Sym),
    /// A reference to an object record in the heap arena.
    Object(usize),
}

impl Value {
    pub open spec fn spec_is_null(&self) -> bool {
        self is Null
    }

    /// True exactly for the `null` value.
    #[verifier::when_used_as_spec(spec_is_null)]
    pub fn is_null(&self) -> (r: bool)
        ensures
            r == self.spec_is_null(),
    {
        matches!(self, Value::Null)
    }

    pub open spec fn spec_is_undefined(&self) -> bool {
        self is Undefined
    }

    /// True exactly for the `undefined` sentinel.
    #[verifier::when_used_as_spec(spec_is_undefined)]
    pub fn is_undefined(&self) -> (r: bool)
        ensures
            r == self.spec_is_undefined(),
    {
        matches!(self, Value::Undefined)
    }

    pub open spec fn spec_is_object(&self) -> bool {
        self is Object
    }

    /// True exactly for object references.
    #[verifier::when_used_as_spec(spec_is_object)]
    pub fn is_object(&self) -> (r: bool)
        ensures
            r == self.spec_is_object(),
    {
        matches!(self, Value::Object(_))
    }

    /// The heap handle of an object reference.
    pub fn as_object(&self) -> (r: Option<usize>)
        ensures
            match r {
                Some(i) => *self == Value::Object(i),
                None => !self.spec_is_object(),
            },
    {
        match self {
            Value::Object(i) => Some(*i),
            _ => None,
        }
    }

    /// The `undefined` sentinel.
    pub fn undefined() -> (r: Value)
        ensures
            r == Value::Undefined,
    {
        Value::Undefined
    }
}

/// The strict spec-level same-value comparison the reconciliation algorithm
/// uses for every value, getter and setter comparison.
///
/// On the values this core represents — handles, integers, booleans and the
/// two sentinels — same-value comparison coincides with structural equality.
/// (The distinctions it draws beyond ordinary equality concern the runtime's
/// rational numbers, which never flow through this core.)
pub fn same_value(x: &Value, y: &Value) -> (r: bool)
    ensures
        r == (x == y),
{
    x == y
}

} // verus!

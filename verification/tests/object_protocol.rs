//! Tests for the single-object internal methods: DefineOwnProperty
//! reconciliation, Delete, Set, extensibility control and the field
//! shortcuts.

use boa::Attribute;
use boa::Object;
use boa::Property;
use boa::PropertyKey;
use boa::Sym;
use boa::Value;
use boa::value::same_value;
use boa::Reconciled;
use boa::ResidentDescriptor;
use boa::property::classify;
use boa::property::reconcile;

fn str_key(n: usize) -> PropertyKey {
    PropertyKey::Str(Sym::new(n))
}

fn sym_key(n: usize) -> PropertyKey {
    PropertyKey::Symbol(Sym::new(n))
}

fn value_patch(v: Value) -> Property {
    Property {
        value: Some(v),
        ..Property::empty()
    }
}

#[test]
fn fresh_object_is_extensible_and_empty() {
    let o = Object::new();
    assert!(o.is_extensible());
    assert_eq!(o.get_prototype_of(), Value::Null);
    assert_eq!(o.get_own_property(&str_key(1)), None);
}

#[test]
fn define_new_data_property_and_read_it_back() {
    let mut o = Object::new();
    let k = str_key(1);
    let desc = Property::data_descriptor(Value::Integer(1), Attribute::all());
    assert!(o.define_own_property(&k, desc));
    let got = o.get_own_property(&k).expect("property must reside");
    assert_eq!(got.value, Some(Value::Integer(1)));
    assert_eq!(got.writable, Some(true));
    assert_eq!(got.enumerable, Some(true));
    assert_eq!(got.configurable, Some(true));
    assert_eq!(got.get, None);
    assert_eq!(got.set, None);
}

#[test]
fn absent_fields_default_on_first_insertion() {
    let mut o = Object::new();
    let k = str_key(4);
    // A bare value: the attributes default to false.
    assert!(o.define_own_property(&k, value_patch(Value::Integer(9))));
    let got = o.get_own_property(&k).unwrap();
    assert_eq!(got.value, Some(Value::Integer(9)));
    assert_eq!(got.writable, Some(false));
    assert_eq!(got.enumerable, Some(false));
    assert_eq!(got.configurable, Some(false));
    // An all-absent input on a fresh key: a data property with an
    // undefined value.
    let k2 = str_key(5);
    assert!(o.define_own_property(&k2, Property::empty()));
    let got2 = o.get_own_property(&k2).unwrap();
    assert_eq!(got2.value, Some(Value::Undefined));
    assert_eq!(got2.writable, Some(false));
}

#[test]
fn noop_patch_is_idempotent() {
    let mut o = Object::new();
    let k = str_key(2);
    let desc = Property::data_descriptor(Value::Integer(5), Attribute::new(false, true, false));
    assert!(o.define_own_property(&k, desc));
    let before = o.get_own_property(&k);
    assert!(o.define_own_property(&k, Property::empty()));
    let after = o.get_own_property(&k);
    assert_eq!(before, after);
}

#[test]
fn extensibility_gate_blocks_new_keys() {
    let mut o = Object::new();
    assert!(o.prevent_extensions());
    assert!(!o.is_extensible());
    let k = str_key(3);
    let desc = Property::data_descriptor(Value::Integer(1), Attribute::all());
    assert!(!o.define_own_property(&k, desc));
    assert_eq!(o.get_own_property(&k), None);
}

#[test]
fn prevent_extensions_is_idempotent_and_keeps_resident_keys_patchable() {
    let mut o = Object::new();
    let k = str_key(8);
    assert!(o.define_own_property(
        &k,
        Property::data_descriptor(Value::Integer(1), Attribute::all())
    ));
    assert!(o.prevent_extensions());
    assert!(o.prevent_extensions());
    // The resident key can still be redefined: only *new* keys are gated.
    assert!(o.define_own_property(
        &k,
        Property::data_descriptor(Value::Integer(2), Attribute::all())
    ));
    assert_eq!(o.get_field(Sym::new(8)), Some(Value::Integer(2)));
}

#[test]
fn frozen_data_property_rejects_different_value_and_confirms_same() {
    let mut o = Object::new();
    let k = str_key(1);
    let frozen = Property::data_descriptor(Value::Integer(7), Attribute::new(false, false, false));
    assert!(o.define_own_property(&k, frozen));
    // A different value is rejected and the stored value survives.
    assert!(!o.define_own_property(&k, value_patch(Value::Integer(8))));
    assert_eq!(
        o.get_own_property(&k).unwrap().value,
        Some(Value::Integer(7))
    );
    // The same value (same-value comparison) succeeds as a pure
    // confirmation, still without mutation.
    let before = o.get_own_property(&k);
    assert!(o.define_own_property(&k, value_patch(Value::Integer(7))));
    assert_eq!(o.get_own_property(&k), before);
}

#[test]
fn nonconfigurable_rejects_configurable_true_and_enumerable_flip() {
    let mut o = Object::new();
    let k = str_key(1);
    let desc = Property::data_descriptor(Value::Integer(1), Attribute::new(true, true, false));
    assert!(o.define_own_property(&k, desc));
    // Requesting configurable = true is rejected.
    let p1 = Property {
        configurable: Some(true),
        ..Property::empty()
    };
    assert!(!o.define_own_property(&k, p1));
    // A present enumerable flag that differs is rejected.
    let p2 = Property {
        enumerable: Some(false),
        ..Property::empty()
    };
    assert!(!o.define_own_property(&k, p2));
    assert_eq!(
        o.get_own_property(&k).unwrap().value,
        Some(Value::Integer(1))
    );
    // An absent enumerable flag passes the check.
    let p3 = Property {
        writable: Some(true),
        ..Property::empty()
    };
    assert!(o.define_own_property(&k, p3));
}

#[test]
fn kind_conversion_needs_configurability() {
    let mut o = Object::new();
    let frozen_key = str_key(1);
    let loose_key = str_key(2);
    assert!(o.define_own_property(
        &frozen_key,
        Property::data_descriptor(Value::Integer(1), Attribute::new(true, true, false))
    ));
    assert!(o.define_own_property(
        &loose_key,
        Property::data_descriptor(Value::Integer(2), Attribute::new(true, true, true))
    ));
    let accessor_patch = Property {
        get: Some(Value::Object(0)),
        ..Property::empty()
    };
    // Non-configurable: conversion from data to accessor is rejected.
    assert!(!o.define_own_property(&frozen_key, accessor_patch));
    assert_eq!(
        o.get_own_property(&frozen_key).unwrap().value,
        Some(Value::Integer(1))
    );
    // Configurable: the classified input replaces the resident descriptor.
    assert!(o.define_own_property(&loose_key, accessor_patch));
    let got = o.get_own_property(&loose_key).unwrap();
    assert_eq!(got.value, None);
    assert_eq!(got.get, Some(Value::Object(0)));
    assert_eq!(got.set, Some(Value::Undefined));
    assert_eq!(got.configurable, Some(false));
}

#[test]
fn accessor_on_accessor_never_mutates() {
    let mut o = Object::new();
    let k = str_key(1);
    let first = Property {
        get: Some(Value::Object(1)),
        set: Some(Value::Object(2)),
        configurable: Some(true),
        ..Property::empty()
    };
    assert!(o.define_own_property(&k, first));
    // Even on a configurable accessor, an accessor patch succeeds without
    // replacing anything.
    let second = Property {
        get: Some(Value::Object(3)),
        ..Property::empty()
    };
    assert!(o.define_own_property(&k, second));
    let got = o.get_own_property(&k).unwrap();
    assert_eq!(got.get, Some(Value::Object(1)));
    assert_eq!(got.set, Some(Value::Object(2)));
}

#[test]
fn nonconfigurable_accessor_rejects_conflicting_getter_or_setter() {
    let mut o = Object::new();
    let k = str_key(1);
    let first = Property {
        get: Some(Value::Object(1)),
        set: Some(Value::Object(2)),
        ..Property::empty()
    };
    assert!(o.define_own_property(&k, first));
    let conflicting_setter = Property {
        set: Some(Value::Object(9)),
        ..Property::empty()
    };
    assert!(!o.define_own_property(&k, conflicting_setter));
    let conflicting_getter = Property {
        get: Some(Value::Object(9)),
        ..Property::empty()
    };
    assert!(!o.define_own_property(&k, conflicting_getter));
    // Supplying exactly the stored pair is a pure confirmation.
    assert!(o.define_own_property(&k, first));
    let got = o.get_own_property(&k).unwrap();
    assert_eq!(got.get, Some(Value::Object(1)));
    assert_eq!(got.set, Some(Value::Object(2)));
}

#[test]
fn delete_semantics() {
    let mut o = Object::new();
    let absent = str_key(10);
    // Deleting an absent key is a no-op success.
    assert!(o.delete(&absent));
    // A configurable property is removed.
    let k1 = str_key(11);
    assert!(o.define_own_property(
        &k1,
        Property::data_descriptor(Value::Integer(1), Attribute::new(true, true, true))
    ));
    assert!(o.delete(&k1));
    assert_eq!(o.get_own_property(&k1), None);
    // A non-configurable property is protected for good.
    let k2 = str_key(12);
    assert!(o.define_own_property(
        &k2,
        Property::data_descriptor(Value::Integer(2), Attribute::new(true, true, false))
    ));
    assert!(!o.delete(&k2));
    assert_eq!(
        o.get_own_property(&k2).unwrap().value,
        Some(Value::Integer(2))
    );
}

#[test]
fn set_creates_writes_and_respects_writability() {
    let mut o = Object::new();
    let k = str_key(1);
    // Assignment to a fresh key creates a data property with all
    // attributes true.
    assert!(o.set(&k, Value::Integer(1)));
    let got = o.get_own_property(&k).unwrap();
    assert_eq!(got.value, Some(Value::Integer(1)));
    assert_eq!(got.writable, Some(true));
    assert_eq!(got.enumerable, Some(true));
    assert_eq!(got.configurable, Some(true));
    // Assignment to a writable property keeps the attributes.
    let k2 = str_key(2);
    assert!(o.define_own_property(
        &k2,
        Property::data_descriptor(Value::Integer(5), Attribute::new(true, false, false))
    ));
    assert!(o.set(&k2, Value::Integer(6)));
    let got2 = o.get_own_property(&k2).unwrap();
    assert_eq!(got2.value, Some(Value::Integer(6)));
    assert_eq!(got2.enumerable, Some(false));
    assert_eq!(got2.configurable, Some(false));
    // Assignment to a non-writable property fails without mutation.
    let k3 = str_key(3);
    assert!(o.define_own_property(
        &k3,
        Property::data_descriptor(Value::Integer(7), Attribute::new(false, true, true))
    ));
    assert!(!o.set(&k3, Value::Integer(8)));
    assert_eq!(
        o.get_own_property(&k3).unwrap().value,
        Some(Value::Integer(7))
    );
}

#[test]
fn set_fails_on_fresh_key_of_nonextensible_object() {
    let mut o = Object::new();
    assert!(o.prevent_extensions());
    let k = str_key(1);
    assert!(!o.set(&k, Value::Integer(1)));
    assert_eq!(o.get_own_property(&k), None);
}

#[test]
fn set_fails_on_setterless_accessor() {
    let mut o = Object::new();
    let k = str_key(1);
    let getter_only = Property {
        get: Some(Value::Object(1)),
        configurable: Some(true),
        ..Property::empty()
    };
    assert!(o.define_own_property(&k, getter_only));
    assert!(!o.set(&k, Value::Integer(1)));
    let got = o.get_own_property(&k).unwrap();
    assert_eq!(got.get, Some(Value::Object(1)));
    assert_eq!(got.value, None);
}

#[test]
fn string_and_symbol_keys_are_disjoint_namespaces() {
    let mut o = Object::new();
    let sk = str_key(1);
    let yk = sym_key(1);
    assert!(o.define_own_property(
        &sk,
        Property::data_descriptor(Value::Integer(10), Attribute::all())
    ));
    assert_eq!(o.get_own_property(&yk), None);
    assert!(o.define_own_property(
        &yk,
        Property::data_descriptor(Value::Integer(20), Attribute::all())
    ));
    assert_eq!(
        o.get_own_property(&sk).unwrap().value,
        Some(Value::Integer(10))
    );
    assert_eq!(
        o.get_own_property(&yk).unwrap().value,
        Some(Value::Integer(20))
    );
    assert!(o.delete(&sk));
    assert_eq!(o.get_own_property(&sk), None);
    assert_eq!(
        o.get_own_property(&yk).unwrap().value,
        Some(Value::Integer(20))
    );
}

#[test]
fn field_shortcuts() {
    let mut o = Object::new();
    let name = Sym::new(42);
    assert_eq!(o.get_field(name), None);
    assert_eq!(o.insert_field(name, Value::Integer(1)), None);
    assert_eq!(o.get_field(name), Some(Value::Integer(1)));
    // A second insertion returns the previous resident descriptor and
    // bypasses writability checks by design.
    let prev = o.insert_field(name, Value::Integer(2));
    assert!(prev.is_some());
    assert_eq!(o.get_field(name), Some(Value::Integer(2)));
    // An accessor property yields no field value.
    let k = str_key(43);
    let acc = Property {
        get: Some(Value::Object(1)),
        ..Property::empty()
    };
    assert!(o.define_own_property(&k, acc));
    assert_eq!(o.get_field(Sym::new(43)), None);
}

#[test]
fn same_value_distinguishes_variants_and_handles() {
    assert!(same_value(&Value::Undefined, &Value::Undefined));
    assert!(same_value(&Value::Null, &Value::Null));
    assert!(!same_value(&Value::Null, &Value::Undefined));
    assert!(same_value(&Value::Integer(3), &Value::Integer(3)));
    assert!(!same_value(&Value::Integer(3), &Value::Integer(4)));
    assert!(same_value(&Value::Str(Sym::new(1)), &Value::Str(Sym::new(1))));
    assert!(!same_value(
        &Value::Str(Sym::new(1)),
        &Value::Symbol(Sym::new(1))
    ));
    assert!(!same_value(&Value::Object(1), &Value::Object(2)));
    assert!(same_value(&Value::Boolean(true), &Value::Boolean(true)));
    assert!(!same_value(&Value::Boolean(true), &Value::Boolean(false)));
}

#[test]
fn descriptor_kind_predicates() {
    let data = Property {
        value: Some(Value::Integer(1)),
        ..Property::empty()
    };
    assert!(data.is_data_descriptor());
    assert!(!data.is_accessor_descriptor());
    assert!(!data.is_generic_descriptor());
    let writable_only = Property {
        writable: Some(true),
        ..Property::empty()
    };
    assert!(writable_only.is_data_descriptor());
    let accessor = Property {
        set: Some(Value::Object(1)),
        ..Property::empty()
    };
    assert!(accessor.is_accessor_descriptor());
    assert!(!accessor.is_data_descriptor());
    let generic = Property {
        enumerable: Some(true),
        ..Property::empty()
    };
    assert!(generic.is_generic_descriptor());
    assert!(Property::empty().is_empty());
    assert!(!generic.is_empty());
}

#[test]
fn attribute_defaults_through_or_accessors() {
    let p = Property::empty();
    assert!(!p.writable_or(false));
    assert!(p.writable_or(true));
    assert!(!p.enumerable_or(false));
    assert!(!p.configurable_or(false));
    let q = Property {
        writable: Some(true),
        configurable: Some(false),
        ..Property::empty()
    };
    assert!(q.writable_or(false));
    assert!(!q.configurable_or(true));
}

#[test]
fn own_keys_keep_stable_insertion_order() {
    let mut o = Object::new();
    for n in [3usize, 1, 2] {
        assert!(o.define_own_property(
            &str_key(n),
            Property::data_descriptor(Value::Integer(n as i64), Attribute::all())
        ));
    }
    let keys: Vec<usize> = o.own_string_keys().iter().map(|s| s.val).collect();
    assert_eq!(keys, vec![3, 1, 2]);
    // Redefinition keeps the position.
    assert!(o.define_own_property(
        &str_key(1),
        Property::data_descriptor(Value::Integer(9), Attribute::all())
    ));
    let keys: Vec<usize> = o.own_string_keys().iter().map(|s| s.val).collect();
    assert_eq!(keys, vec![3, 1, 2]);
    // Deletion closes the gap; re-adding appends at the end.
    assert!(o.delete(&str_key(1)));
    assert!(o.define_own_property(
        &str_key(1),
        Property::data_descriptor(Value::Integer(1), Attribute::all())
    ));
    let keys: Vec<usize> = o.own_string_keys().iter().map(|s| s.val).collect();
    assert_eq!(keys, vec![3, 2, 1]);
    // The symbol table is untouched by all of this.
    assert!(o.own_symbol_keys().is_empty());
    assert!(o.define_own_property(
        &sym_key(7),
        Property::data_descriptor(Value::Integer(7), Attribute::all())
    ));
    let symbol_keys: Vec<usize> = o.own_symbol_keys().iter().map(|s| s.val).collect();
    assert_eq!(symbol_keys, vec![7]);
}

#[test]
fn reconcile_outcomes_directly() {
    let cur = classify(&Property::data_descriptor(
        Value::Integer(1),
        Attribute::all(),
    ));
    assert!(matches!(
        reconcile(&cur, &Property::empty()),
        Reconciled::Unchanged
    ));
    match reconcile(&cur, &value_patch(Value::Integer(2))) {
        Reconciled::Updated(ResidentDescriptor::Data { value, .. }) => {
            assert_eq!(value, Value::Integer(2));
        }
        other => panic!("expected a replacement, got {:?}", other),
    }
    let frozen = classify(&Property::data_descriptor(
        Value::Integer(1),
        Attribute::new(false, false, false),
    ));
    assert!(matches!(
        reconcile(&frozen, &value_patch(Value::Integer(2))),
        Reconciled::Rejected
    ));
    assert!(matches!(
        reconcile(&frozen, &value_patch(Value::Integer(1))),
        Reconciled::Unchanged
    ));
}

#[test]
fn classify_defaults_generic_input_to_data_with_undefined() {
    let generic = Property {
        enumerable: Some(true),
        ..Property::empty()
    };
    match classify(&generic) {
        ResidentDescriptor::Data {
            value,
            writable,
            enumerable,
            configurable,
        } => {
            assert_eq!(value, Value::Undefined);
            assert!(!writable);
            assert!(enumerable);
            assert!(!configurable);
        }
        other => panic!("generic inputs classify as data, got {:?}", other),
    }
}

#[test]
fn generic_patch_on_configurable_data_property_overwrites() {
    // A generic (attributes-only) patch falls through to the completion
    // step: the classified input replaces the resident descriptor, so the
    // stored value resets to undefined and absent attributes to false.
    let mut o = Object::new();
    let k = str_key(1);
    assert!(o.define_own_property(
        &k,
        Property::data_descriptor(Value::Integer(7), Attribute::all())
    ));
    let patch = Property {
        enumerable: Some(true),
        ..Property::empty()
    };
    assert!(o.define_own_property(&k, patch));
    let got = o.get_own_property(&k).unwrap();
    assert_eq!(got.value, Some(Value::Undefined));
    assert_eq!(got.writable, Some(false));
    assert_eq!(got.enumerable, Some(true));
    assert_eq!(got.configurable, Some(false));
}

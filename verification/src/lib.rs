//! The object model at the heart of a prototype-based language runtime.
//!
//! Every observable behaviour of the language — property access, inheritance,
//! mutation, deletion, extensibility control — goes through the fixed protocol
//! of internal methods defined here: `IsExtensible`, `PreventExtensions`,
//! `GetPrototypeOf`, `SetPrototypeOf`, `HasProperty`, `GetOwnProperty`,
//! `DefineOwnProperty`, `Get`, `Set` and `Delete`.
//!
//! The operations that touch a single object record live on [`Object`];
//! the operations that traverse prototype links live on [`Heap`], an arena
//! in which every object reference is an index.  The heap maintains the
//! structural invariant that prototype chains are finite and acyclic, so
//! inherited lookup always terminates.

pub mod chain;
pub mod heap;
pub mod identifier;
pub mod object;
pub mod property;
pub mod value;

pub use heap::Heap;
pub use identifier::Identifier;
pub use object::ObjView;
pub use object::Object;
pub use property::Attribute;
pub use property::Property;
pub use property::PropertyKey;
pub use property::Reconciled;
pub use property::ResidentDescriptor;
pub use value::Sym;
pub use value::Value;

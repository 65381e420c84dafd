//! The schema side: type definitions and the read-only registry that
//! resolves a type id to its definition.

use vstd::prelude::*;

use crate::error::EncodeError;

verus! {

/// Identifies a type definition inside a [`Registry`].
pub type TypeId = u32;

/// The primitive kinds a schema can name. Only `Bool`, `Str` and the
/// unsigned integer kinds have a defined encoding; `Char` and the signed
/// kinds are reserved and always fail with `UnsupportedType`.
#[derive(Clone, Copy, Debug, PartialEq, Eq, Structural)]
pub enum PrimitiveKind {
    Bool,
    Char,
    Str,
    U8,
    U16,
    U32,
    U64,
    U128,
    I8,
    I16,
    I32,
    I64,
    I128,
}

/// One field of a composite type: an optional name and the id of the
/// field's type. The name is carried for callers and diagnostics only;
/// encoding is purely positional.
pub struct Field {
    pub name: Option<String>,
    pub ty: TypeId,
}

/// A schema node describing the shape of one value type.
pub enum TypeDef {
    /// A primitive leaf.
    Primitive(PrimitiveKind),
    /// A homogeneous sequence of the referenced element type; the element
    /// count comes from the value, not from the schema.
    Array(TypeId),
    /// An ordered list of fields; field order is authoritative.
    Composite(Vec<Field>),
    /// Any type definition variant this encoder does not implement
    /// (enums, tuples, compact wrappers, ...); encoding one is a hard
    /// `UnsupportedType` failure.
    Other,
}

/// What a registry lookup yields: the definition at `id`, if any.
pub open spec fn resolve_spec(reg: Seq<TypeDef>, id: TypeId) -> Option<TypeDef> {
    if (id as int) < reg.len() {
        Some(reg[id as int])
    } else {
        None
    }
}

/// An immutable mapping from type id to type definition. Ids are assigned
/// densely, in registration order.
pub struct Registry {
    types: Vec<TypeDef>,
}

impl View for Registry {
    type V = Seq<TypeDef>;

    closed spec fn view(&self) -> Seq<TypeDef> {
        self.types@
    }
}

impl Registry {
    /// An empty registry.
    pub fn new() -> (r: Registry)
        ensures
            r@ == Seq::<TypeDef>::empty(),
    {
        Registry { types: Vec::new() }
    }

    /// Adds a type definition and returns the id under which it can be
    /// resolved from now on.
    pub fn register(&mut self, td: TypeDef) -> (id: TypeId)
        requires
            old(self)@.len() < TypeId::MAX,
        ensures
            final(self)@ == old(self)@.push(td),
            id as int == old(self)@.len(),
    {
        let id = self.types.len() as TypeId;
        self.types.push(td);
        id
    }

    /// How many type definitions are registered.
    pub fn len(&self) -> (n: usize)
        ensures
            n == self@.len(),
    {
        self.types.len()
    }

    /// Looks the id up; fails with `UnknownType` if it was never assigned.
    pub fn resolve(&self, id: TypeId) -> (r: Result<&TypeDef, EncodeError>)
        ensures
            match r {
                Ok(td) => resolve_spec(self@, id) == Some(*td),
                Err(e) => resolve_spec(self@, id) is None && e == EncodeError::UnknownType,
            },
    {
        if (id as usize) < self.types.len() {
            Ok(&self.types[id as usize])
        } else {
            Err(EncodeError::UnknownType)
        }
    }
}

} // verus!

//! The type names the bridge and the managed runtime agree on.

use vstd::prelude::*;
use vstd::string::StringExecFns;
use crate::marshal::{Atom, AtomModel, ObjectData, ObjectModel, Primitive};

verus! {

/// The name of the managed string class.
pub open spec fn string_class() -> Seq<char> {
    "java.lang.String"@
}

/// The name of the managed list interface.
pub open spec fn list_class() -> Seq<char> {
    "java.util.List"@
}

/// The name of the type of a call that returns nothing, and of null.
pub open spec fn void_type() -> Seq<char> {
    "void"@
}

/// The name of the unboxed type of a scalar.
pub open spec fn primitive_type(p: Primitive) -> Seq<char> {
    match p {
        Primitive::Bool(_) => "boolean"@,
        Primitive::Byte(_) => "byte"@,
        Primitive::Short(_) => "short"@,
        Primitive::Int(_) => "int"@,
        Primitive::Long(_) => "long"@,
        Primitive::Float(_) => "float"@,
        Primitive::Double(_) => "double"@,
        Primitive::Char(_) => "char"@,
    }
}

/// The name of the class that boxes a scalar.
pub open spec fn boxed_class(p: Primitive) -> Seq<char> {
    match p {
        Primitive::Bool(_) => "java.lang.Boolean"@,
        Primitive::Byte(_) => "java.lang.Byte"@,
        Primitive::Short(_) => "java.lang.Short"@,
        Primitive::Int(_) => "java.lang.Integer"@,
        Primitive::Long(_) => "java.lang.Long"@,
        Primitive::Float(_) => "java.lang.Float"@,
        Primitive::Double(_) => "java.lang.Double"@,
        Primitive::Char(_) => "java.lang.Character"@,
    }
}

/// The name of the array type with the given element type.
pub open spec fn array_of(element: Seq<char>) -> Seq<char> {
    element + "[]"@
}

/// The class of a managed value that is not null.
pub open spec fn atom_class(a: AtomModel) -> Option<Seq<char>> {
    match a {
        AtomModel::Null => None,
        AtomModel::Scalar(p) => Some(boxed_class(p)),
        AtomModel::Text(_) => Some(string_class()),
    }
}

/// The class of an object holding `data` that a member declared to return
/// `declared` hands out: a string or a boxed scalar has its own class, null
/// has the void type, and every other object has the declared class.
pub open spec fn class_of_data(data: ObjectModel, declared: Seq<char>) -> Seq<char> {
    match data {
        ObjectModel::Single(AtomModel::Null) => void_type(),
        ObjectModel::Single(AtomModel::Scalar(p)) => boxed_class(p),
        ObjectModel::Single(AtomModel::Text(_)) => string_class(),
        _ => declared,
    }
}

/// Exec twin of [`primitive_type`].
pub fn primitive_type_name(p: &Primitive) -> (s: String)
    ensures
        s@ == primitive_type(*p),
{
    match p {
        Primitive::Bool(_) => String::from_str("boolean"),
        Primitive::Byte(_) => String::from_str("byte"),
        Primitive::Short(_) => String::from_str("short"),
        Primitive::Int(_) => String::from_str("int"),
        Primitive::Long(_) => String::from_str("long"),
        Primitive::Float(_) => String::from_str("float"),
        Primitive::Double(_) => String::from_str("double"),
        Primitive::Char(_) => String::from_str("char"),
    }
}

/// Exec twin of [`boxed_class`].
pub fn boxed_class_name(p: &Primitive) -> (s: String)
    ensures
        s@ == boxed_class(*p),
{
    match p {
        Primitive::Bool(_) => String::from_str("java.lang.Boolean"),
        Primitive::Byte(_) => String::from_str("java.lang.Byte"),
        Primitive::Short(_) => String::from_str("java.lang.Short"),
        Primitive::Int(_) => String::from_str("java.lang.Integer"),
        Primitive::Long(_) => String::from_str("java.lang.Long"),
        Primitive::Float(_) => String::from_str("java.lang.Float"),
        Primitive::Double(_) => String::from_str("java.lang.Double"),
        Primitive::Char(_) => String::from_str("java.lang.Character"),
    }
}

/// Exec twin of [`array_of`].
pub fn array_type_name(element: &String) -> (s: String)
    ensures
        s@ == array_of(element@),
{
    element.clone().concat("[]")
}

/// Exec twin of [`atom_class`].
pub fn atom_class_name(a: &Atom) -> (r: Option<String>)
    ensures
        match r {
            Some(s) => atom_class(a@) == Some(s@),
            None => atom_class(a@).is_none(),
        },
{
    match a {
        Atom::Null => None,
        Atom::Scalar(p) => Some(boxed_class_name(p)),
        Atom::Text(_) => Some(String::from_str("java.lang.String")),
    }
}

/// Exec twin of [`class_of_data`].
pub fn class_name_of_data(data: &ObjectData, declared: &String) -> (s: String)
    ensures
        s@ == class_of_data(data@, declared@),
{
    match data {
        ObjectData::Single(Atom::Null) => String::from_str("void"),
        ObjectData::Single(Atom::Scalar(p)) => boxed_class_name(p),
        ObjectData::Single(Atom::Text(_)) => String::from_str("java.lang.String"),
        _ => declared.clone(),
    }
}

} // verus!

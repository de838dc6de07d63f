//! The host types a managed value can be converted into.

use vstd::prelude::*;
use crate::errors::ErrorKind;
use crate::marshal::{
    Atom,
    atom_to_host,
    atom_to_integer,
    atom_to_scalar,
    atom_to_text,
    AtomModel,
    atoms_model,
    atoms_to_host,
    HostModel,
    ItemModel,
    ItemTarget,
    object_to_host,
    ObjectData,
    ObjectModel,
    Primitive,
    Target,
};

verus! {

/// The bit pattern of a 32-bit floating-point number on the host.
#[derive(Clone, Copy, Debug, PartialEq, Eq, Structural)]
pub struct Float32Bits(pub u32);

/// The bit pattern of a 64-bit floating-point number on the host.
#[derive(Clone, Copy, Debug, PartialEq, Eq, Structural)]
pub struct Float64Bits(pub u64);

/// A host type that one managed value converts into.
pub trait FromItem: Sized {
    /// The target this type is.
    spec fn item_target() -> ItemTarget;

    /// The value as the model sees it.
    spec fn item_model(&self) -> ItemModel;

    /// Converts one managed value.
    fn from_atom(a: &Atom) -> (r: Result<Self, ErrorKind>)
        ensures
            match r {
                Ok(v) => atom_to_host(a@, Self::item_target()) == Ok::<ItemModel, ErrorKind>(
                    v.item_model(),
                ),
                Err(k) => atom_to_host(a@, Self::item_target()) == Err::<ItemModel, ErrorKind>(k),
            },
    ;
}

/// A host type that a managed object converts into.
pub trait FromManaged: Sized {
    /// The target this type is.
    spec fn target() -> Target;

    /// The value as the model sees it.
    spec fn host_model(&self) -> HostModel;

    /// Converts the data of a managed object.
    fn from_object(data: &ObjectData) -> (r: Result<Self, ErrorKind>)
        ensures
            match r {
                Ok(v) => object_to_host(data@, Self::target()) == Ok::<HostModel, ErrorKind>(
                    v.host_model(),
                ),
                Err(k) => object_to_host(data@, Self::target()) == Err::<HostModel, ErrorKind>(k),
            },
    ;
}

/// Converts the data of a managed object that holds one value.
pub fn single<T: FromItem>(data: &ObjectData) -> (r: Result<T, ErrorKind>)
    ensures
        match r {
            Ok(v) => object_to_host(data@, Target::Item(T::item_target())) == Ok::<
                HostModel,
                ErrorKind,
            >(HostModel::Item(v.item_model())),
            Err(k) => object_to_host(data@, Target::Item(T::item_target())) == Err::<
                HostModel,
                ErrorKind,
            >(k),
        },
{
    match data {
        ObjectData::Single(a) => T::from_atom(a),
        _ => Err(ErrorKind::InvalidCast),
    }
}

/// The models of a sequence of host values, position by position.
pub open spec fn items_model<T: FromItem>(items: Seq<T>) -> Seq<ItemModel> {
    Seq::new(items.len(), |i: int| items[i].item_model())
}

/// Converting a prefix that fails makes the whole sequence fail alike.
pub proof fn lemma_atoms_to_host_fails_on(items: Seq<AtomModel>, target: ItemTarget, n: int)
    requires
        0 <= n <= items.len(),
        atoms_to_host(items.take(n), target).is_err(),
    ensures
        atoms_to_host(items, target) == atoms_to_host(items.take(n), target),
    decreases items.len() - n,
{
    if n < items.len() {
        assert(items.take(n + 1).drop_last() =~= items.take(n));
        lemma_atoms_to_host_fails_on(items, target, n + 1);
    } else {
        assert(items.take(n) =~= items);
    }
}

impl<T: FromItem> FromManaged for Vec<T> {
    open spec fn target() -> Target {
        Target::List(T::item_target())
    }

    open spec fn host_model(&self) -> HostModel {
        HostModel::List(items_model(self@))
    }

    fn from_object(data: &ObjectData) -> (r: Result<Vec<T>, ErrorKind>) {
        match data {
            ObjectData::Items(atoms) => {
                let ghost all = atoms_model(atoms@);
                let mut out: Vec<T> = Vec::new();
                let mut i: usize = 0;
                proof {
                    assert(all.take(0) =~= Seq::<AtomModel>::empty());
                    assert(items_model(out@) =~= Seq::<ItemModel>::empty());
                }
                while i < atoms.len()
                    invariant
                        i <= atoms.len(),
                        all == atoms_model(atoms@),
                        data@ == ObjectModel::Items(all),
                        atoms_to_host(all.take(i as int), T::item_target()) == Ok::<
                            Seq<ItemModel>,
                            ErrorKind,
                        >(items_model(out@)),
                    decreases atoms.len() - i,
                {
                    proof {
                        assert(all.take(i as int + 1).drop_last() =~= all.take(i as int));
                        assert(all.take(i as int + 1).last() == atoms@[i as int]@);
                    }
                    match T::from_atom(&atoms[i]) {
                        Err(k) => {
                            proof {
                                assert(atoms_to_host(all.take(i as int + 1), T::item_target())
                                    == Err::<Seq<ItemModel>, ErrorKind>(k));
                                lemma_atoms_to_host_fails_on(all, T::item_target(), i as int + 1);
                            }
                            return Err(k);
                        },
                        Ok(v) => {
                            let ghost before = out@;
                            out.push(v);
                            proof {
                                assert(items_model(out@) =~= items_model(before).push(
                                    v.item_model(),
                                ));
                            }
                        },
                    }
                    i += 1;
                }
                proof {
                    assert(all.take(atoms@.len() as int) =~= all);
                }
                Ok(out)
            },
            ObjectData::Single(Atom::Null) => Err(ErrorKind::NullResult),
            _ => Err(ErrorKind::InvalidCast),
        }
    }
}

impl<T: FromItem> FromManaged for Option<T> {
    open spec fn target() -> Target {
        Target::Optional(T::item_target())
    }

    open spec fn host_model(&self) -> HostModel {
        match self {
            Some(v) => HostModel::Item(v.item_model()),
            None => HostModel::Absent,
        }
    }

    fn from_object(data: &ObjectData) -> (r: Result<Option<T>, ErrorKind>) {
        match data {
            ObjectData::Single(Atom::Null) => Ok(None),
            ObjectData::Single(a) => match T::from_atom(a) {
                Ok(v) => Ok(Some(v)),
                Err(k) => Err(k),
            },
            _ => Err(ErrorKind::InvalidCast),
        }
    }
}

impl FromItem for String {
    open spec fn item_target() -> ItemTarget {
        ItemTarget::Text
    }

    open spec fn item_model(&self) -> ItemModel {
        ItemModel::Text(self@)
    }

    fn from_atom(a: &Atom) -> (r: Result<String, ErrorKind>) {
        atom_to_text(a)
    }
}

impl FromManaged for String {
    open spec fn target() -> Target {
        Target::Item(ItemTarget::Text)
    }

    open spec fn host_model(&self) -> HostModel {
        HostModel::Item(ItemModel::Text(self@))
    }

    fn from_object(data: &ObjectData) -> (r: Result<String, ErrorKind>) {
        single::<String>(data)
    }
}

impl FromItem for bool {
    open spec fn item_target() -> ItemTarget {
        ItemTarget::Bool
    }

    open spec fn item_model(&self) -> ItemModel {
        ItemModel::Bool(*self)
    }

    fn from_atom(a: &Atom) -> (r: Result<bool, ErrorKind>) {
        match atom_to_scalar(a, ItemTarget::Bool) {
            Ok(Primitive::Bool(v)) => Ok(v),
            Ok(_) => Err(ErrorKind::InvalidCast),
            Err(k) => Err(k),
        }
    }
}

impl FromManaged for bool {
    open spec fn target() -> Target {
        Target::Item(ItemTarget::Bool)
    }

    open spec fn host_model(&self) -> HostModel {
        HostModel::Item(ItemModel::Bool(*self))
    }

    fn from_object(data: &ObjectData) -> (r: Result<bool, ErrorKind>) {
        single::<bool>(data)
    }
}

impl FromItem for char {
    open spec fn item_target() -> ItemTarget {
        ItemTarget::Char
    }

    open spec fn item_model(&self) -> ItemModel {
        ItemModel::Char(*self)
    }

    fn from_atom(a: &Atom) -> (r: Result<char, ErrorKind>) {
        match atom_to_scalar(a, ItemTarget::Char) {
            Ok(Primitive::Char(v)) => Ok(v),
            Ok(_) => Err(ErrorKind::InvalidCast),
            Err(k) => Err(k),
        }
    }
}

impl FromManaged for char {
    open spec fn target() -> Target {
        Target::Item(ItemTarget::Char)
    }

    open spec fn host_model(&self) -> HostModel {
        HostModel::Item(ItemModel::Char(*self))
    }

    fn from_object(data: &ObjectData) -> (r: Result<char, ErrorKind>) {
        single::<char>(data)
    }
}

impl FromItem for Float32Bits {
    open spec fn item_target() -> ItemTarget {
        ItemTarget::F32
    }

    open spec fn item_model(&self) -> ItemModel {
        ItemModel::Float(self.0)
    }

    fn from_atom(a: &Atom) -> (r: Result<Float32Bits, ErrorKind>) {
        match atom_to_scalar(a, ItemTarget::F32) {
            Ok(Primitive::Float(v)) => Ok(Float32Bits(v)),
            Ok(_) => Err(ErrorKind::InvalidCast),
            Err(k) => Err(k),
        }
    }
}

impl FromManaged for Float32Bits {
    open spec fn target() -> Target {
        Target::Item(ItemTarget::F32)
    }

    open spec fn host_model(&self) -> HostModel {
        HostModel::Item(ItemModel::Float(self.0))
    }

    fn from_object(data: &ObjectData) -> (r: Result<Float32Bits, ErrorKind>) {
        single::<Float32Bits>(data)
    }
}

impl FromItem for Float64Bits {
    open spec fn item_target() -> ItemTarget {
        ItemTarget::F64
    }

    open spec fn item_model(&self) -> ItemModel {
        ItemModel::Double(self.0)
    }

    fn from_atom(a: &Atom) -> (r: Result<Float64Bits, ErrorKind>) {
        match atom_to_scalar(a, ItemTarget::F64) {
            Ok(Primitive::Double(v)) => Ok(Float64Bits(v)),
            Ok(_) => Err(ErrorKind::InvalidCast),
            Err(k) => Err(k),
        }
    }
}

impl FromManaged for Float64Bits {
    open spec fn target() -> Target {
        Target::Item(ItemTarget::F64)
    }

    open spec fn host_model(&self) -> HostModel {
        HostModel::Item(ItemModel::Double(self.0))
    }

    fn from_object(data: &ObjectData) -> (r: Result<Float64Bits, ErrorKind>) {
        single::<Float64Bits>(data)
    }
}

impl FromItem for i8 {
    open spec fn item_target() -> ItemTarget {
        ItemTarget::I8
    }

    open spec fn item_model(&self) -> ItemModel {
        ItemModel::Int(*self as int)
    }

    fn from_atom(a: &Atom) -> (r: Result<i8, ErrorKind>) {
        match atom_to_integer(a, ItemTarget::I8) {
            Ok(v) => Ok(v as i8),
            Err(k) => Err(k),
        }
    }
}

impl FromManaged for i8 {
    open spec fn target() -> Target {
        Target::Item(ItemTarget::I8)
    }

    open spec fn host_model(&self) -> HostModel {
        HostModel::Item(ItemModel::Int(*self as int))
    }

    fn from_object(data: &ObjectData) -> (r: Result<i8, ErrorKind>) {
        single::<i8>(data)
    }
}

impl FromItem for i16 {
    open spec fn item_target() -> ItemTarget {
        ItemTarget::I16
    }

    open spec fn item_model(&self) -> ItemModel {
        ItemModel::Int(*self as int)
    }

    fn from_atom(a: &Atom) -> (r: Result<i16, ErrorKind>) {
        match atom_to_integer(a, ItemTarget::I16) {
            Ok(v) => Ok(v as i16),
            Err(k) => Err(k),
        }
    }
}

impl FromManaged for i16 {
    open spec fn target() -> Target {
        Target::Item(ItemTarget::I16)
    }

    open spec fn host_model(&self) -> HostModel {
        HostModel::Item(ItemModel::Int(*self as int))
    }

    fn from_object(data: &ObjectData) -> (r: Result<i16, ErrorKind>) {
        single::<i16>(data)
    }
}

impl FromItem for i32 {
    open spec fn item_target() -> ItemTarget {
        ItemTarget::I32
    }

    open spec fn item_model(&self) -> ItemModel {
        ItemModel::Int(*self as int)
    }

    fn from_atom(a: &Atom) -> (r: Result<i32, ErrorKind>) {
        match atom_to_integer(a, ItemTarget::I32) {
            Ok(v) => Ok(v as i32),
            Err(k) => Err(k),
        }
    }
}

impl FromManaged for i32 {
    open spec fn target() -> Target {
        Target::Item(ItemTarget::I32)
    }

    open spec fn host_model(&self) -> HostModel {
        HostModel::Item(ItemModel::Int(*self as int))
    }

    fn from_object(data: &ObjectData) -> (r: Result<i32, ErrorKind>) {
        single::<i32>(data)
    }
}

impl FromItem for i64 {
    open spec fn item_target() -> ItemTarget {
        ItemTarget::I64
    }

    open spec fn item_model(&self) -> ItemModel {
        ItemModel::Int(*self as int)
    }

    fn from_atom(a: &Atom) -> (r: Result<i64, ErrorKind>) {
        atom_to_integer(a, ItemTarget::I64)
    }
}

impl FromManaged for i64 {
    open spec fn target() -> Target {
        Target::Item(ItemTarget::I64)
    }

    open spec fn host_model(&self) -> HostModel {
        HostModel::Item(ItemModel::Int(*self as int))
    }

    fn from_object(data: &ObjectData) -> (r: Result<i64, ErrorKind>) {
        single::<i64>(data)
    }
}

impl FromItem for isize {
    open spec fn item_target() -> ItemTarget {
        ItemTarget::Isize
    }

    open spec fn item_model(&self) -> ItemModel {
        ItemModel::Int(*self as int)
    }

    fn from_atom(a: &Atom) -> (r: Result<isize, ErrorKind>) {
        match atom_to_integer(a, ItemTarget::Isize) {
            Ok(v) => Ok(v as isize),
            Err(k) => Err(k),
        }
    }
}

impl FromManaged for isize {
    open spec fn target() -> Target {
        Target::Item(ItemTarget::Isize)
    }

    open spec fn host_model(&self) -> HostModel {
        HostModel::Item(ItemModel::Int(*self as int))
    }

    fn from_object(data: &ObjectData) -> (r: Result<isize, ErrorKind>) {
        single::<isize>(data)
    }
}

} // verus!

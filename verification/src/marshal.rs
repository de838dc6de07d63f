//! The value marshaling layer: scalars, host values and narrowing-checked
//! conversions between managed values and host-native values.

use vstd::prelude::*;
use crate::errors::ErrorKind;

verus! {

/// A host-native scalar that crosses the boundary as the managed runtime's
/// unboxed primitive. The two floating-point widths are carried by their bit
/// patterns.
#[derive(Clone, Copy, Debug, PartialEq, Eq, Structural)]
pub enum Primitive {
    Bool(bool),
    Byte(i8),
    Short(i16),
    Int(i32),
    Long(i64),
    Float(u32),
    Double(u64),
    Char(char),
}

/// The host types a single managed value can be converted into.
#[derive(Clone, Copy, Debug, PartialEq, Eq, Structural)]
pub enum ItemTarget {
    Bool,
    I8,
    I16,
    I32,
    I64,
    Isize,
    F32,
    F64,
    Char,
    Text,
}

/// The host types `from_wire` supports: one value, one value that may be
/// absent, or a sequence of values.
#[derive(Clone, Copy, Debug, PartialEq, Eq, Structural)]
pub enum Target {
    Item(ItemTarget),
    Optional(ItemTarget),
    List(ItemTarget),
}

/// The mathematical model of one host-native value.
pub enum ItemModel {
    Bool(bool),
    Int(int),
    Float(u32),
    Double(u64),
    Char(char),
    Text(Seq<char>),
}

/// The mathematical model of a host-native value, of the absence of one, or
/// of a sequence of values.
pub enum HostModel {
    Item(ItemModel),
    Absent,
    List(Seq<ItemModel>),
}

impl Primitive {
    /// The integer a managed integral scalar stands for, if it is one.
    pub open spec fn integral(self) -> Option<int> {
        match self {
            Primitive::Byte(v) => Some(v as int),
            Primitive::Short(v) => Some(v as int),
            Primitive::Int(v) => Some(v as int),
            Primitive::Long(v) => Some(v as int),
            _ => None,
        }
    }

    /// The host type that holds this scalar without any conversion.
    pub open spec fn natural_target(self) -> ItemTarget {
        match self {
            Primitive::Bool(_) => ItemTarget::Bool,
            Primitive::Byte(_) => ItemTarget::I8,
            Primitive::Short(_) => ItemTarget::I16,
            Primitive::Int(_) => ItemTarget::I32,
            Primitive::Long(_) => ItemTarget::I64,
            Primitive::Float(_) => ItemTarget::F32,
            Primitive::Double(_) => ItemTarget::F64,
            Primitive::Char(_) => ItemTarget::Char,
        }
    }

    /// The host value this scalar is equal to.
    pub open spec fn model(self) -> ItemModel {
        match self {
            Primitive::Bool(v) => ItemModel::Bool(v),
            Primitive::Byte(v) => ItemModel::Int(v as int),
            Primitive::Short(v) => ItemModel::Int(v as int),
            Primitive::Int(v) => ItemModel::Int(v as int),
            Primitive::Long(v) => ItemModel::Int(v as int),
            Primitive::Float(v) => ItemModel::Float(v),
            Primitive::Double(v) => ItemModel::Double(v),
            Primitive::Char(v) => ItemModel::Char(v),
        }
    }

    /// Exec twin of [`Primitive::integral`], widened to 64 bits.
    pub fn as_integral(&self) -> (r: Option<i64>)
        ensures
            match r {
                Some(v) => self.integral() == Some(v as int),
                None => self.integral().is_none(),
            },
    {
        match self {
            Primitive::Byte(v) => Some(*v as i64),
            Primitive::Short(v) => Some(*v as i64),
            Primitive::Int(v) => Some(*v as i64),
            Primitive::Long(v) => Some(*v),
            _ => None,
        }
    }
}

impl ItemTarget {
    /// Whether the target is one of the host integer types.
    pub open spec fn is_integer(self) -> bool {
        self == ItemTarget::I8 || self == ItemTarget::I16 || self == ItemTarget::I32 || self
            == ItemTarget::I64 || self == ItemTarget::Isize
    }

    /// The least value of an integer target.
    pub open spec fn min(self) -> int
        recommends
            self.is_integer(),
    {
        match self {
            ItemTarget::I8 => i8::MIN as int,
            ItemTarget::I16 => i16::MIN as int,
            ItemTarget::I32 => i32::MIN as int,
            ItemTarget::I64 => i64::MIN as int,
            _ => isize::MIN as int,
        }
    }

    /// The greatest value of an integer target.
    pub open spec fn max(self) -> int
        recommends
            self.is_integer(),
    {
        match self {
            ItemTarget::I8 => i8::MAX as int,
            ItemTarget::I16 => i16::MAX as int,
            ItemTarget::I32 => i32::MAX as int,
            ItemTarget::I64 => i64::MAX as int,
            _ => isize::MAX as int,
        }
    }
}

/// What converting the managed scalar `p` into the host type `target` gives.
///
/// Integers convert between all widths, checked: a value outside the target's
/// range is a `NumericOverflow`. Every other scalar converts to its own host
/// type only, and a mismatch is an `InvalidCast`.
pub open spec fn scalar_to_host(p: Primitive, target: ItemTarget) -> Result<ItemModel, ErrorKind> {
    if target.is_integer() {
        match p.integral() {
            Some(v) => if target.min() <= v <= target.max() {
                Ok(ItemModel::Int(v))
            } else {
                Err(ErrorKind::NumericOverflow)
            },
            None => Err(ErrorKind::InvalidCast),
        }
    } else if p.natural_target() == target {
        Ok(p.model())
    } else {
        Err(ErrorKind::InvalidCast)
    }
}

/// Narrows a managed integer to `i8`, `i16`, `i32`, `i64` or `isize`, checked.
pub fn narrow_integer(v: i64, target: ItemTarget) -> (r: Result<i64, ErrorKind>)
    requires
        target.is_integer(),
    ensures
        r == (if target.min() <= v <= target.max() {
            Ok::<i64, ErrorKind>(v)
        } else {
            Err::<i64, ErrorKind>(ErrorKind::NumericOverflow)
        }),
{
    let fits = match target {
        ItemTarget::I8 => -128 <= v && v <= 127,
        ItemTarget::I16 => -32768 <= v && v <= 32767,
        ItemTarget::I32 => -2147483648 <= v && v <= 2147483647,
        ItemTarget::I64 => true,
        _ => isize::MIN as i64 <= v && v <= isize::MAX as i64,
    };
    if fits {
        Ok(v)
    } else {
        Err(ErrorKind::NumericOverflow)
    }
}

/// Narrowing is checked: a managed integer converts into a host integer type
/// exactly when it lies in that type's range, and is a `NumericOverflow`
/// otherwise; it is never truncated.
pub proof fn lemma_narrowing_is_checked(p: Primitive, target: ItemTarget)
    requires
        p.integral().is_some(),
        target.is_integer(),
    ensures
        target.min() <= p.integral().unwrap() <= target.max() ==> scalar_to_host(p, target) == Ok::<
            ItemModel,
            ErrorKind,
        >(ItemModel::Int(p.integral().unwrap())),
        !(target.min() <= p.integral().unwrap() <= target.max()) ==> scalar_to_host(p, target)
            == Err::<ItemModel, ErrorKind>(ErrorKind::NumericOverflow),
{
}

/// One self-contained managed value: null, a boxed scalar or a string.
#[derive(Debug)]
pub enum Atom {
    Null,
    Scalar(Primitive),
    Text(String),
}

/// The mathematical model of an [`Atom`].
pub enum AtomModel {
    Null,
    Scalar(Primitive),
    Text(Seq<char>),
}

impl View for Atom {
    type V = AtomModel;

    open spec fn view(&self) -> AtomModel {
        match self {
            Atom::Null => AtomModel::Null,
            Atom::Scalar(p) => AtomModel::Scalar(*p),
            Atom::Text(s) => AtomModel::Text(s@),
        }
    }
}

impl Clone for Atom {
    fn clone(&self) -> (r: Atom)
        ensures
            r@ == self@,
    {
        match self {
            Atom::Null => Atom::Null,
            Atom::Scalar(p) => Atom::Scalar(*p),
            Atom::Text(s) => Atom::Text(s.clone()),
        }
    }
}

/// The models of a sequence of atoms, position by position.
pub open spec fn atoms_model(atoms: Seq<Atom>) -> Seq<AtomModel> {
    Seq::new(atoms.len(), |i: int| atoms[i]@)
}

/// Copies a sequence of atoms.
pub fn clone_atoms(atoms: &Vec<Atom>) -> (r: Vec<Atom>)
    ensures
        atoms_model(r@) == atoms_model(atoms@),
{
    let mut out: Vec<Atom> = Vec::new();
    let mut i: usize = 0;
    while i < atoms.len()
        invariant
            i <= atoms.len(),
            out.len() == i,
            forall|j: int| 0 <= j < i ==> out[j]@ == atoms[j]@,
        decreases atoms.len() - i,
    {
        out.push(atoms[i].clone());
        i += 1;
    }
    assert(atoms_model(out@) =~= atoms_model(atoms@));
    out
}

/// What converting one managed value into the host type `target` gives.
///
/// Null cannot be represented by any supported host type and is a
/// `NullResult`; a string converts to the host string only.
pub open spec fn atom_to_host(a: AtomModel, target: ItemTarget) -> Result<ItemModel, ErrorKind> {
    match a {
        AtomModel::Null => Err(ErrorKind::NullResult),
        AtomModel::Scalar(p) => scalar_to_host(p, target),
        AtomModel::Text(s) => if target == ItemTarget::Text {
            Ok(ItemModel::Text(s))
        } else {
            Err(ErrorKind::InvalidCast)
        },
    }
}

/// What converting a managed sequence into a host sequence of `target` gives:
/// every element converted in order, or the failure of the first element that
/// does not convert.
pub open spec fn atoms_to_host(items: Seq<AtomModel>, target: ItemTarget) -> Result<
    Seq<ItemModel>,
    ErrorKind,
>
    decreases items.len(),
{
    if items.len() == 0 {
        Ok(Seq::empty())
    } else {
        match atoms_to_host(items.drop_last(), target) {
            Err(k) => Err(k),
            Ok(front) => match atom_to_host(items.last(), target) {
                Err(k) => Err(k),
                Ok(m) => Ok(front.push(m)),
            },
        }
    }
}

/// The data a managed object holds.
#[derive(Debug)]
pub enum ObjectData {
    /// Null, a boxed scalar or a string.
    Single(Atom),
    /// An array or a list.
    Items(Vec<Atom>),
    /// A map, as its entries in insertion order.
    Entries(Vec<Entry>),
    /// An object with one text field.
    Record { text: String },
    /// An object without data of its own.
    Plain,
}

/// One entry of a managed map.
#[derive(Debug)]
pub struct Entry {
    pub key: Atom,
    pub value: Atom,
}

/// The mathematical model of [`ObjectData`].
pub enum ObjectModel {
    Single(AtomModel),
    Items(Seq<AtomModel>),
    Entries(Seq<(AtomModel, AtomModel)>),
    Record { text: Seq<char> },
    Plain,
}

/// The models of a map's entries, position by position.
pub open spec fn entries_model(entries: Seq<Entry>) -> Seq<(AtomModel, AtomModel)> {
    Seq::new(entries.len(), |i: int| (entries[i].key@, entries[i].value@))
}

impl View for ObjectData {
    type V = ObjectModel;

    open spec fn view(&self) -> ObjectModel {
        match self {
            ObjectData::Single(a) => ObjectModel::Single(a@),
            ObjectData::Items(items) => ObjectModel::Items(atoms_model(items@)),
            ObjectData::Entries(entries) => ObjectModel::Entries(entries_model(entries@)),
            ObjectData::Record { text } => ObjectModel::Record { text: text@ },
            ObjectData::Plain => ObjectModel::Plain,
        }
    }
}

/// What `from_wire` gives for a managed object holding `data` and the host
/// type `target`. Null is a `NullResult` for a host type that cannot
/// represent absence, and absence for one that can.
pub open spec fn object_to_host(data: ObjectModel, target: Target) -> Result<HostModel, ErrorKind> {
    match target {
        Target::Item(t) => match data {
            ObjectModel::Single(a) => match atom_to_host(a, t) {
                Ok(m) => Ok(HostModel::Item(m)),
                Err(k) => Err(k),
            },
            _ => Err(ErrorKind::InvalidCast),
        },
        Target::Optional(t) => match data {
            ObjectModel::Single(AtomModel::Null) => Ok(HostModel::Absent),
            ObjectModel::Single(a) => match atom_to_host(a, t) {
                Ok(m) => Ok(HostModel::Item(m)),
                Err(k) => Err(k),
            },
            _ => Err(ErrorKind::InvalidCast),
        },
        Target::List(t) => match data {
            ObjectModel::Items(items) => match atoms_to_host(items, t) {
                Ok(ms) => Ok(HostModel::List(ms)),
                Err(k) => Err(k),
            },
            ObjectModel::Single(AtomModel::Null) => Err(ErrorKind::NullResult),
            _ => Err(ErrorKind::InvalidCast),
        },
    }
}

/// Converts a managed value into a host integer of the width `target`.
pub fn atom_to_integer(a: &Atom, target: ItemTarget) -> (r: Result<i64, ErrorKind>)
    requires
        target.is_integer(),
    ensures
        match r {
            Ok(v) => atom_to_host(a@, target) == Ok::<ItemModel, ErrorKind>(ItemModel::Int(v as int))
                && target.min() <= v <= target.max(),
            Err(k) => atom_to_host(a@, target) == Err::<ItemModel, ErrorKind>(k),
        },
{
    match a {
        Atom::Null => Err(ErrorKind::NullResult),
        Atom::Text(_) => Err(ErrorKind::InvalidCast),
        Atom::Scalar(p) => match p.as_integral() {
            None => Err(ErrorKind::InvalidCast),
            Some(v) => narrow_integer(v, target),
        },
    }
}

/// Converts a managed value into a host scalar that is no integer, or fails
/// as `atom_to_host` says. The result is the scalar itself.
pub fn atom_to_scalar(a: &Atom, target: ItemTarget) -> (r: Result<Primitive, ErrorKind>)
    requires
        !target.is_integer(),
        target != ItemTarget::Text,
    ensures
        match r {
            Ok(p) => atom_to_host(a@, target) == Ok::<ItemModel, ErrorKind>(p.model())
                && p.natural_target() == target && a@ == AtomModel::Scalar(p),
            Err(k) => atom_to_host(a@, target) == Err::<ItemModel, ErrorKind>(k),
        },
{
    match a {
        Atom::Null => Err(ErrorKind::NullResult),
        Atom::Text(_) => Err(ErrorKind::InvalidCast),
        Atom::Scalar(p) => {
            let matches_target = match (p, target) {
                (Primitive::Bool(_), ItemTarget::Bool) => true,
                (Primitive::Float(_), ItemTarget::F32) => true,
                (Primitive::Double(_), ItemTarget::F64) => true,
                (Primitive::Char(_), ItemTarget::Char) => true,
                _ => false,
            };
            if matches_target {
                Ok(*p)
            } else {
                Err(ErrorKind::InvalidCast)
            }
        },
    }
}

/// Converts a managed value into a host string.
pub fn atom_to_text(a: &Atom) -> (r: Result<String, ErrorKind>)
    ensures
        match r {
            Ok(s) => atom_to_host(a@, ItemTarget::Text) == Ok::<ItemModel, ErrorKind>(
                ItemModel::Text(s@),
            ),
            Err(k) => atom_to_host(a@, ItemTarget::Text) == Err::<ItemModel, ErrorKind>(k),
        },
{
    match a {
        Atom::Null => Err(ErrorKind::NullResult),
        Atom::Text(s) => Ok(s.clone()),
        Atom::Scalar(_) => Err(ErrorKind::InvalidCast),
    }
}

} // verus!

//! Invocation arguments: the tagged values the host hands to a call.

use vstd::prelude::*;
use vstd::string::StringExecFns;
use crate::errors::{ErrorModel, J4RsError};
use crate::handles::Instance;
use crate::jvm::Jvm;
use crate::marshal::{Atom, AtomModel, atoms_model, ObjectModel, Primitive};
use crate::names::{boxed_class, boxed_class_name, list_class, string_class};

verus! {

/// A host value to be built into a managed object.
#[derive(Debug)]
pub enum HostValue {
    Scalar(Primitive),
    Text(String),
    List(Vec<Atom>),
}

impl View for HostValue {
    type V = ObjectModel;

    /// The data of the managed object the value is built into.
    open spec fn view(&self) -> ObjectModel {
        match self {
            HostValue::Scalar(p) => ObjectModel::Single(AtomModel::Scalar(*p)),
            HostValue::Text(s) => ObjectModel::Single(AtomModel::Text(s@)),
            HostValue::List(items) => ObjectModel::Items(atoms_model(items@)),
        }
    }
}

/// One marshaled argument of a call. Every argument carries the type
/// information overload resolution needs: a primitive tag or a declared class
/// name.
#[derive(Debug)]
pub enum InvocationArg {
    /// A scalar passed as the managed runtime's unboxed primitive.
    Primitive { scalar: Primitive },
    /// A host value, with the class to construct it as.
    Rust { value: HostValue, class_name: String },
    /// An existing handle passed through, with its class.
    Java { instance: Instance, class_name: String },
    /// A homogeneous sequence of values, with the class of its elements.
    Array { elements: Vec<Atom>, element_class: String },
}

/// The mathematical model of an [`InvocationArg`].
pub enum ArgModel {
    Primitive { scalar: Primitive },
    Rust { value: ObjectModel, class_name: Seq<char> },
    Java { token: int, class_name: Seq<char> },
    Array { elements: Seq<AtomModel>, element_class: Seq<char> },
}

impl View for InvocationArg {
    type V = ArgModel;

    open spec fn view(&self) -> ArgModel {
        match self {
            InvocationArg::Primitive { scalar } => ArgModel::Primitive { scalar: *scalar },
            InvocationArg::Rust { value, class_name } => ArgModel::Rust {
                value: value@,
                class_name: class_name@,
            },
            InvocationArg::Java { instance, class_name } => ArgModel::Java {
                token: instance@.token,
                class_name: class_name@,
            },
            InvocationArg::Array { elements, element_class } => ArgModel::Array {
                elements: atoms_model(elements@),
                element_class: element_class@,
            },
        }
    }
}

/// The models of a sequence of arguments, position by position.
pub open spec fn args_model(args: Seq<InvocationArg>) -> Seq<ArgModel> {
    Seq::new(args.len(), |i: int| args[i]@)
}

/// The argument `into_primitive` turns `arg` into: a boxed scalar becomes
/// the unboxed primitive, a primitive stays one, and nothing else can be
/// passed as a primitive.
pub open spec fn as_primitive(arg: ArgModel) -> Result<ArgModel, ErrorModel> {
    match arg {
        ArgModel::Primitive { .. } => Ok(arg),
        ArgModel::Rust { value: ObjectModel::Single(AtomModel::Scalar(p)), class_name } => Ok(
            ArgModel::Primitive { scalar: p },
        ),
        _ => Err(ErrorModel::ConversionError),
    }
}

impl InvocationArg {
    /// An argument passed as an unboxed primitive.
    pub fn primitive(value: Primitive) -> (arg: InvocationArg)
        ensures
            arg@ == (ArgModel::Primitive { scalar: value }),
    {
        InvocationArg::Primitive { scalar: value }
    }

    /// An argument passed as the boxed object of a scalar.
    pub fn boxed(value: Primitive) -> (arg: InvocationArg)
        ensures
            arg@ == (ArgModel::Rust {
                value: ObjectModel::Single(AtomModel::Scalar(value)),
                class_name: boxed_class(value),
            }),
    {
        InvocationArg::Rust { value: HostValue::Scalar(value), class_name: boxed_class_name(&value) }
    }

    /// An argument passed as a managed string.
    pub fn text(value: &str) -> (arg: InvocationArg)
        ensures
            arg@ == (ArgModel::Rust {
                value: ObjectModel::Single(AtomModel::Text(value@)),
                class_name: string_class(),
            }),
    {
        InvocationArg::Rust {
            value: HostValue::Text(String::from_str(value)),
            class_name: String::from_str("java.lang.String"),
        }
    }

    /// An argument passed as a managed list of strings.
    pub fn text_list(values: &[&str]) -> (arg: InvocationArg)
        ensures
            arg@ == (ArgModel::Rust {
                value: ObjectModel::Items(
                    Seq::new(values@.len(), |i: int| AtomModel::Text(values@[i]@)),
                ),
                class_name: list_class(),
            }),
    {
        let mut items: Vec<Atom> = Vec::new();
        let mut i: usize = 0;
        while i < values.len()
            invariant
                i <= values.len(),
                items.len() == i,
                forall|j: int| 0 <= j < i ==> items[j]@ == AtomModel::Text(values@[j]@),
            decreases values.len() - i,
        {
            items.push(Atom::Text(String::from_str(values[i])));
            i += 1;
        }
        assert(atoms_model(items@) =~= Seq::new(
            values@.len(),
            |i: int| AtomModel::Text(values@[i]@),
        ));
        InvocationArg::Rust {
            value: HostValue::List(items),
            class_name: String::from_str("java.util.List"),
        }
    }

    /// A host value to be constructed as an object of the class `class_name`.
    pub fn new(value: HostValue, class_name: &str) -> (arg: InvocationArg)
        ensures
            arg@ == (ArgModel::Rust { value: value@, class_name: class_name@ }),
    {
        InvocationArg::Rust { value, class_name: String::from_str(class_name) }
    }

    /// An existing handle passed through under the class it was resolved to.
    pub fn handle(instance: Instance) -> (arg: InvocationArg)
        ensures
            arg@ == (ArgModel::Java { token: instance@.token, class_name: instance@.class_name }),
    {
        let class_name = String::from_str(instance.class_name());
        InvocationArg::Java { instance, class_name }
    }

    /// A homogeneous sequence of values of the class `element_class`.
    pub fn array(elements: Vec<Atom>, element_class: &str) -> (arg: InvocationArg)
        ensures
            arg@ == (ArgModel::Array {
                elements: atoms_model(elements@),
                element_class: element_class@,
            }),
    {
        InvocationArg::Array { elements, element_class: String::from_str(element_class) }
    }

    /// Turns a boxed scalar argument into one passed as the unboxed
    /// primitive, which overload resolution tells apart from the boxed one.
    pub fn into_primitive(self) -> (r: Result<InvocationArg, J4RsError>)
        ensures
            match r {
                Ok(arg) => as_primitive(self@) == Ok::<ArgModel, ErrorModel>(arg@),
                Err(e) => as_primitive(self@) == Err::<ArgModel, ErrorModel>(e@),
            },
    {
        match self {
            InvocationArg::Primitive { scalar } => Ok(InvocationArg::Primitive { scalar }),
            InvocationArg::Rust { value: HostValue::Scalar(p), class_name } => Ok(
                InvocationArg::Primitive { scalar: p },
            ),
            _ => Err(J4RsError::ConversionError),
        }
    }
}

impl From<&str> for InvocationArg {
    fn from(value: &str) -> (arg: InvocationArg)
        ensures
            arg@ == (ArgModel::Rust {
                value: ObjectModel::Single(AtomModel::Text(value@)),
                class_name: string_class(),
            }),
    {
        InvocationArg::text(value)
    }
}

impl vstd::std_specs::convert::FromSpecImpl<&str> for InvocationArg {
    open spec fn obeys_from_spec() -> bool {
        false
    }

    open spec fn from_spec(value: &str) -> InvocationArg {
        arbitrary()
    }
}

impl From<String> for InvocationArg {
    fn from(value: String) -> (arg: InvocationArg)
        ensures
            arg@ == (ArgModel::Rust {
                value: ObjectModel::Single(AtomModel::Text(value@)),
                class_name: string_class(),
            }),
    {
        InvocationArg::Rust {
            value: HostValue::Text(value),
            class_name: String::from_str("java.lang.String"),
        }
    }
}

impl vstd::std_specs::convert::FromSpecImpl<String> for InvocationArg {
    open spec fn obeys_from_spec() -> bool {
        false
    }

    open spec fn from_spec(value: String) -> InvocationArg {
        arbitrary()
    }
}

impl From<bool> for InvocationArg {
    fn from(value: bool) -> (arg: InvocationArg)
        ensures
            arg@ == (ArgModel::Rust {
                value: ObjectModel::Single(AtomModel::Scalar(Primitive::Bool(value))),
                class_name: boxed_class(Primitive::Bool(value)),
            }),
    {
        InvocationArg::boxed(Primitive::Bool(value))
    }
}

impl vstd::std_specs::convert::FromSpecImpl<bool> for InvocationArg {
    open spec fn obeys_from_spec() -> bool {
        false
    }

    open spec fn from_spec(value: bool) -> InvocationArg {
        arbitrary()
    }
}

impl From<i32> for InvocationArg {
    fn from(value: i32) -> (arg: InvocationArg)
        ensures
            arg@ == (ArgModel::Rust {
                value: ObjectModel::Single(AtomModel::Scalar(Primitive::Int(value))),
                class_name: boxed_class(Primitive::Int(value)),
            }),
    {
        InvocationArg::boxed(Primitive::Int(value))
    }
}

impl vstd::std_specs::convert::FromSpecImpl<i32> for InvocationArg {
    open spec fn obeys_from_spec() -> bool {
        false
    }

    open spec fn from_spec(value: i32) -> InvocationArg {
        arbitrary()
    }
}

impl From<i64> for InvocationArg {
    fn from(value: i64) -> (arg: InvocationArg)
        ensures
            arg@ == (ArgModel::Rust {
                value: ObjectModel::Single(AtomModel::Scalar(Primitive::Long(value))),
                class_name: boxed_class(Primitive::Long(value)),
            }),
    {
        InvocationArg::boxed(Primitive::Long(value))
    }
}

impl vstd::std_specs::convert::FromSpecImpl<i64> for InvocationArg {
    open spec fn obeys_from_spec() -> bool {
        false
    }

    open spec fn from_spec(value: i64) -> InvocationArg {
        arbitrary()
    }
}

impl From<Instance> for InvocationArg {
    fn from(instance: Instance) -> (arg: InvocationArg)
        ensures
            arg@ == (ArgModel::Java { token: instance@.token, class_name: instance@.class_name }),
    {
        InvocationArg::handle(instance)
    }
}

impl vstd::std_specs::convert::FromSpecImpl<Instance> for InvocationArg {
    open spec fn obeys_from_spec() -> bool {
        false
    }

    open spec fn from_spec(instance: Instance) -> InvocationArg {
        arbitrary()
    }
}

impl<'a> TryFrom<(&'a [&'a str], &'a Jvm)> for InvocationArg {
    type Error = J4RsError;

    /// A managed list of strings. The runtime is not asked: the class of
    /// the list is looked up when the argument is marshaled.
    fn try_from(pair: (&'a [&'a str], &'a Jvm)) -> (r: Result<InvocationArg, J4RsError>)
        ensures
            r matches Ok(arg) && arg@ == (ArgModel::Rust {
                value: ObjectModel::Items(
                    Seq::new(pair.0@.len(), |i: int| AtomModel::Text(pair.0@[i]@)),
                ),
                class_name: list_class(),
            }),
    {
        Ok(InvocationArg::text_list(pair.0))
    }
}

impl<'a> vstd::std_specs::convert::TryFromSpecImpl<(&'a [&'a str], &'a Jvm)> for InvocationArg {
    open spec fn obeys_try_from_spec() -> bool {
        false
    }

    open spec fn try_from_spec(pair: (&'a [&'a str], &'a Jvm)) -> Result<InvocationArg, J4RsError> {
        arbitrary()
    }
}

} // verus!

//! The error taxonomy of the bridge.

use vstd::prelude::*;

verus! {

/// The kind of a bridge failure, without its payload.
#[derive(Clone, Copy, Debug, PartialEq, Eq, Structural)]
pub enum ErrorKind {
    RuntimeUnavailable,
    AttachFailed,
    ClassNotFound,
    ConversionError,
    NumericOverflow,
    InvalidCast,
    IllegalCast,
    MethodNotFound,
    InvocationFailed,
    NullResult,
    ChannelClosed,
    ArtifactDeployFailed,
    HandleReleased,
}

/// A structured failure of a boundary-crossing operation.
#[derive(Debug)]
pub enum J4RsError {
    /// No runtime has been initialised, or it has been shut down.
    RuntimeUnavailable,
    /// The attach handshake with the managed runtime failed.
    AttachFailed,
    /// A declared class name cannot be resolved.
    ClassNotFound,
    /// The shape of a host value does not match its declared class.
    ConversionError,
    /// A managed integer does not fit the requested host integer type.
    NumericOverflow,
    /// The managed object's class does not match the requested host type.
    InvalidCast,
    /// The managed runtime rejected a cast to a non-assignable class.
    IllegalCast,
    /// Not exactly one most specific member is applicable.
    MethodNotFound { name: String, arg_types: Vec<String> },
    /// The managed runtime raised an exception during a call.
    InvocationFailed { message: String, managed_stack_trace: String },
    /// The managed reference is null and the host type cannot represent absence.
    NullResult,
    /// The receiving end of a callback channel is gone, or the channel is unknown.
    ChannelClosed,
    /// An artifact could not be brought onto the classpath.
    ArtifactDeployFailed,
    /// A handle was used after its reference had been released.
    HandleReleased,
}

/// The mathematical model of a [`J4RsError`].
pub enum ErrorModel {
    RuntimeUnavailable,
    AttachFailed,
    ClassNotFound,
    ConversionError,
    NumericOverflow,
    InvalidCast,
    IllegalCast,
    MethodNotFound { name: Seq<char>, arg_types: Seq<Seq<char>> },
    InvocationFailed { message: Seq<char>, managed_stack_trace: Seq<char> },
    NullResult,
    ChannelClosed,
    ArtifactDeployFailed,
    HandleReleased,
}

impl ErrorModel {
    pub open spec fn kind(self) -> ErrorKind {
        match self {
            ErrorModel::RuntimeUnavailable => ErrorKind::RuntimeUnavailable,
            ErrorModel::AttachFailed => ErrorKind::AttachFailed,
            ErrorModel::ClassNotFound => ErrorKind::ClassNotFound,
            ErrorModel::ConversionError => ErrorKind::ConversionError,
            ErrorModel::NumericOverflow => ErrorKind::NumericOverflow,
            ErrorModel::InvalidCast => ErrorKind::InvalidCast,
            ErrorModel::IllegalCast => ErrorKind::IllegalCast,
            ErrorModel::MethodNotFound { .. } => ErrorKind::MethodNotFound,
            ErrorModel::InvocationFailed { .. } => ErrorKind::InvocationFailed,
            ErrorModel::NullResult => ErrorKind::NullResult,
            ErrorModel::ChannelClosed => ErrorKind::ChannelClosed,
            ErrorModel::ArtifactDeployFailed => ErrorKind::ArtifactDeployFailed,
            ErrorModel::HandleReleased => ErrorKind::HandleReleased,
        }
    }

    /// The model of the payload-free error of the given kind.
    pub open spec fn of_kind(kind: ErrorKind) -> ErrorModel
        recommends
            kind != ErrorKind::MethodNotFound,
            kind != ErrorKind::InvocationFailed,
    {
        match kind {
            ErrorKind::RuntimeUnavailable => ErrorModel::RuntimeUnavailable,
            ErrorKind::AttachFailed => ErrorModel::AttachFailed,
            ErrorKind::ClassNotFound => ErrorModel::ClassNotFound,
            ErrorKind::ConversionError => ErrorModel::ConversionError,
            ErrorKind::NumericOverflow => ErrorModel::NumericOverflow,
            ErrorKind::InvalidCast => ErrorModel::InvalidCast,
            ErrorKind::IllegalCast => ErrorModel::IllegalCast,
            ErrorKind::NullResult => ErrorModel::NullResult,
            ErrorKind::ChannelClosed => ErrorModel::ChannelClosed,
            ErrorKind::ArtifactDeployFailed => ErrorModel::ArtifactDeployFailed,
            ErrorKind::HandleReleased => ErrorModel::HandleReleased,
            ErrorKind::MethodNotFound => ErrorModel::MethodNotFound {
                name: Seq::empty(),
                arg_types: Seq::empty(),
            },
            ErrorKind::InvocationFailed => ErrorModel::InvocationFailed {
                message: Seq::empty(),
                managed_stack_trace: Seq::empty(),
            },
        }
    }
}

impl View for J4RsError {
    type V = ErrorModel;

    open spec fn view(&self) -> ErrorModel {
        match self {
            J4RsError::RuntimeUnavailable => ErrorModel::RuntimeUnavailable,
            J4RsError::AttachFailed => ErrorModel::AttachFailed,
            J4RsError::ClassNotFound => ErrorModel::ClassNotFound,
            J4RsError::ConversionError => ErrorModel::ConversionError,
            J4RsError::NumericOverflow => ErrorModel::NumericOverflow,
            J4RsError::InvalidCast => ErrorModel::InvalidCast,
            J4RsError::IllegalCast => ErrorModel::IllegalCast,
            J4RsError::MethodNotFound { name, arg_types } => ErrorModel::MethodNotFound {
                name: name@,
                arg_types: arg_types.deep_view(),
            },
            J4RsError::InvocationFailed { message, managed_stack_trace } => {
                ErrorModel::InvocationFailed {
                    message: message@,
                    managed_stack_trace: managed_stack_trace@,
                }
            },
            J4RsError::NullResult => ErrorModel::NullResult,
            J4RsError::ChannelClosed => ErrorModel::ChannelClosed,
            J4RsError::ArtifactDeployFailed => ErrorModel::ArtifactDeployFailed,
            J4RsError::HandleReleased => ErrorModel::HandleReleased,
        }
    }
}

impl J4RsError {
    /// The kind of this error.
    pub fn kind(&self) -> (k: ErrorKind)
        ensures
            k == self@.kind(),
    {
        match self {
            J4RsError::RuntimeUnavailable => ErrorKind::RuntimeUnavailable,
            J4RsError::AttachFailed => ErrorKind::AttachFailed,
            J4RsError::ClassNotFound => ErrorKind::ClassNotFound,
            J4RsError::ConversionError => ErrorKind::ConversionError,
            J4RsError::NumericOverflow => ErrorKind::NumericOverflow,
            J4RsError::InvalidCast => ErrorKind::InvalidCast,
            J4RsError::IllegalCast => ErrorKind::IllegalCast,
            J4RsError::MethodNotFound { .. } => ErrorKind::MethodNotFound,
            J4RsError::InvocationFailed { .. } => ErrorKind::InvocationFailed,
            J4RsError::NullResult => ErrorKind::NullResult,
            J4RsError::ChannelClosed => ErrorKind::ChannelClosed,
            J4RsError::ArtifactDeployFailed => ErrorKind::ArtifactDeployFailed,
            J4RsError::HandleReleased => ErrorKind::HandleReleased,
        }
    }

    /// The payload-free error of the given kind. The two kinds that carry a
    /// payload come out with an empty one.
    pub fn of_kind(kind: ErrorKind) -> (e: J4RsError)
        ensures
            e@ == ErrorModel::of_kind(kind),
    {
        match kind {
            ErrorKind::RuntimeUnavailable => J4RsError::RuntimeUnavailable,
            ErrorKind::AttachFailed => J4RsError::AttachFailed,
            ErrorKind::ClassNotFound => J4RsError::ClassNotFound,
            ErrorKind::ConversionError => J4RsError::ConversionError,
            ErrorKind::NumericOverflow => J4RsError::NumericOverflow,
            ErrorKind::InvalidCast => J4RsError::InvalidCast,
            ErrorKind::IllegalCast => J4RsError::IllegalCast,
            ErrorKind::NullResult => J4RsError::NullResult,
            ErrorKind::ChannelClosed => J4RsError::ChannelClosed,
            ErrorKind::ArtifactDeployFailed => J4RsError::ArtifactDeployFailed,
            ErrorKind::HandleReleased => J4RsError::HandleReleased,
            ErrorKind::MethodNotFound => {
                let arg_types: Vec<String> = Vec::new();
                assert(arg_types.deep_view() =~= Seq::<Seq<char>>::empty());
                J4RsError::MethodNotFound { name: String::new(), arg_types }
            },
            ErrorKind::InvocationFailed => J4RsError::InvocationFailed {
                message: String::new(),
                managed_stack_trace: String::new(),
            },
        }
    }
}

} // verus!

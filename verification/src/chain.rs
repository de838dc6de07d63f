//! The invocation chain builder: a sequence of dependent calls on the
//! evolving result.

use vstd::prelude::*;
use crate::args::{args_model, InvocationArg};
use crate::classes::MemberKind;
use crate::errors::{ErrorKind, ErrorModel, J4RsError};
use crate::handles::{HandleModel, Instance};
use crate::host::FromManaged;
use crate::jvm::Jvm;
use crate::marshal::HostModel;

verus! {

/// A chain of calls around its current handle.
#[derive(Debug)]
pub struct ChainableInstance {
    instance: Instance,
}

/// Whether the answer of a link of a chain is the one the model gives.
pub open spec fn links(r: Result<ChainableInstance, J4RsError>, expected: Result<HandleModel, ErrorModel>) -> bool {
    match r {
        Ok(chain) => expected == Ok::<HandleModel, ErrorModel>(chain.current()),
        Err(e) => expected == Err::<HandleModel, ErrorModel>(e@),
    }
}

impl Jvm {
    /// Starts a chain of calls on `instance`.
    pub fn chain(&self, instance: Instance) -> (c: ChainableInstance)
        ensures
            c.current() == instance@,
    {
        ChainableInstance { instance }
    }
}

impl ChainableInstance {
    /// The handle the chain currently holds.
    pub closed spec fn current(&self) -> HandleModel {
        self.instance@
    }

    /// Invokes a method on the current handle and goes on with what it
    /// returns. The handle held before is released, whether the call
    /// succeeds or not; a failure ends the chain.
    pub fn invoke(self, jvm: &mut Jvm, method_name: &str, args: &[InvocationArg]) -> (r: Result<
        ChainableInstance,
        J4RsError,
    >)
        requires
            old(jvm)@.wf(),
        ensures
            final(jvm)@.wf(),
            final(jvm)@ == old(jvm)@.call(
                self.current(),
                MemberKind::Method,
                method_name@,
                args_model(args@),
            ).state.release(self.current()),
            links(
                r,
                old(jvm)@.call(
                    self.current(),
                    MemberKind::Method,
                    method_name@,
                    args_model(args@),
                ).result,
            ),
    {
        let next = jvm.invoke(&self.instance, method_name, args);
        let released = jvm.release(self.instance);
        match next {
            Ok(instance) => Ok(ChainableInstance { instance }),
            Err(e) => Err(e),
        }
    }

    /// Reads a field of the current handle and goes on with its value.
    pub fn field(self, jvm: &mut Jvm, field_name: &str) -> (r: Result<ChainableInstance, J4RsError>)
        requires
            old(jvm)@.wf(),
        ensures
            final(jvm)@.wf(),
            final(jvm)@ == old(jvm)@.call(
                self.current(),
                MemberKind::Field,
                field_name@,
                Seq::empty(),
            ).state.release(self.current()),
            links(
                r,
                old(jvm)@.call(self.current(), MemberKind::Field, field_name@, Seq::empty()).result,
            ),
    {
        let next = jvm.field(&self.instance, field_name);
        let released = jvm.release(self.instance);
        match next {
            Ok(instance) => Ok(ChainableInstance { instance }),
            Err(e) => Err(e),
        }
    }

    /// Casts the current handle and goes on with the handle of the new
    /// class.
    pub fn cast(self, jvm: &mut Jvm, to_class: &str) -> (r: Result<ChainableInstance, J4RsError>)
        requires
            old(jvm)@.wf(),
        ensures
            final(jvm)@.wf(),
            final(jvm)@ == old(jvm)@.cast(self.current(), to_class@).state.release(self.current()),
            links(r, old(jvm)@.cast(self.current(), to_class@).result),
    {
        let next = jvm.cast(&self.instance, to_class);
        let released = jvm.release(self.instance);
        match next {
            Ok(instance) => Ok(ChainableInstance { instance }),
            Err(e) => Err(e),
        }
    }

    /// Ends the chain and yields the current handle.
    pub fn collect(self) -> (instance: Instance)
        ensures
            instance@ == self.current(),
    {
        self.instance
    }

    /// Ends the chain and converts the object behind the current handle
    /// into the host type `T`.
    pub fn to_rust<T: FromManaged>(self, jvm: &mut Jvm) -> (r: Result<T, J4RsError>)
        requires
            old(jvm)@.wf(),
        ensures
            final(jvm)@.wf(),
            final(jvm)@ == old(jvm)@.release(self.current()),
            match r {
                Ok(v) => old(jvm)@.to_rust(self.current(), T::target()) == Ok::<
                    HostModel,
                    ErrorKind,
                >(v.host_model()),
                Err(e) => old(jvm)@.to_rust(self.current(), T::target()) == Err::<
                    HostModel,
                    ErrorKind,
                >(e@.kind()) && e@ == ErrorModel::of_kind(e@.kind()),
            },
    {
        jvm.to_rust(self.instance)
    }
}

} // verus!

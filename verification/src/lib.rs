//! A bridge between host code and objects that live in a managed object
//! runtime.
//!
//! The bridge marshals a small type system across the boundary, hands out
//! owned handles to managed objects, resolves overloaded members, and carries
//! asynchronous results back to the host through callback channels.
//!
//! The runtime handle, [`Jvm`], is an explicit value that holds the whole
//! state of one runtime. Every operation on it is specified over the
//! mathematical model in [`model`], and the laws that hold of the operations
//! are proved there and in [`library`]:
//!
//! - [`marshal`], [`host`] and [`args`]: the values that cross the boundary
//!   and the checked conversions between them;
//! - [`handles`]: references and the handles that hold them;
//! - [`classes`], [`resolve`], [`natives`] and [`library`]: the class table,
//!   overload resolution, what the members do, and the standard classes;
//! - [`gateway`]: thread attachment;
//! - [`callback`]: callback channels and their registry;
//! - [`jvm`], [`chain`] and [`builder`]: the operations of the bridge;
//! - [`provisioning`]: artifact descriptors and deployment plans.

use vstd::prelude::*;

pub mod args;
pub mod builder;
pub mod callback;
pub mod chain;
pub mod classes;
pub mod errors;
pub mod gateway;
pub mod handles;
pub mod host;
pub mod jvm;
pub mod library;
pub mod marshal;
pub mod model;
pub mod names;
pub mod natives;
pub mod provisioning;
pub mod resolve;

pub use crate::args::InvocationArg;
pub use crate::builder::ClasspathEntry;
pub use crate::builder::JavaOpt;
pub use crate::builder::JvmBuilder;
pub use crate::callback::InstanceReceiver;
pub use crate::handles::Instance;
pub use crate::jvm::Jvm;
pub use crate::provisioning::LocalJarArtifact;
pub use crate::provisioning::MavenArtifact;
pub use crate::provisioning::MavenArtifactRepo;
pub use crate::provisioning::MavenSettings;

verus! {

/// Creates a new runtime, using the provided classpath entries and startup
/// options. The runtime declares the standard classes, has no objects yet,
/// and is held by the thread 0, which is attached.
pub fn new_jvm(classpath_entries: Vec<ClasspathEntry>, java_opts: Vec<JavaOpt>) -> (r: Result<
    Jvm,
    crate::errors::J4RsError,
>)
    ensures
        r matches Ok(jvm) && jvm@.wf() && jvm@ == crate::model::JvmModel::fresh(
            crate::library::standard_classes(),
            crate::builder::entries_text(classpath_entries@),
            crate::builder::opts_text(java_opts@),
            Seq::empty(),
            0,
            0,
        ),
{
    let built = JvmBuilder::new().classpath_entries(classpath_entries).java_opts(java_opts);
    assert(built@.classpath =~= crate::builder::entries_text(classpath_entries@));
    assert(built@.java_opts =~= crate::builder::opts_text(java_opts@));
    built.build()
}

} // verus!

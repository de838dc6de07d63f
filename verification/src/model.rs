//! The mathematical model of a runtime: its state, what every operation of
//! the bridge does to it, and the laws that hold of those operations.

use vstd::prelude::*;
use crate::args::ArgModel;
use crate::callback::{after_delivery, ChannelModel, is_deliverable, RegistrationToken};
use crate::classes::{
    assignable,
    Behaviour,
    class_named,
    ClassModel,
    is_declared,
    MemberKind,
    MemberModel,
    members_of,
};
use crate::errors::{ErrorKind, ErrorModel};
use crate::gateway::{Attachment, GatewayModel};
use crate::handles::{after_release, HandleModel, is_live, Reference};
use crate::marshal::{
    AtomModel,
    HostModel,
    ItemModel,
    ItemTarget,
    object_to_host,
    ObjectModel,
    Primitive,
    scalar_to_host,
    Target,
};
use crate::names::{
    array_of,
    atom_class,
    boxed_class,
    class_of_data,
    list_class,
    primitive_type,
    string_class,
};
use crate::natives::{
    EffectModel,
    Fault,
    fault_message,
    fault_trace,
    run_model,
    scalar_data,
    text_data,
};
use crate::provisioning::RepoModel;
use crate::resolve::{choice_of, has_choice, lemma_unknown_name_selects_nothing};

verus! {

/// The mathematical model of a [`ManagedObject`].
pub struct ObjectEntry {
    pub class_name: Seq<char>,
    pub data: ObjectModel,
    pub channel: Option<RegistrationToken>,
    pub is_class: bool,
}

/// The mathematical model of a [`WireValue`].
pub struct WireModel {
    pub wire_type: Seq<char>,
    pub data: ObjectModel,
}

/// The types of a sequence of wire values.
pub open spec fn wire_types(wires: Seq<WireModel>) -> Seq<Seq<char>> {
    Seq::new(wires.len(), |i: int| wires[i].wire_type)
}

/// The data of a sequence of wire values.
pub open spec fn wire_data(wires: Seq<WireModel>) -> Seq<ObjectModel> {
    Seq::new(wires.len(), |i: int| wires[i].data)
}

/// Whether a host value has the shape of the class it is to be constructed
/// as: a string for the string class, a scalar for the class that boxes it,
/// a sequence for the list interface.
pub open spec fn conforms(value: ObjectModel, class_name: Seq<char>) -> bool {
    match value {
        ObjectModel::Single(AtomModel::Text(_)) => class_name == string_class(),
        ObjectModel::Single(AtomModel::Scalar(p)) => class_name == boxed_class(p),
        ObjectModel::Items(_) => class_name == list_class(),
        _ => false,
    }
}

/// Whether every element is null or of the class `element_class`.
pub open spec fn homogeneous(elements: Seq<AtomModel>, element_class: Seq<char>) -> bool {
    forall|i: int|
        0 <= i < elements.len() ==> (#[trigger] elements[i]) == AtomModel::Null || atom_class(
            elements[i],
        ) == Some(element_class)
}

/// The mathematical model of a [`Jvm`].
pub struct JvmModel {
    pub classes: Seq<ClassModel>,
    pub heap: Seq<ObjectEntry>,
    pub handles: Seq<Reference>,
    pub registry: Seq<ChannelModel>,
    pub gateway: GatewayModel,
    /// The thread that holds the runtime handle.
    pub owner: u64,
    pub clock: i64,
    /// The lines written to the console, oldest first.
    pub console: Seq<Seq<char>>,
    /// The number of callbacks that could not be delivered.
    pub lost: nat,
    /// The classpath entries the runtime was created with, in order.
    pub classpath: Seq<Seq<char>>,
    /// The startup options the runtime was created with, in order.
    pub java_opts: Seq<Seq<char>>,
    /// The repositories artifacts are fetched from, in order.
    pub repos: Seq<RepoModel>,
}

impl JvmModel {
    /// Every reference points to an object of the heap, the heap is no
    /// larger than the machine can index, and no thread is attached twice.
    pub open spec fn wf(self) -> bool {
        &&& forall|t: int| 0 <= t < self.handles.len() ==> (#[trigger] self.handles[t]).object
            < self.heap.len()
        &&& self.heap.len() <= usize::MAX
        &&& self.gateway.wf()
    }

    /// Whether calls can be issued through the handle: the runtime is
    /// there, and the thread that holds the handle is attached. Every
    /// operation that issues a call fails with `RuntimeUnavailable` through a
    /// handle that is not usable.
    pub open spec fn usable(self) -> bool {
        self.gateway.available && self.gateway.is_attached(self.owner)
    }

    /// The object a live reference points to.
    pub open spec fn object_of(self, token: int) -> int
        recommends
            is_live(self.handles, token),
    {
        self.handles[token].object as int
    }

    /// What `to_wire` gives for one argument.
    ///
    /// A primitive goes over as the unboxed scalar. A host value becomes an
    /// object of its declared class, which must be declared
    /// (`ClassNotFound`) and fit the value's shape (`ConversionError`). A
    /// handle goes over as the object it refers to, under the class the
    /// argument declares; its reference must be live (`HandleReleased`). A
    /// sequence becomes an array of its element class, which must be
    /// declared and be the class of every element.
    pub open spec fn to_wire(self, arg: ArgModel) -> Result<WireModel, ErrorKind> {
        match arg {
            ArgModel::Primitive { scalar } => Ok(
                WireModel {
                    wire_type: primitive_type(scalar),
                    data: ObjectModel::Single(AtomModel::Scalar(scalar)),
                },
            ),
            ArgModel::Rust { value, class_name } => if !is_declared(self.classes, class_name) {
                Err(ErrorKind::ClassNotFound)
            } else if !conforms(value, class_name) {
                Err(ErrorKind::ConversionError)
            } else {
                Ok(WireModel { wire_type: class_name, data: value })
            },
            ArgModel::Java { token, class_name } => if !is_live(self.handles, token) {
                Err(ErrorKind::HandleReleased)
            } else {
                Ok(WireModel { wire_type: class_name, data: self.heap[self.object_of(token)].data })
            },
            ArgModel::Array { elements, element_class } => if !is_declared(
                self.classes,
                element_class,
            ) {
                Err(ErrorKind::ClassNotFound)
            } else if !homogeneous(elements, element_class) {
                Err(ErrorKind::ConversionError)
            } else {
                Ok(
                    WireModel {
                        wire_type: array_of(element_class),
                        data: ObjectModel::Items(elements),
                    },
                )
            },
        }
    }

    /// What marshaling a whole argument list gives: every argument in order,
    /// or the failure of the first argument that does not marshal.
    pub open spec fn to_wires(self, args: Seq<ArgModel>) -> Result<Seq<WireModel>, ErrorKind>
        decreases args.len(),
    {
        if args.len() == 0 {
            Ok(Seq::empty())
        } else {
            match self.to_wires(args.drop_last()) {
                Err(k) => Err(k),
                Ok(front) => match self.to_wire(args.last()) {
                    Err(k) => Err(k),
                    Ok(w) => Ok(front.push(w)),
                },
            }
        }
    }

    /// The runtime after a new object has been created and a reference to
    /// it handed out.
    pub open spec fn allocate(self, entry: ObjectEntry) -> JvmModel {
        JvmModel {
            heap: self.heap.push(entry),
            handles: self.handles.push(Reference { object: self.heap.len() as usize, live: true }),
            ..self
        }
    }

    /// The runtime after a new reference to an existing object has been
    /// handed out.
    pub open spec fn share(self, object: int) -> JvmModel {
        JvmModel {
            handles: self.handles.push(Reference { object: object as usize, live: true }),
            ..self
        }
    }

    /// A runtime that has just been created.
    pub open spec fn fresh(
        classes: Seq<ClassModel>,
        classpath: Seq<Seq<char>>,
        java_opts: Seq<Seq<char>>,
        repos: Seq<RepoModel>,
        owner: u64,
        clock: i64,
    ) -> JvmModel {
        JvmModel {
            classes,
            heap: Seq::empty(),
            handles: Seq::empty(),
            registry: Seq::empty(),
            gateway: GatewayModel {
                available: true,
                attachments: seq![Attachment { thread: owner, detach_on_exit: true }],
            },
            owner,
            clock,
            console: Seq::empty(),
            lost: 0,
            classpath,
            java_opts,
            repos,
        }
    }

    /// The handle that the next reference handed out is held by.
    pub open spec fn next_handle(self, class_name: Seq<char>) -> HandleModel {
        HandleModel { token: self.handles.len() as int, class_name }
    }
}

/// A state of the runtime together with the answer of the operation that
/// led to it.
pub struct Step {
    pub state: JvmModel,
    pub result: Result<HandleModel, ErrorModel>,
}

/// The count of lost callbacks after one more was lost. The count stops at
/// the greatest value the machine can hold.
pub open spec fn bump(lost: nat) -> nat {
    if lost < usize::MAX {
        lost + 1
    } else {
        lost
    }
}

/// The object a callback delivers.
pub open spec fn payload_entry() -> ObjectEntry {
    ObjectEntry {
        class_name: string_class(),
        data: ObjectModel::Single(AtomModel::Text("THIS IS FROM CALLBACK!"@)),
        channel: None,
        is_class: false,
    }
}

/// The thread that delivers the callback number `k` of a call: the caller's
/// own thread, or, where the callbacks are spread over threads, one worker
/// thread of the managed runtime for each.
pub open spec fn worker_thread(k: nat, spread: bool, owner: u64) -> u64
    recommends
        k <= u8::MAX,
{
    if spread {
        (u64::MAX - k) as u64
    } else {
        owner
    }
}

impl JvmModel {
    /// The member a call selects among the members of one kind of the class
    /// `class_name`, if the class is declared and the call selects one.
    pub open spec fn select(
        self,
        class_name: Seq<char>,
        kind: MemberKind,
        name: Seq<char>,
        arg_types: Seq<Seq<char>>,
        statics_only: bool,
    ) -> Option<MemberModel> {
        if is_declared(self.classes, class_name) {
            let members = members_of(class_named(self.classes, class_name), kind);
            if has_choice(self.classes, members, name, arg_types, statics_only) {
                Some(members[choice_of(self.classes, members, name, arg_types, statics_only)])
            } else {
                None
            }
        } else {
            None
        }
    }

    /// What the bridge entry point answers to the delivery of `object` to
    /// the registration `token`.
    pub open spec fn deliver_outcome(self, token: RegistrationToken, object: int) -> Result<
        (),
        ErrorKind,
    > {
        if !self.gateway.available {
            Err(ErrorKind::RuntimeUnavailable)
        } else if !(0 <= object < self.heap.len()) {
            Err(ErrorKind::NullResult)
        } else if !is_deliverable(self.registry, token) {
            Err(ErrorKind::ChannelClosed)
        } else {
            Ok(())
        }
    }

    /// The runtime after the bridge entry point has run on `thread`: the
    /// thread is attached, not to be detached when it ends, and, where the
    /// delivery succeeds, a new handle to `object` waits at the end of the
    /// channel's queue.
    pub open spec fn after_deliver(self, thread: u64, token: RegistrationToken, object: int) -> JvmModel {
        let attached = JvmModel { gateway: self.gateway.after_attach(thread, false, true), ..self };
        if self.deliver_outcome(token, object).is_ok() {
            JvmModel {
                handles: self.handles.push(Reference { object: object as usize, live: true }),
                registry: after_delivery(
                    self.registry,
                    token,
                    HandleModel { token: self.handles.len() as int, class_name: self.heap[object].class_name },
                ),
                ..attached
            }
        } else {
            attached
        }
    }

    /// The runtime after the managed side has made one callback from
    /// `thread`: it creates the object to deliver and calls the bridge entry
    /// point. A callback on an object without a registration, or one whose
    /// delivery fails, is counted as lost.
    pub open spec fn callback(self, channel: Option<RegistrationToken>, thread: u64) -> JvmModel {
        match channel {
            None => JvmModel { lost: bump(self.lost), ..self },
            Some(token) => {
                let created = JvmModel { heap: self.heap.push(payload_entry()), ..self };
                let delivered = created.after_deliver(thread, token, self.heap.len() as int);
                if created.deliver_outcome(token, self.heap.len() as int).is_ok() {
                    delivered
                } else {
                    JvmModel { lost: bump(delivered.lost), ..delivered }
                }
            },
        }
    }

    /// The runtime after the first `n` callbacks of a call.
    pub open spec fn callbacks(self, channel: Option<RegistrationToken>, n: nat, spread: bool) -> JvmModel
        decreases n,
    {
        if n == 0 {
            self
        } else {
            self.callbacks(channel, (n - 1) as nat, spread).callback(
                channel,
                worker_thread((n - 1) as nat, spread, self.owner),
            )
        }
    }

    /// The runtime after a call has had the given effect, and the call's
    /// answer. A printed line goes to the console. An exception becomes an
    /// `InvocationFailed` that carries its message and stack trace. A
    /// returned value becomes a new object with a new handle, and the call's
    /// callbacks are delivered after that, to the channel registered on the
    /// receiver.
    pub open spec fn complete(
        self,
        effect: EffectModel,
        declared: Seq<char>,
        channel: Option<RegistrationToken>,
    ) -> Step {
        let printed = JvmModel {
            console: match effect.printed {
                Some(line) => self.console.push(line),
                None => self.console,
            },
            ..self
        };
        match effect.outcome {
            Err(fault) => Step {
                state: printed,
                result: Err(
                    ErrorModel::InvocationFailed {
                        message: fault_message(fault),
                        managed_stack_trace: fault_trace(fault),
                    },
                ),
            },
            Ok(data) => {
                let class_name = class_of_data(data, declared);
                Step {
                    state: printed.allocate(
                        ObjectEntry { class_name, data, channel: None, is_class: false },
                    ).callbacks(channel, effect.callbacks, effect.spread),
                    result: Ok(printed.next_handle(class_name)),
                }
            },
        }
    }
}

/// A runtime stays well formed where its heap does not shrink and its
/// references stay as they are, but for new ones to objects of the heap.
pub proof fn lemma_growth_keeps_wf(before: JvmModel, after: JvmModel)
    requires
        before.wf(),
        after.gateway.wf(),
        before.heap.len() <= after.heap.len() <= usize::MAX,
        after.handles.len() >= before.handles.len(),
        forall|t: int|
            0 <= t < before.handles.len() ==> (#[trigger] after.handles[t]).object
                == before.handles[t].object,
        forall|t: int|
            before.handles.len() <= t < after.handles.len() ==> (#[trigger] after.handles[t]).object
                < after.heap.len(),
    ensures
        after.wf(),
{
    assert forall|t: int| 0 <= t < after.handles.len() implies (#[trigger] after.handles[t]).object
        < after.heap.len() by {
        if t < before.handles.len() {
            assert(before.handles[t].object < before.heap.len());
        }
    }
}

/// A step that fails and changes nothing.
pub open spec fn refused(state: JvmModel, error: ErrorModel) -> Step {
    Step { state, result: Err(error) }
}

/// The elements that the wire values stand for, where each of them is a
/// single value.
pub open spec fn single_values(wires: Seq<WireModel>) -> Option<Seq<AtomModel>> {
    if forall|i: int| 0 <= i < wires.len() ==> (#[trigger] wires[i]).data is Single {
        Some(Seq::new(wires.len(), |i: int| wires[i].data->Single_0))
    } else {
        None
    }
}

impl JvmModel {
    /// `create_instance`: the runtime must be usable (`RuntimeUnavailable`),
    /// the class must be declared (`ClassNotFound`), the arguments must
    /// marshal, and the argument types must select one constructor
    /// (`MethodNotFound`), which then runs.
    pub open spec fn create_instance(self, class_name: Seq<char>, args: Seq<ArgModel>) -> Step {
        if !self.usable() {
            refused(self, ErrorModel::RuntimeUnavailable)
        } else if !is_declared(self.classes, class_name) {
            refused(self, ErrorModel::ClassNotFound)
        } else {
            match self.to_wires(args) {
                Err(k) => refused(self, ErrorModel::of_kind(k)),
                Ok(wires) => match self.select(
                    class_name,
                    MemberKind::Constructor,
                    class_name,
                    wire_types(wires),
                    false,
                ) {
                    None => refused(
                        self,
                        ErrorModel::MethodNotFound { name: class_name, arg_types: wire_types(wires) },
                    ),
                    Some(member) => self.complete(
                        run_model(member.behaviour, ObjectModel::Plain, wire_data(wires), self.clock),
                        class_name,
                        None,
                    ),
                },
            }
        }
    }

    /// A call of a method or a read of a field through a handle. The
    /// runtime must be usable (`RuntimeUnavailable`), the handle's reference
    /// must be live (`HandleReleased`) and the arguments must marshal. The
    /// member is looked for in the class the handle declares; on a handle
    /// that stands for a class, only static members are. Where name and
    /// argument types select no member, the call is a `MethodNotFound` that
    /// carries both. The selected member runs on the object behind the
    /// handle, which it may change.
    pub open spec fn call(
        self,
        handle: HandleModel,
        kind: MemberKind,
        name: Seq<char>,
        args: Seq<ArgModel>,
    ) -> Step {
        if !self.usable() {
            refused(self, ErrorModel::RuntimeUnavailable)
        } else if !is_live(self.handles, handle.token) {
            refused(self, ErrorModel::HandleReleased)
        } else {
            let object = self.object_of(handle.token);
            match self.to_wires(args) {
                Err(k) => refused(self, ErrorModel::of_kind(k)),
                Ok(wires) => match self.select(
                    handle.class_name,
                    kind,
                    name,
                    wire_types(wires),
                    self.heap[object].is_class,
                ) {
                    None => refused(
                        self,
                        ErrorModel::MethodNotFound { name, arg_types: wire_types(wires) },
                    ),
                    Some(member) => {
                        let effect = run_model(
                            member.behaviour,
                            self.heap[object].data,
                            wire_data(wires),
                            self.clock,
                        );
                        let updated = JvmModel {
                            heap: self.heap.update(
                                object,
                                ObjectEntry { data: effect.receiver, ..self.heap[object] },
                            ),
                            ..self
                        };
                        updated.complete(effect, member.returns, self.heap[object].channel)
                    },
                },
            }
        }
    }

    /// `invoke_static`: as a call of a method, without a receiver and among
    /// the static methods of the named class, which must be declared
    /// (`ClassNotFound`).
    pub open spec fn invoke_static(
        self,
        class_name: Seq<char>,
        name: Seq<char>,
        args: Seq<ArgModel>,
    ) -> Step {
        if !self.usable() {
            refused(self, ErrorModel::RuntimeUnavailable)
        } else if !is_declared(self.classes, class_name) {
            refused(self, ErrorModel::ClassNotFound)
        } else {
            match self.to_wires(args) {
                Err(k) => refused(self, ErrorModel::of_kind(k)),
                Ok(wires) => match self.select(
                    class_name,
                    MemberKind::Method,
                    name,
                    wire_types(wires),
                    true,
                ) {
                    None => refused(
                        self,
                        ErrorModel::MethodNotFound { name, arg_types: wire_types(wires) },
                    ),
                    Some(member) => self.complete(
                        run_model(member.behaviour, ObjectModel::Plain, wire_data(wires), self.clock),
                        member.returns,
                        None,
                    ),
                },
            }
        }
    }

    /// `static_class`: a handle that stands for a declared class.
    pub open spec fn static_class(self, class_name: Seq<char>) -> Step {
        if !self.usable() {
            refused(self, ErrorModel::RuntimeUnavailable)
        } else if !is_declared(self.classes, class_name) {
            refused(self, ErrorModel::ClassNotFound)
        } else {
            Step {
                state: self.allocate(
                    ObjectEntry { class_name, data: ObjectModel::Plain, channel: None, is_class: true },
                ),
                result: Ok(self.next_handle(class_name)),
            }
        }
    }

    /// `cast`: a new handle to the same object under another class. The
    /// reference must be live (`HandleReleased`), the target must be
    /// declared (`ClassNotFound`), and the class the object was created as
    /// must be assignable to the target (`IllegalCast`).
    pub open spec fn cast(self, handle: HandleModel, target: Seq<char>) -> Step {
        if !self.usable() {
            refused(self, ErrorModel::RuntimeUnavailable)
        } else if !is_live(self.handles, handle.token) {
            refused(self, ErrorModel::HandleReleased)
        } else if !is_declared(self.classes, target) {
            refused(self, ErrorModel::ClassNotFound)
        } else if !assignable(
            self.classes,
            self.heap[self.object_of(handle.token)].class_name,
            target,
        ) {
            refused(self, ErrorModel::IllegalCast)
        } else {
            Step {
                state: self.share(self.object_of(handle.token)),
                result: Ok(self.next_handle(target)),
            }
        }
    }

    /// `clone_instance`: a second, independent reference to the same object.
    pub open spec fn clone_instance(self, handle: HandleModel) -> Step {
        if !self.usable() {
            refused(self, ErrorModel::RuntimeUnavailable)
        } else if !is_live(self.handles, handle.token) {
            refused(self, ErrorModel::HandleReleased)
        } else {
            Step {
                state: self.share(self.object_of(handle.token)),
                result: Ok(self.next_handle(handle.class_name)),
            }
        }
    }

    /// `create_java_array`: an array of the declared class `class_name`
    /// (`ClassNotFound`) that holds the arguments in order. The arguments
    /// must marshal, and each must be a single value that is null or of the
    /// class `class_name` (`ConversionError`).
    pub open spec fn create_java_array(self, class_name: Seq<char>, args: Seq<ArgModel>) -> Step {
        if !self.usable() {
            refused(self, ErrorModel::RuntimeUnavailable)
        } else if !is_declared(self.classes, class_name) {
            refused(self, ErrorModel::ClassNotFound)
        } else {
            match self.to_wires(args) {
                Err(k) => refused(self, ErrorModel::of_kind(k)),
                Ok(wires) => match single_values(wires) {
                    None => refused(self, ErrorModel::ConversionError),
                    Some(elements) => if !homogeneous(elements, class_name) {
                        refused(self, ErrorModel::ConversionError)
                    } else {
                        Step {
                            state: self.allocate(
                                ObjectEntry {
                                    class_name: array_of(class_name),
                                    data: ObjectModel::Items(elements),
                                    channel: None,
                                    is_class: false,
                                },
                            ),
                            result: Ok(self.next_handle(array_of(class_name))),
                        }
                    },
                },
            }
        }
    }
}

impl JvmModel {
    /// The runtime after the reference of a handle has been released.
    pub open spec fn release(self, handle: HandleModel) -> JvmModel {
        JvmModel { handles: after_release(self.handles, handle.token), ..self }
    }

    /// What `from_wire` gives for the object behind a handle and a host
    /// type: the runtime must be usable (`RuntimeUnavailable`), the
    /// reference must be live (`HandleReleased`), and the object's data
    /// convert as [`object_to_host`] says.
    pub open spec fn to_rust(self, handle: HandleModel, target: Target) -> Result<HostModel, ErrorKind> {
        if !self.usable() {
            Err(ErrorKind::RuntimeUnavailable)
        } else if !is_live(self.handles, handle.token) {
            Err(ErrorKind::HandleReleased)
        } else {
            object_to_host(self.heap[self.object_of(handle.token)].data, target)
        }
    }

    /// The runtime after a callback channel has been registered on the
    /// object behind a live handle: the registry has one more channel, empty
    /// and open, and the object holds its capability.
    pub open spec fn register(self, handle: HandleModel) -> JvmModel
        recommends
            is_live(self.handles, handle.token),
    {
        let object = self.object_of(handle.token);
        JvmModel {
            registry: self.registry.push(ChannelModel { queue: Seq::empty(), open: true }),
            heap: self.heap.update(
                object,
                ObjectEntry {
                    channel: Some(RegistrationToken { address: self.registry.len() as u64 }),
                    ..self.heap[object]
                },
            ),
            ..self
        }
    }

    /// The capability of the next registration.
    pub open spec fn next_registration(self) -> RegistrationToken {
        RegistrationToken { address: self.registry.len() as u64 }
    }

    /// The runtime after `invoke_to_channel` on a live handle: a channel is
    /// registered on the receiver, the method is invoked, and the handle of
    /// what the method returned is released at once.
    pub open spec fn invoke_to_channel(
        self,
        handle: HandleModel,
        name: Seq<char>,
        args: Seq<ArgModel>,
    ) -> Step
        recommends
            is_live(self.handles, handle.token),
    {
        let step = self.register(handle).call(handle, MemberKind::Method, name, args);
        match step.result {
            Ok(returned) => Step { state: step.state.release(returned), result: step.result },
            Err(_) => step,
        }
    }
}

/// A call by a name that no method of the handle's class bears fails with
/// `MethodNotFound`, which carries the name and the marshaled argument
/// types, and changes nothing.
pub proof fn lemma_unknown_method_is_not_found(
    m: JvmModel,
    handle: HandleModel,
    name: Seq<char>,
    args: Seq<ArgModel>,
)
    requires
        m.usable(),
        is_live(m.handles, handle.token),
        m.to_wires(args).is_ok(),
        is_declared(m.classes, handle.class_name) ==> forall|i: int|
            0 <= i < class_named(m.classes, handle.class_name).methods.len() ==> (
            #[trigger] class_named(m.classes, handle.class_name).methods[i]).name != name,
    ensures
        m.call(handle, MemberKind::Method, name, args) == refused(
            m,
            ErrorModel::MethodNotFound {
                name,
                arg_types: wire_types(m.to_wires(args).unwrap()),
            },
        ),
{
    let wires = m.to_wires(args).unwrap();
    let object = m.object_of(handle.token);
    if is_declared(m.classes, handle.class_name) {
        let members = members_of(class_named(m.classes, handle.class_name), MemberKind::Method);
        lemma_unknown_name_selects_nothing(
            m.classes,
            members,
            name,
            wire_types(wires),
            m.heap[object].is_class,
        );
    }
}

/// A cast is decided by assignability alone. Where the class the object was
/// created as is assignable to the target, the cast succeeds: its handle is
/// a new live reference to the same object and declares the target class,
/// so that later calls through it are resolved among the members of the
/// target. Where it is not assignable, the cast fails with `IllegalCast`
/// and changes nothing.
pub proof fn lemma_cast_follows_assignability(m: JvmModel, handle: HandleModel, target: Seq<char>)
    requires
        m.wf(),
        m.usable(),
        is_live(m.handles, handle.token),
        is_declared(m.classes, target),
    ensures
        ({
            let object = m.object_of(handle.token);
            let step = m.cast(handle, target);
            if assignable(m.classes, m.heap[object].class_name, target) {
                &&& step.result == Ok::<HandleModel, ErrorModel>(
                    HandleModel { token: m.handles.len() as int, class_name: target },
                )
                &&& is_live(step.state.handles, m.handles.len() as int)
                &&& step.state.object_of(m.handles.len() as int) == object
                &&& is_live(step.state.handles, handle.token)
                &&& step.state.heap == m.heap
                &&& step.state.wf()
            } else {
                step == refused(m, ErrorModel::IllegalCast)
            }
        }),
{
    let object = m.object_of(handle.token);
    if assignable(m.classes, m.heap[object].class_name, target) {
        lemma_growth_keeps_wf(m, m.cast(handle, target).state);
    }
}

/// Primitive round trip: a scalar marshaled as a primitive goes over as
/// itself, under the name of its unboxed type, and what crossed converts
/// back into the scalar's own host type as the value that went in. The same
/// holds of the boxed object that the constructor of its class makes of it.
pub proof fn lemma_primitive_round_trip(m: JvmModel, v: Primitive, receiver: ObjectModel)
    ensures
        m.to_wire(ArgModel::Primitive { scalar: v }) == Ok::<WireModel, ErrorKind>(
            WireModel { wire_type: primitive_type(v), data: scalar_data(v) },
        ),
        run_model(Behaviour::NewBoxed, receiver, seq![scalar_data(v)], m.clock).outcome == Ok::<
            ObjectModel,
            Fault,
        >(scalar_data(v)),
        object_to_host(scalar_data(v), Target::Item(v.natural_target())) == Ok::<
            HostModel,
            ErrorKind,
        >(HostModel::Item(v.model())),
{
}

/// String round trip: a host string marshaled as a managed string goes over
/// unchanged, the constructor of the string class keeps its text, and the
/// object converts back into the host string that went in.
pub proof fn lemma_string_round_trip(m: JvmModel, s: Seq<char>, receiver: ObjectModel)
    requires
        is_declared(m.classes, string_class()),
    ensures
        m.to_wire(ArgModel::Rust { value: text_data(s), class_name: string_class() }) == Ok::<
            WireModel,
            ErrorKind,
        >(WireModel { wire_type: string_class(), data: text_data(s) }),
        run_model(Behaviour::NewText, receiver, seq![text_data(s)], m.clock).outcome == Ok::<
            ObjectModel,
            Fault,
        >(text_data(s)),
        object_to_host(text_data(s), Target::Item(ItemTarget::Text)) == Ok::<HostModel, ErrorKind>(
            HostModel::Item(ItemModel::Text(s)),
        ),
{
}

/// A string survives the runtime: where the string class is constructed from
/// a string by keeping its text, an instance created from the host string
/// `s` converts back into `s`.
pub proof fn lemma_created_string_converts_back(m: JvmModel, s: Seq<char>)
    requires
        m.wf(),
        m.usable(),
        m.select(
            string_class(),
            MemberKind::Constructor,
            string_class(),
            seq![string_class()],
            false,
        ) matches Some(member) && member.behaviour == Behaviour::NewText,
    ensures
        ({
            let arg = ArgModel::Rust { value: text_data(s), class_name: string_class() };
            let step = m.create_instance(string_class(), seq![arg]);
            &&& step.result == Ok::<HandleModel, ErrorModel>(m.next_handle(string_class()))
            &&& step.state.to_rust(m.next_handle(string_class()), Target::Item(ItemTarget::Text))
                == Ok::<HostModel, ErrorKind>(HostModel::Item(ItemModel::Text(s)))
        }),
{
    let arg = ArgModel::Rust { value: text_data(s), class_name: string_class() };
    let wire = WireModel { wire_type: string_class(), data: text_data(s) };
    assert(seq![arg].drop_last() =~= Seq::<ArgModel>::empty());
    assert(m.to_wires(seq![arg].drop_last()) == Ok::<Seq<WireModel>, ErrorKind>(Seq::empty()));
    assert(m.to_wires(seq![arg]) == Ok::<Seq<WireModel>, ErrorKind>(Seq::empty().push(wire)));
    let wires = m.to_wires(seq![arg]).unwrap();
    assert(wire_types(wires) =~= seq![string_class()]);
    assert(wire_data(wires) =~= seq![text_data(s)]);
    let step = m.create_instance(string_class(), seq![arg]);
    let created = m.allocate(
        ObjectEntry {
            class_name: string_class(),
            data: text_data(s),
            channel: None,
            is_class: false,
        },
    );
    assert(created.callbacks(None, 0, false) == created);
    assert(step.state == created);
}

/// What converting a scalar into one host value gives, as the conversion of
/// an object.
pub open spec fn scalar_as_host(v: Primitive, target: ItemTarget) -> Result<HostModel, ErrorKind> {
    match scalar_to_host(v, target) {
        Ok(model) => Ok(HostModel::Item(model)),
        Err(k) => Err(k),
    }
}

/// A scalar survives the runtime: where the class that boxes `v` is
/// constructed from the primitive by boxing it, an instance created from the
/// primitive `v` converts into a host type as the scalar `v` itself does.
/// Into its own host type it converts back into the value `v`; an integer
/// that lies outside the range of the host type asked for is a
/// `NumericOverflow`.
pub proof fn lemma_created_scalar_converts_back(m: JvmModel, v: Primitive, target: ItemTarget)
    requires
        m.wf(),
        m.usable(),
        m.select(
            boxed_class(v),
            MemberKind::Constructor,
            boxed_class(v),
            seq![primitive_type(v)],
            false,
        ) matches Some(member) && member.behaviour == Behaviour::NewBoxed,
    ensures
        ({
            let handle = m.next_handle(boxed_class(v));
            let step = m.create_instance(boxed_class(v), seq![ArgModel::Primitive { scalar: v }]);
            &&& step.result == Ok::<HandleModel, ErrorModel>(handle)
            &&& step.state.to_rust(handle, Target::Item(target)) == scalar_as_host(v, target)
            &&& step.state.to_rust(handle, Target::Item(v.natural_target())) == Ok::<
                HostModel,
                ErrorKind,
            >(HostModel::Item(v.model()))
            &&& (v.integral() matches Some(i) && target.is_integer() && !(target.min() <= i
                <= target.max())) ==> step.state.to_rust(handle, Target::Item(target)) == Err::<
                HostModel,
                ErrorKind,
            >(ErrorKind::NumericOverflow)
        }),
{
    let arg = ArgModel::Primitive { scalar: v };
    let wire = WireModel { wire_type: primitive_type(v), data: scalar_data(v) };
    assert(seq![arg].drop_last() =~= Seq::<ArgModel>::empty());
    assert(m.to_wires(seq![arg].drop_last()) == Ok::<Seq<WireModel>, ErrorKind>(Seq::empty()));
    assert(m.to_wires(seq![arg]) == Ok::<Seq<WireModel>, ErrorKind>(Seq::empty().push(wire)));
    let wires = m.to_wires(seq![arg]).unwrap();
    assert(wire_types(wires) =~= seq![primitive_type(v)]);
    assert(wire_data(wires) =~= seq![scalar_data(v)]);
    let step = m.create_instance(boxed_class(v), seq![arg]);
    let created = m.allocate(
        ObjectEntry {
            class_name: boxed_class(v),
            data: scalar_data(v),
            channel: None,
            is_class: false,
        },
    );
    assert(created.callbacks(None, 0, false) == created);
    assert(step.state == created);
}

/// The handles that `n` callbacks deliver, where the first of them gets the
/// reference `first`.
pub open spec fn delivered_batch(first: int, n: nat) -> Seq<HandleModel> {
    Seq::new(n, |k: int| HandleModel { token: first + k, class_name: string_class() })
}

/// Every callback of a call arrives: after `n` callbacks to an open channel
/// of a running runtime, the channel holds what it held before, followed by
/// `n` new handles in the order of delivery, whatever threads delivered
/// them. None is lost, and no other channel changes.
pub proof fn lemma_callbacks_all_arrive(m: JvmModel, token: RegistrationToken, n: nat, spread: bool)
    requires
        m.gateway.available,
        is_deliverable(m.registry, token),
    ensures
        ({
            let after = m.callbacks(Some(token), n, spread);
            &&& after.registry == m.registry.update(
                token.address as int,
                ChannelModel {
                    queue: m.registry[token.address as int].queue + delivered_batch(
                        m.handles.len() as int,
                        n,
                    ),
                    open: true,
                },
            )
            &&& after.lost == m.lost
            &&& after.handles.len() == m.handles.len() + n
            &&& after.heap.len() == m.heap.len() + n
            &&& after.gateway.available
        }),
    decreases n,
{
    let at = token.address as int;
    let first = m.handles.len() as int;
    if n == 0 {
        assert(m.registry[at].queue + delivered_batch(first, 0) =~= m.registry[at].queue);
        assert(m.registry =~= m.registry.update(
            at,
            ChannelModel { queue: m.registry[at].queue + delivered_batch(first, 0), open: true },
        ));
    } else {
        let k = (n - 1) as nat;
        lemma_callbacks_all_arrive(m, token, k, spread);
        let before = m.callbacks(Some(token), k, spread);
        let thread = worker_thread(k, spread, m.owner);
        let created = JvmModel { heap: before.heap.push(payload_entry()), ..before };
        assert(is_deliverable(before.registry, token));
        assert(created.deliver_outcome(token, before.heap.len() as int).is_ok());
        let after = before.callback(Some(token), thread);
        assert(after == created.after_deliver(thread, token, before.heap.len() as int));
        assert(created.heap[before.heap.len() as int] == payload_entry());
        assert((m.registry[at].queue + delivered_batch(first, k)).push(
            HandleModel { token: first + k, class_name: string_class() },
        ) =~= m.registry[at].queue + delivered_batch(first, n));
        assert(after.registry =~= m.registry.update(
            at,
            ChannelModel { queue: m.registry[at].queue + delivered_batch(first, n), open: true },
        ));
    }
}

/// Marshaling fails on the whole list with the failure of a prefix.
pub proof fn lemma_to_wires_fails_on(m: JvmModel, args: Seq<ArgModel>, n: int)
    requires
        0 <= n <= args.len(),
        m.to_wires(args.take(n)).is_err(),
    ensures
        m.to_wires(args) == m.to_wires(args.take(n)),
    decreases args.len() - n,
{
    if n < args.len() {
        assert(args.take(n + 1).drop_last() =~= args.take(n));
        lemma_to_wires_fails_on(m, args, n + 1);
    } else {
        assert(args.take(n) =~= args);
    }
}

} // verus!

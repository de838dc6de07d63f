//! The runtime handle: the state of one managed runtime as the bridge sees
//! it, and every boundary-crossing operation on it.
//!
//! The handle is an explicit value. It holds the class table, the objects,
//! the references handed out to the host, the callback registrations and the
//! thread attachments of one runtime; nothing of it is ambient state.

use vstd::prelude::*;
use vstd::string::StringExecFns;
use crate::args::{ArgModel, args_model, HostValue, InvocationArg};
use crate::callback::{
    after_close,
    after_receive,
    CallbackEnvelope,
    CallbackRegistry,
    InstanceReceiver,
    is_deliverable,
    next_in_queue,
    RegistrationToken,
};
use crate::classes::{Behaviour, class_named, ClassTable, MemberKind, members_model, members_of};
use crate::errors::{ErrorKind, ErrorModel, J4RsError};
use crate::gateway::{Attachment, GatewayModel, RuntimeAccess, ThreadGateway};
use crate::handles::{HandleModel, HandleTable, Instance, is_live, release_outcome};
use crate::host::FromManaged;
use crate::marshal::{
    Atom,
    AtomModel,
    atoms_model,
    clone_atoms,
    HostModel,
    ObjectData,
    ObjectModel,
};
use crate::model::{
    conforms,
    homogeneous,
    JvmModel,
    lemma_growth_keeps_wf,
    lemma_to_wires_fails_on,
    ObjectEntry,
    payload_entry,
    single_values,
    wire_data,
    wire_types,
    WireModel,
};
use crate::names::{
    array_type_name,
    atom_class,
    atom_class_name,
    boxed_class_name,
    class_name_of_data,
    primitive_type_name,
};
use crate::natives::{clone_data, data_model, Effect, fault_message_text, fault_trace_text, run};
use crate::provisioning::{JavaArtifact, MavenSettings, repos_model};
use crate::resolve::{choice_of, lemma_choice_is_unique, resolve};

verus! {

/// One object of the managed runtime.
#[derive(Debug)]
pub struct ManagedObject {
    /// The class the object was created as.
    pub class_name: String,
    pub data: ObjectData,
    /// The callback channel registered on the object, if any.
    pub channel: Option<RegistrationToken>,
    /// Whether the object stands for a class, as the receiver of its static
    /// members.
    pub is_class: bool,
}

impl View for ManagedObject {
    type V = ObjectEntry;

    open spec fn view(&self) -> ObjectEntry {
        ObjectEntry {
            class_name: self.class_name@,
            data: self.data@,
            channel: self.channel,
            is_class: self.is_class,
        }
    }
}

/// The models of the objects of a heap, position by position.
pub open spec fn heap_model(heap: Seq<ManagedObject>) -> Seq<ObjectEntry> {
    Seq::new(heap.len(), |i: int| heap[i]@)
}

/// A marshaled argument as the managed runtime takes it: the type overload
/// resolution goes by, and the data the callee sees.
#[derive(Debug)]
pub struct WireValue {
    pub wire_type: String,
    pub data: ObjectData,
}

impl View for WireValue {
    type V = WireModel;

    open spec fn view(&self) -> WireModel {
        WireModel { wire_type: self.wire_type@, data: self.data@ }
    }
}

/// The models of a sequence of wire values, position by position.
pub open spec fn wires_model(wires: Seq<WireValue>) -> Seq<WireModel> {
    Seq::new(wires.len(), |i: int| wires[i]@)
}

/// Decides [`conforms`].
pub fn check_conforms(value: &HostValue, class_name: &String) -> (r: bool)
    ensures
        r == conforms(value@, class_name@),
{
    match value {
        HostValue::Text(_) => *class_name == String::from_str("java.lang.String"),
        HostValue::Scalar(p) => *class_name == boxed_class_name(p),
        HostValue::List(_) => *class_name == String::from_str("java.util.List"),
    }
}

/// Decides [`homogeneous`].
pub fn check_homogeneous(elements: &Vec<Atom>, element_class: &String) -> (r: bool)
    ensures
        r == homogeneous(atoms_model(elements@), element_class@),
{
    let ghost all = atoms_model(elements@);
    let mut i: usize = 0;
    while i < elements.len()
        invariant
            i <= elements.len(),
            all == atoms_model(elements@),
            forall|j: int|
                0 <= j < i ==> (#[trigger] all[j]) == AtomModel::Null || atom_class(all[j]) == Some(
                    element_class@,
                ),
        decreases elements.len() - i,
    {
        let fits = match atom_class_name(&elements[i]) {
            None => true,
            Some(name) => name == *element_class,
        };
        if !fits {
            assert(!(all[i as int] == AtomModel::Null || atom_class(all[i as int]) == Some(
                element_class@,
            )));
            return false;
        }
        i += 1;
    }
    true
}

/// Copies a host value into the data of a managed object.
pub fn host_to_data(value: &HostValue) -> (r: ObjectData)
    ensures
        r@ == value@,
{
    match value {
        HostValue::Scalar(p) => ObjectData::Single(Atom::Scalar(*p)),
        HostValue::Text(s) => ObjectData::Single(Atom::Text(s.clone())),
        HostValue::List(items) => ObjectData::Items(clone_atoms(items)),
    }
}

/// The runtime handle.
#[derive(Debug)]
pub struct Jvm {
    classes: ClassTable,
    heap: Vec<ManagedObject>,
    handles: HandleTable,
    registry: CallbackRegistry,
    gateway: ThreadGateway,
    owner: u64,
    clock: i64,
    console: Vec<String>,
    lost: usize,
    classpath: Vec<String>,
    java_opts: Vec<String>,
    settings: MavenSettings,
}

impl View for Jvm {
    type V = JvmModel;

    closed spec fn view(&self) -> JvmModel {
        JvmModel {
            classes: self.classes@,
            heap: heap_model(self.heap@),
            handles: self.handles@,
            registry: self.registry@,
            gateway: self.gateway@,
            owner: self.owner,
            clock: self.clock,
            console: self.console.deep_view(),
            lost: self.lost as nat,
            classpath: self.classpath.deep_view(),
            java_opts: self.java_opts.deep_view(),
            repos: repos_model(self.settings.repos@),
        }
    }
}

impl Jvm {
    /// A runtime with the given class table and configuration, without
    /// objects, references or registrations. The thread `owner` holds the
    /// handle and is attached.
    pub fn configured(
        classes: ClassTable,
        classpath: Vec<String>,
        java_opts: Vec<String>,
        settings: MavenSettings,
        owner: u64,
        clock: i64,
    ) -> (jvm: Jvm)
        ensures
            jvm@.wf(),
            jvm@ == JvmModel::fresh(
                classes@,
                classpath.deep_view(),
                java_opts.deep_view(),
                repos_model(settings.repos@),
                owner,
                clock,
            ),
    {
        let mut gateway = ThreadGateway::new();
        let attached = gateway.attach_current_thread(owner, true, true);
        assert(gateway@.attachments =~= seq![Attachment { thread: owner, detach_on_exit: true }]);
        let jvm = Jvm {
            classes,
            heap: Vec::new(),
            handles: HandleTable::new(),
            registry: CallbackRegistry::new(),
            gateway,
            owner,
            clock,
            console: Vec::new(),
            lost: 0,
            classpath,
            java_opts,
            settings,
        };
        assert(jvm@.heap =~= Seq::<ObjectEntry>::empty());
        assert(jvm@.console =~= Seq::<Seq<char>>::empty());
        jvm
    }

    /// Marshals one argument into the representation the managed runtime
    /// expects.
    pub fn to_wire(&self, arg: &InvocationArg) -> (r: Result<WireValue, J4RsError>)
        requires
            self@.wf(),
        ensures
            match r {
                Ok(w) => self@.to_wire(arg@) == Ok::<WireModel, ErrorKind>(w@),
                Err(e) => self@.to_wire(arg@) == Err::<WireModel, ErrorKind>(e@.kind()) && e@
                    == ErrorModel::of_kind(e@.kind()),
            },
    {
        match arg {
            InvocationArg::Primitive { scalar } => Ok(
                WireValue {
                    wire_type: primitive_type_name(scalar),
                    data: ObjectData::Single(Atom::Scalar(*scalar)),
                },
            ),
            InvocationArg::Rust { value, class_name } => {
                if self.classes.find(class_name).is_none() {
                    Err(J4RsError::ClassNotFound)
                } else if !check_conforms(value, class_name) {
                    Err(J4RsError::ConversionError)
                } else {
                    Ok(WireValue { wire_type: class_name.clone(), data: host_to_data(value) })
                }
            },
            InvocationArg::Java { instance, class_name } => {
                match self.handles.resolve(instance.reference()) {
                    Err(_) => Err(J4RsError::HandleReleased),
                    Ok(object) => {
                        assert(self.heap@[object as int]@ == self@.heap[object as int]);
                        Ok(
                            WireValue {
                                wire_type: class_name.clone(),
                                data: clone_data(&self.heap[object].data),
                            },
                        )
                    },
                }
            },
            InvocationArg::Array { elements, element_class } => {
                if self.classes.find(element_class).is_none() {
                    Err(J4RsError::ClassNotFound)
                } else if !check_homogeneous(elements, element_class) {
                    Err(J4RsError::ConversionError)
                } else {
                    Ok(
                        WireValue {
                            wire_type: array_type_name(element_class),
                            data: ObjectData::Items(clone_atoms(elements)),
                        },
                    )
                }
            },
        }
    }

    /// Marshals an argument list, in order.
    pub fn to_wires(&self, args: &[InvocationArg]) -> (r: Result<Vec<WireValue>, J4RsError>)
        requires
            self@.wf(),
        ensures
            match r {
                Ok(wires) => self@.to_wires(args_model(args@)) == Ok::<Seq<WireModel>, ErrorKind>(
                    wires_model(wires@),
                ),
                Err(e) => self@.to_wires(args_model(args@)) == Err::<Seq<WireModel>, ErrorKind>(
                    e@.kind(),
                ) && e@ == ErrorModel::of_kind(e@.kind()),
            },
    {
        let ghost all = args_model(args@);
        let mut wires: Vec<WireValue> = Vec::new();
        let mut i: usize = 0;
        proof {
            assert(all.take(0) =~= Seq::<ArgModel>::empty());
            assert(wires_model(wires@) =~= Seq::<WireModel>::empty());
        }
        while i < args.len()
            invariant
                i <= args.len(),
                all == args_model(args@),
                self@.wf(),
                self@.to_wires(all.take(i as int)) == Ok::<Seq<WireModel>, ErrorKind>(
                    wires_model(wires@),
                ),
            decreases args.len() - i,
        {
            proof {
                assert(all.take(i as int + 1).drop_last() =~= all.take(i as int));
                assert(all.take(i as int + 1).last() == args@[i as int]@);
            }
            match self.to_wire(&args[i]) {
                Err(e) => {
                    proof {
                        lemma_to_wires_fails_on(self@, all, i as int + 1);
                    }
                    return Err(e);
                },
                Ok(w) => {
                    let ghost before = wires@;
                    wires.push(w);
                    proof {
                        assert(wires_model(wires@) =~= wires_model(before).push(w@));
                    }
                },
            }
            i += 1;
        }
        proof {
            assert(all.take(args@.len() as int) =~= all);
        }
        Ok(wires)
    }
}

/// The types and the data of a list of wire values, apart.
fn unzip(wires: Vec<WireValue>) -> (r: (Vec<String>, Vec<ObjectData>))
    ensures
        r.0.deep_view() == wire_types(wires_model(wires@)),
        data_model(r.1@) == wire_data(wires_model(wires@)),
{
    let ghost all = wires_model(wires@);
    let mut types: Vec<String> = Vec::new();
    let mut data: Vec<ObjectData> = Vec::new();
    let mut rest = wires;
    let ghost mut done: int = 0;
    // The wires are taken from the back, so both lists are built reversed
    // and turned round at the end.
    while rest.len() > 0
        invariant
            done + rest.len() == all.len(),
            types.len() == done,
            data.len() == done,
            forall|j: int| 0 <= j < rest.len() ==> (#[trigger] rest@[j])@ == all[j],
            forall|j: int|
                0 <= j < done ==> (#[trigger] types@[j])@ == all[all.len() - 1 - j].wire_type,
            forall|j: int| 0 <= j < done ==> (#[trigger] data@[j])@ == all[all.len() - 1 - j].data,
        decreases rest.len(),
    {
        let w = rest.pop().unwrap();
        types.push(w.wire_type);
        data.push(w.data);
        proof {
            done = done + 1;
        }
    }
    let mut types_in_order: Vec<String> = Vec::new();
    let mut data_in_order: Vec<ObjectData> = Vec::new();
    while types.len() > 0
        invariant
            types.len() == data.len(),
            types.len() + types_in_order.len() == all.len(),
            types_in_order.len() == data_in_order.len(),
            forall|j: int|
                0 <= j < types.len() ==> (#[trigger] types@[j])@ == all[all.len() - 1 - j].wire_type,
            forall|j: int|
                0 <= j < data.len() ==> (#[trigger] data@[j])@ == all[all.len() - 1 - j].data,
            forall|j: int|
                0 <= j < types_in_order.len() ==> (#[trigger] types_in_order@[j])@
                    == all[j].wire_type,
            forall|j: int|
                0 <= j < data_in_order.len() ==> (#[trigger] data_in_order@[j])@ == all[j].data,
        decreases types.len(),
    {
        let t = types.pop().unwrap();
        let d = data.pop().unwrap();
        types_in_order.push(t);
        data_in_order.push(d);
    }
    proof {
        assert(types_in_order.deep_view() =~= wire_types(all));
        assert(data_model(data_in_order@) =~= wire_data(all));
    }
    (types_in_order, data_in_order)
}

impl Jvm {
    /// Whether calls can be issued through the handle.
    pub fn usable(&self) -> (r: bool)
        ensures
            r == self@.usable(),
    {
        self.gateway.is_available() && self.gateway.is_attached(self.owner)
    }

    /// Resolves a call against the members of one kind of a class.
    fn select(
        &self,
        class_name: &String,
        kind: MemberKind,
        name: &String,
        arg_types: &Vec<String>,
        statics_only: bool,
    ) -> (r: Option<(Behaviour, String)>)
        ensures
            match r {
                Some((behaviour, declared)) => self@.select(
                    class_name@,
                    kind,
                    name@,
                    arg_types.deep_view(),
                    statics_only,
                ) matches Some(m) && m.behaviour == behaviour && m.returns == declared@,
                None => self@.select(
                    class_name@,
                    kind,
                    name@,
                    arg_types.deep_view(),
                    statics_only,
                ).is_none(),
            },
    {
        match self.classes.find(class_name) {
            None => None,
            Some(i) => {
                let members = self.classes.classes[i].members(kind);
                match resolve(&self.classes, members, name, arg_types, statics_only) {
                    None => None,
                    Some(j) => {
                        proof {
                            let ms = members_of(class_named(self@.classes, class_name@), kind);
                            assert(ms == members_model(members@));
                            let c = choice_of(
                                self@.classes,
                                ms,
                                name@,
                                arg_types.deep_view(),
                                statics_only,
                            );
                            lemma_choice_is_unique(
                                self@.classes,
                                ms,
                                name@,
                                arg_types.deep_view(),
                                statics_only,
                                j as int,
                                c,
                            );
                        }
                        Some((members[j].behaviour, members[j].returns.clone()))
                    },
                }
            },
        }
    }

    /// Creates an object and hands out a reference to it.
    fn allocate(&mut self, class_name: String, data: ObjectData, is_class: bool) -> (handle: Instance)
        requires
            old(self)@.wf(),
        ensures
            final(self)@.wf(),
            final(self)@ == old(self)@.allocate(
                ObjectEntry { class_name: class_name@, data: data@, channel: None, is_class },
            ),
            handle@ == old(self)@.next_handle(class_name@),
    {
        let object = self.heap.len();
        let name = class_name.clone();
        self.heap.push(ManagedObject { class_name, data, channel: None, is_class });
        // Reading the length back tells the proof that it fits the machine.
        let _objects = self.heap.len();
        let token = self.handles.mint(object);
        proof {
            assert(heap_model(self.heap@) =~= heap_model(old(self).heap@).push(
                ObjectEntry { class_name: class_name@, data: data@, channel: None, is_class },
            ));
            lemma_growth_keeps_wf(old(self)@, self@);
        }
        Instance::new(token, name)
    }

    /// The bridge entry point: delivers the managed object of `envelope` to
    /// the channel that its capability names, on behalf of the managed
    /// runtime's thread `thread`.
    ///
    /// The thread is attached, and is not detached when it ends. The
    /// capability is looked up in the registry. A failure is answered and
    /// never unwinds: `RuntimeUnavailable` without a runtime, `NullResult`
    /// where the envelope names no object of the runtime, `ChannelClosed`
    /// where the capability is unknown or the receiving end is gone.
    pub fn deliver(&mut self, thread: u64, envelope: CallbackEnvelope) -> (r: Result<(), J4RsError>)
        requires
            old(self)@.wf(),
        ensures
            final(self)@.wf(),
            final(self)@ == old(self)@.after_deliver(thread, envelope.token, envelope.object as int),
            match r {
                Ok(_) => old(self)@.deliver_outcome(envelope.token, envelope.object as int) == Ok::<
                    (),
                    ErrorKind,
                >(()),
                Err(e) => old(self)@.deliver_outcome(envelope.token, envelope.object as int)
                    == Err::<(), ErrorKind>(e@.kind()) && e@ == ErrorModel::of_kind(e@.kind()),
            },
    {
        let CallbackEnvelope { token, object } = envelope;
        match self.gateway.attach_current_thread(thread, false, true) {
            Err(e) => {
                return Err(J4RsError::RuntimeUnavailable);
            },
            Ok(_) => {},
        }
        proof {
            lemma_growth_keeps_wf(old(self)@, self@);
        }
        if object >= self.heap.len() {
            return Err(J4RsError::NullResult);
        }
        if !self.registry.is_deliverable(token) {
            return Err(J4RsError::ChannelClosed);
        }
        let class_name = self.heap[object].class_name.clone();
        let minted = self.handles.mint(object);
        let handle = Instance::new(minted, class_name);
        let sent = self.registry.send(token, handle);
        proof {
            lemma_growth_keeps_wf(old(self)@, self@);
        }
        Ok(())
    }

    /// One callback of the managed side.
    fn callback(&mut self, channel: Option<RegistrationToken>, thread: u64)
        requires
            old(self)@.wf(),
        ensures
            final(self)@.wf(),
            final(self)@ == old(self)@.callback(channel, thread),
    {
        match channel {
            None => {
                if self.lost < usize::MAX {
                    self.lost = self.lost + 1;
                }
            },
            Some(token) => {
                let object = self.heap.len();
                self.heap.push(
                    ManagedObject {
                        class_name: String::from_str("java.lang.String"),
                        data: ObjectData::Single(
                            Atom::Text(String::from_str("THIS IS FROM CALLBACK!")),
                        ),
                        channel: None,
                        is_class: false,
                    },
                );
                // Reading the length back tells the proof that it fits the machine.
                let _objects = self.heap.len();
                proof {
                    assert(heap_model(self.heap@) =~= heap_model(old(self).heap@).push(
                        payload_entry(),
                    ));
                    lemma_growth_keeps_wf(old(self)@, self@);
                }
                match self.deliver(thread, CallbackEnvelope { token, object }) {
                    Ok(_) => {},
                    Err(_) => {
                        if self.lost < usize::MAX {
                            self.lost = self.lost + 1;
                        }
                    },
                }
            },
        }
    }

    /// The callbacks of one call, in order.
    fn callbacks(&mut self, channel: Option<RegistrationToken>, n: u8, spread: bool)
        requires
            old(self)@.wf(),
        ensures
            final(self)@.wf(),
            final(self)@ == old(self)@.callbacks(channel, n as nat, spread),
    {
        let mut k: u8 = 0;
        while k < n
            invariant
                k <= n,
                self@.wf(),
                self@ == old(self)@.callbacks(channel, k as nat, spread),
                self@.owner == old(self)@.owner,
            decreases n - k,
        {
            let thread = if spread {
                u64::MAX - k as u64
            } else {
                self.owner
            };
            self.callback(channel, thread);
            k += 1;
        }
    }

    /// Carries out the effect of a call.
    fn complete(
        &mut self,
        effect: Effect,
        receiver: Ghost<ObjectModel>,
        declared: &String,
        channel: Option<RegistrationToken>,
    ) -> (r: Result<Instance, J4RsError>)
        requires
            old(self)@.wf(),
        ensures
            final(self)@.wf(),
            final(self)@ == old(self)@.complete(effect.model(receiver@), declared@, channel).state,
            match r {
                Ok(handle) => old(self)@.complete(
                    effect.model(receiver@),
                    declared@,
                    channel,
                ).result == Ok::<HandleModel, ErrorModel>(handle@),
                Err(e) => old(self)@.complete(effect.model(receiver@), declared@, channel).result
                    == Err::<HandleModel, ErrorModel>(e@),
            },
    {
        let Effect { outcome, printed, callbacks, spread } = effect;
        match printed {
            Some(line) => {
                self.console.push(line);
                proof {
                    assert(self.console.deep_view() =~= old(self).console.deep_view().push(line@));
                }
            },
            None => {},
        }
        match outcome {
            Err(fault) => Err(
                J4RsError::InvocationFailed {
                    message: fault_message_text(fault),
                    managed_stack_trace: fault_trace_text(fault),
                },
            ),
            Ok(data) => {
                let class_name = class_name_of_data(&data, declared);
                let handle = self.allocate(class_name, data, false);
                self.callbacks(channel, callbacks, spread);
                Ok(handle)
            },
        }
    }
}

/// Whether the answer of an operation is the one the model gives.
pub open spec fn answers(r: Result<Instance, J4RsError>, expected: Result<HandleModel, ErrorModel>) -> bool {
    match r {
        Ok(handle) => expected == Ok::<HandleModel, ErrorModel>(handle@),
        Err(e) => expected == Err::<HandleModel, ErrorModel>(e@),
    }
}

/// The elements that the data stand for, where each of them is a single
/// value.
fn to_elements(data: Vec<ObjectData>) -> (r: Option<Vec<Atom>>)
    ensures
        match r {
            Some(elements) => elements@.len() == data@.len() && forall|i: int|
                0 <= i < data@.len() ==> (#[trigger] data@[i])@ == ObjectModel::Single(
                    elements@[i]@,
                ),
            None => exists|i: int| 0 <= i < data@.len() && !((#[trigger] data@[i])@ is Single),
        },
{
    let mut reversed: Vec<Atom> = Vec::new();
    let mut rest = data;
    while rest.len() > 0
        invariant
            rest.len() + reversed.len() == data@.len(),
            forall|j: int| 0 <= j < rest.len() ==> (#[trigger] rest@[j]) == data@[j],
            forall|j: int|
                0 <= j < reversed.len() ==> data@[data@.len() - 1 - j]@ == ObjectModel::Single(
                    (#[trigger] reversed@[j])@,
                ),
        decreases rest.len(),
    {
        let ghost at = rest.len() - 1;
        match rest.pop().unwrap() {
            ObjectData::Single(atom) => {
                reversed.push(atom);
            },
            _ => {
                assert(!(data@[at]@ is Single));
                return None;
            },
        }
    }
    let mut elements: Vec<Atom> = Vec::new();
    while reversed.len() > 0
        invariant
            reversed.len() + elements.len() == data@.len(),
            forall|j: int|
                0 <= j < reversed.len() ==> data@[data@.len() - 1 - j]@ == ObjectModel::Single(
                    (#[trigger] reversed@[j])@,
                ),
            forall|j: int|
                0 <= j < elements.len() ==> data@[j]@ == ObjectModel::Single(
                    (#[trigger] elements@[j])@,
                ),
        decreases reversed.len(),
    {
        let atom = reversed.pop().unwrap();
        elements.push(atom);
    }
    Some(elements)
}

impl Jvm {
    /// Creates an instance of the class `class_name`, with the constructor
    /// that the marshaled argument types select. The caller owns the handle
    /// it gets.
    pub fn create_instance(&mut self, class_name: &str, args: &[InvocationArg]) -> (r: Result<
        Instance,
        J4RsError,
    >)
        requires
            old(self)@.wf(),
        ensures
            final(self)@.wf(),
            final(self)@ == old(self)@.create_instance(class_name@, args_model(args@)).state,
            answers(r, old(self)@.create_instance(class_name@, args_model(args@)).result),
    {
        if !self.usable() {
            return Err(J4RsError::RuntimeUnavailable);
        }
        let class = String::from_str(class_name);
        if self.classes.find(&class).is_none() {
            return Err(J4RsError::ClassNotFound);
        }
        let wires = match self.to_wires(args) {
            Err(e) => {
                return Err(e);
            },
            Ok(wires) => wires,
        };
        let (types, data) = unzip(wires);
        match self.select(&class, MemberKind::Constructor, &class, &types, false) {
            None => Err(J4RsError::MethodNotFound { name: class, arg_types: types }),
            Some((behaviour, _)) => {
                let mut receiver = ObjectData::Plain;
                let effect = run(behaviour, &mut receiver, &data, self.clock);
                self.complete(effect, Ghost(receiver@), &class, None)
            },
        }
    }

    /// A call of a method or a read of a field through a handle.
    fn call(&mut self, instance: &Instance, kind: MemberKind, name: &str, args: &[InvocationArg]) -> (r:
        Result<Instance, J4RsError>)
        requires
            old(self)@.wf(),
        ensures
            final(self)@.wf(),
            final(self)@ == old(self)@.call(
                instance@,
                kind,
                name@,
                args_model(args@),
            ).state,
            answers(
                r,
                old(self)@.call(instance@, kind, name@, args_model(args@)).result,
            ),
    {
        if !self.usable() {
            return Err(J4RsError::RuntimeUnavailable);
        }
        let object = match self.handles.resolve(instance.reference()) {
            Err(_) => {
                return Err(J4RsError::HandleReleased);
            },
            Ok(object) => object,
        };
        let wires = match self.to_wires(args) {
            Err(e) => {
                return Err(e);
            },
            Ok(wires) => wires,
        };
        let (types, data) = unzip(wires);
        let class = String::from_str(instance.class_name());
        let member_name = String::from_str(name);
        assert(self.heap@[object as int]@ == self@.heap[object as int]);
        let statics_only = self.heap[object].is_class;
        match self.select(&class, kind, &member_name, &types, statics_only) {
            None => Err(J4RsError::MethodNotFound { name: member_name, arg_types: types }),
            Some((behaviour, declared)) => {
                let ghost before = self.heap@;
                let mut entry = self.heap.remove(object);
                let channel = entry.channel;
                let effect = run(behaviour, &mut entry.data, &data, self.clock);
                let ghost receiver = entry.data@;
                self.heap.insert(object, entry);
                proof {
                    assert(self.heap@ =~= before.update(object as int, entry));
                    assert(heap_model(self.heap@) =~= heap_model(before).update(
                        object as int,
                        ObjectEntry { data: receiver, ..heap_model(before)[object as int] },
                    ));
                    lemma_growth_keeps_wf(old(self)@, self@);
                }
                self.complete(effect, Ghost(receiver), &declared, channel)
            },
        }
    }

    /// Invokes the method `method_name` on the object behind `instance`,
    /// with the overload that the marshaled argument types select. An
    /// exception of the managed runtime comes back as `InvocationFailed`.
    pub fn invoke(&mut self, instance: &Instance, method_name: &str, args: &[InvocationArg]) -> (r:
        Result<Instance, J4RsError>)
        requires
            old(self)@.wf(),
        ensures
            final(self)@.wf(),
            final(self)@ == old(self)@.call(
                instance@,
                MemberKind::Method,
                method_name@,
                args_model(args@),
            ).state,
            answers(
                r,
                old(self)@.call(
                    instance@,
                    MemberKind::Method,
                    method_name@,
                    args_model(args@),
                ).result,
            ),
    {
        self.call(instance, MemberKind::Method, method_name, args)
    }

    /// Reads the field `field_name` of the object behind `instance`, or of
    /// the class the handle stands for.
    pub fn field(&mut self, instance: &Instance, field_name: &str) -> (r: Result<Instance, J4RsError>)
        requires
            old(self)@.wf(),
        ensures
            final(self)@.wf(),
            final(self)@ == old(self)@.call(
                instance@,
                MemberKind::Field,
                field_name@,
                Seq::empty(),
            ).state,
            answers(
                r,
                old(self)@.call(
                    instance@,
                    MemberKind::Field,
                    field_name@,
                    Seq::empty(),
                ).result,
            ),
    {
        let none: Vec<InvocationArg> = Vec::new();
        assert(args_model(none@) =~= Seq::<ArgModel>::empty());
        self.call(instance, MemberKind::Field, field_name, none.as_slice())
    }

    /// Invokes the static method `method_name` of the class `class_name`.
    pub fn invoke_static(&mut self, class_name: &str, method_name: &str, args: &[InvocationArg]) -> (r:
        Result<Instance, J4RsError>)
        requires
            old(self)@.wf(),
        ensures
            final(self)@.wf(),
            final(self)@ == old(self)@.invoke_static(
                class_name@,
                method_name@,
                args_model(args@),
            ).state,
            answers(
                r,
                old(self)@.invoke_static(class_name@, method_name@, args_model(args@)).result,
            ),
    {
        if !self.usable() {
            return Err(J4RsError::RuntimeUnavailable);
        }
        let class = String::from_str(class_name);
        if self.classes.find(&class).is_none() {
            return Err(J4RsError::ClassNotFound);
        }
        let wires = match self.to_wires(args) {
            Err(e) => {
                return Err(e);
            },
            Ok(wires) => wires,
        };
        let (types, data) = unzip(wires);
        let member_name = String::from_str(method_name);
        match self.select(&class, MemberKind::Method, &member_name, &types, true) {
            None => Err(J4RsError::MethodNotFound { name: member_name, arg_types: types }),
            Some((behaviour, declared)) => {
                let mut receiver = ObjectData::Plain;
                let effect = run(behaviour, &mut receiver, &data, self.clock);
                self.complete(effect, Ghost(receiver@), &declared, None)
            },
        }
    }

    /// A handle that stands for the class `class_name`, as the receiver of
    /// its static members.
    pub fn static_class(&mut self, class_name: &str) -> (r: Result<Instance, J4RsError>)
        requires
            old(self)@.wf(),
        ensures
            final(self)@.wf(),
            final(self)@ == old(self)@.static_class(class_name@).state,
            answers(r, old(self)@.static_class(class_name@).result),
    {
        if !self.usable() {
            return Err(J4RsError::RuntimeUnavailable);
        }
        let class = String::from_str(class_name);
        if self.classes.find(&class).is_none() {
            return Err(J4RsError::ClassNotFound);
        }
        Ok(self.allocate(class, ObjectData::Plain, true))
    }

    /// Reinterprets the object behind `instance` as the class
    /// `to_class`, to which it must be assignable. The result is a new
    /// handle to the same object; the handle given stays as it is.
    pub fn cast(&mut self, instance: &Instance, to_class: &str) -> (r: Result<Instance, J4RsError>)
        requires
            old(self)@.wf(),
        ensures
            final(self)@.wf(),
            final(self)@ == old(self)@.cast(instance@, to_class@).state,
            answers(r, old(self)@.cast(instance@, to_class@).result),
    {
        if !self.usable() {
            return Err(J4RsError::RuntimeUnavailable);
        }
        let object = match self.handles.resolve(instance.reference()) {
            Err(_) => {
                return Err(J4RsError::HandleReleased);
            },
            Ok(object) => object,
        };
        let target = String::from_str(to_class);
        if self.classes.find(&target).is_none() {
            return Err(J4RsError::ClassNotFound);
        }
        assert(self.heap@[object as int]@ == self@.heap[object as int]);
        if !self.classes.is_assignable(&self.heap[object].class_name, &target) {
            return Err(J4RsError::IllegalCast);
        }
        let token = self.handles.mint(object);
        proof {
            lemma_growth_keeps_wf(old(self)@, self@);
        }
        Ok(Instance::new(token, target))
    }

    /// Asks the managed runtime for a second, independent reference to the
    /// object behind `instance`. The two handles are released independently.
    pub fn clone_instance(&mut self, instance: &Instance) -> (r: Result<Instance, J4RsError>)
        requires
            old(self)@.wf(),
        ensures
            final(self)@.wf(),
            final(self)@ == old(self)@.clone_instance(instance@).state,
            answers(r, old(self)@.clone_instance(instance@).result),
    {
        if !self.usable() {
            return Err(J4RsError::RuntimeUnavailable);
        }
        let object = match self.handles.resolve(instance.reference()) {
            Err(_) => {
                return Err(J4RsError::HandleReleased);
            },
            Ok(object) => object,
        };
        let token = self.handles.mint(object);
        proof {
            lemma_growth_keeps_wf(old(self)@, self@);
        }
        Ok(Instance::new(token, String::from_str(instance.class_name())))
    }

    /// Creates a managed array of the class `class_name` that holds the
    /// arguments in order, for a call of a variadic member.
    pub fn create_java_array(&mut self, class_name: &str, args: &[InvocationArg]) -> (r: Result<
        Instance,
        J4RsError,
    >)
        requires
            old(self)@.wf(),
        ensures
            final(self)@.wf(),
            final(self)@ == old(self)@.create_java_array(class_name@, args_model(args@)).state,
            answers(r, old(self)@.create_java_array(class_name@, args_model(args@)).result),
    {
        if !self.usable() {
            return Err(J4RsError::RuntimeUnavailable);
        }
        let class = String::from_str(class_name);
        if self.classes.find(&class).is_none() {
            return Err(J4RsError::ClassNotFound);
        }
        let wires = match self.to_wires(args) {
            Err(e) => {
                return Err(e);
            },
            Ok(wires) => wires,
        };
        let ghost all = wires_model(wires@);
        let (types, data) = unzip(wires);
        let ghost shapes = data@;
        proof {
            assert(data_model(shapes).len() == wire_data(all).len());
            assert forall|i: int| 0 <= i < all.len() implies (#[trigger] shapes[i])@ == all[i].data by {
                assert(data_model(shapes)[i] == wire_data(all)[i]);
            }
        }
        match to_elements(data) {
            None => {
                proof {
                    let i = choose|i: int| 0 <= i < shapes.len() && !((#[trigger] shapes[i])@ is Single);
                    assert(shapes[i]@ == all[i].data);
                    assert(!(all[i].data is Single));
                }
                Err(J4RsError::ConversionError)
            },
            Some(elements) => {
                proof {
                    assert forall|i: int| 0 <= i < all.len() implies (#[trigger] all[i]).data is Single by {
                        assert(shapes[i]@ == all[i].data);
                    }
                    assert forall|i: int| 0 <= i < all.len() implies atoms_model(elements@)[i]
                        == all[i].data->Single_0 by {
                        assert(shapes[i]@ == all[i].data);
                    }
                    assert(atoms_model(elements@) =~= single_values(all).unwrap());
                }
                if !check_homogeneous(&elements, &class) {
                    return Err(J4RsError::ConversionError);
                }
                let array_class = array_type_name(&class);
                Ok(self.allocate(array_class, ObjectData::Items(elements), false))
            },
        }
    }
}

impl Jvm {
    /// Releases the reference `instance` holds. The handle is given up by
    /// value, so it cannot be released again; a handle whose reference is
    /// not live is refused with `HandleReleased` and nothing changes.
    pub fn release(&mut self, instance: Instance) -> (r: Result<(), J4RsError>)
        requires
            old(self)@.wf(),
        ensures
            final(self)@.wf(),
            final(self)@ == old(self)@.release(instance@),
            match r {
                Ok(_) => release_outcome(old(self)@.handles, instance@.token) == Ok::<
                    (),
                    ErrorKind,
                >(()),
                Err(e) => release_outcome(old(self)@.handles, instance@.token) == Err::<
                    (),
                    ErrorKind,
                >(ErrorKind::HandleReleased) && e@ == ErrorModel::HandleReleased,
            },
    {
        let released = self.handles.release(instance.reference());
        proof {
            lemma_growth_keeps_wf(old(self)@, self@);
        }
        match released {
            Ok(_) => Ok(()),
            Err(_) => Err(J4RsError::HandleReleased),
        }
    }

    /// Converts the object behind `instance` into the host type `T`, and
    /// releases the handle. Integers are narrowed checked: a value that does
    /// not fit `T` is a `NumericOverflow`. An object of another class than
    /// `T` stands for is an `InvalidCast`, and null is a `NullResult` unless
    /// `T` can represent absence.
    pub fn to_rust<T: FromManaged>(&mut self, instance: Instance) -> (r: Result<T, J4RsError>)
        requires
            old(self)@.wf(),
        ensures
            final(self)@.wf(),
            final(self)@ == old(self)@.release(instance@),
            match r {
                Ok(v) => old(self)@.to_rust(instance@, T::target()) == Ok::<
                    HostModel,
                    ErrorKind,
                >(v.host_model()),
                Err(e) => old(self)@.to_rust(instance@, T::target()) == Err::<
                    HostModel,
                    ErrorKind,
                >(e@.kind()) && e@ == ErrorModel::of_kind(e@.kind()),
            },
    {
        if !self.usable() {
            let refused = self.release(instance);
            return Err(J4RsError::RuntimeUnavailable);
        }
        let object = match self.handles.resolve(instance.reference()) {
            Err(_) => {
                let refused = self.release(instance);
                return Err(J4RsError::HandleReleased);
            },
            Ok(object) => object,
        };
        assert(self.heap@[object as int]@ == self@.heap[object as int]);
        let converted = T::from_object(&self.heap[object].data);
        let released = self.release(instance);
        match converted {
            Ok(v) => Ok(v),
            Err(k) => Err(J4RsError::of_kind(k)),
        }
    }

    /// Registers a callback channel on the object behind `instance` and
    /// returns its receiving end. The registration stays for as long as the
    /// runtime: there is no way to take it back.
    pub fn init_callback_channel(&mut self, instance: &Instance) -> (r: Result<
        InstanceReceiver,
        J4RsError,
    >)
        requires
            old(self)@.wf(),
        ensures
            final(self)@.wf(),
            match r {
                Ok(receiver) => old(self)@.usable() && is_live(old(self)@.handles, instance@.token)
                    && final(self)@ == old(self)@.register(instance@) && receiver.registration()
                    == old(self)@.next_registration(),
                Err(e) => final(self)@ == old(self)@ && e@ == (if !old(self)@.usable() {
                    ErrorModel::RuntimeUnavailable
                } else {
                    ErrorModel::HandleReleased
                }) && !(old(self)@.usable() && is_live(old(self)@.handles, instance@.token)),
            },
    {
        if !self.usable() {
            return Err(J4RsError::RuntimeUnavailable);
        }
        let object = match self.handles.resolve(instance.reference()) {
            Err(_) => {
                return Err(J4RsError::HandleReleased);
            },
            Ok(object) => object,
        };
        assert(self@.handles[instance@.token].object < self@.heap.len());
        let token = self.registry.register();
        let ghost before = self.heap@;
        let mut entry = self.heap.remove(object);
        entry.channel = Some(token);
        self.heap.insert(object, entry);
        proof {
            assert(self.heap@ =~= before.update(object as int, entry));
            assert(heap_model(self.heap@) =~= heap_model(before).update(
                object as int,
                ObjectEntry { channel: Some(token), ..heap_model(before)[object as int] },
            ));
            lemma_growth_keeps_wf(old(self)@, self@);
        }
        Ok(InstanceReceiver::new(token))
    }

    /// Registers a callback channel on the object behind `instance`, invokes
    /// the method on it, and returns the receiving end of the channel. The
    /// handle of what the method itself returns is released. Where the
    /// runtime is not usable or the handle not live, nothing is registered;
    /// where the call fails, the registration stays.
    pub fn invoke_to_channel(&mut self, instance: &Instance, method_name: &str, args: &[InvocationArg]) -> (r:
        Result<InstanceReceiver, J4RsError>)
        requires
            old(self)@.wf(),
        ensures
            final(self)@.wf(),
            !old(self)@.usable() ==> final(self)@ == old(self)@ && (r matches Err(e) && e@
                == ErrorModel::RuntimeUnavailable),
            old(self)@.usable() && !is_live(old(self)@.handles, instance@.token) ==> final(self)@
                == old(self)@ && (r matches Err(e) && e@ == ErrorModel::HandleReleased),
            old(self)@.usable() && is_live(old(self)@.handles, instance@.token) ==> final(self)@
                == old(self)@.invoke_to_channel(instance@, method_name@, args_model(args@)).state
                && match r {
                Ok(receiver) => old(self)@.invoke_to_channel(
                    instance@,
                    method_name@,
                    args_model(args@),
                ).result.is_ok() && receiver.registration() == old(self)@.next_registration(),
                Err(e) => old(self)@.invoke_to_channel(
                    instance@,
                    method_name@,
                    args_model(args@),
                ).result == Err::<HandleModel, ErrorModel>(e@),
            },
    {
        let receiver = match self.init_callback_channel(instance) {
            Err(e) => {
                return Err(e);
            },
            Ok(receiver) => receiver,
        };
        match self.call(instance, MemberKind::Method, method_name, args) {
            Err(e) => Err(e),
            Ok(returned) => {
                let released = self.release(returned);
                Ok(receiver)
            },
        }
    }

    /// Receives the oldest handle that waits in the channel, if there is
    /// one. Handles come out in the order in which they were delivered.
    pub fn receive(&mut self, receiver: &InstanceReceiver) -> (r: Option<Instance>)
        requires
            old(self)@.wf(),
        ensures
            final(self)@.wf(),
            final(self)@ == (JvmModel {
                registry: after_receive(old(self)@.registry, receiver.registration()),
                ..old(self)@
            }),
            match r {
                Some(handle) => next_in_queue(old(self)@.registry, receiver.registration()) == Some(
                    handle@,
                ),
                None => next_in_queue(old(self)@.registry, receiver.registration()).is_none(),
            },
    {
        let r = self.registry.receive(receiver.token());
        proof {
            lemma_growth_keeps_wf(old(self)@, self@);
        }
        r
    }

    /// The number of handles that wait in the channel.
    pub fn pending(&self, receiver: &InstanceReceiver) -> (n: usize)
        ensures
            n == (if receiver.registration().address < self@.registry.len() {
                self@.registry[receiver.registration().address as int].queue.len()
            } else {
                0
            }),
    {
        self.registry.pending(receiver.token())
    }

    /// Gives up the receiving end of a channel. What waits in its queue
    /// stays there; a later delivery to it fails with `ChannelClosed` and is
    /// counted as lost.
    pub fn close(&mut self, receiver: InstanceReceiver)
        requires
            old(self)@.wf(),
        ensures
            final(self)@.wf(),
            final(self)@ == (JvmModel {
                registry: after_close(old(self)@.registry, receiver.registration()),
                ..old(self)@
            }),
    {
        self.registry.close(receiver.token());
        proof {
            lemma_growth_keeps_wf(old(self)@, self@);
        }
    }

    /// Attaches `thread` to the runtime, once. `handshake_ok` is the outcome
    /// of the native attach call, and is looked at for a new thread only.
    pub fn attach_current_thread(&mut self, thread: u64, detach_on_exit: bool, handshake_ok: bool) -> (r:
        Result<RuntimeAccess, J4RsError>)
        requires
            old(self)@.wf(),
        ensures
            final(self)@.wf(),
            final(self)@ == (JvmModel {
                gateway: old(self)@.gateway.after_attach(thread, detach_on_exit, handshake_ok),
                ..old(self)@
            }),
            match r {
                Ok(access) => old(self)@.gateway.attach_outcome(thread, handshake_ok) == Ok::<
                    RuntimeAccess,
                    ErrorKind,
                >(access),
                Err(e) => old(self)@.gateway.attach_outcome(thread, handshake_ok) == Err::<
                    RuntimeAccess,
                    ErrorKind,
                >(e@.kind()) && e@ == ErrorModel::of_kind(e@.kind()),
            },
    {
        let r = self.gateway.attach_current_thread(thread, detach_on_exit, handshake_ok);
        proof {
            lemma_growth_keeps_wf(old(self)@, self@);
        }
        r
    }

    /// Sets whether the attachment of the thread that holds the handle is
    /// torn down when that thread ends.
    pub fn detach_thread_on_drop(&mut self, detach_on_exit: bool)
        requires
            old(self)@.wf(),
        ensures
            final(self)@.wf(),
            final(self)@ == (JvmModel {
                gateway: old(self)@.gateway.with_detach_on_exit(old(self)@.owner, detach_on_exit),
                ..old(self)@
            }),
    {
        self.gateway.detach_thread_on_drop(self.owner, detach_on_exit);
        proof {
            lemma_growth_keeps_wf(old(self)@, self@);
        }
    }

    /// Records that `thread` has ended: its attachment is torn down unless
    /// it was attached to stay.
    pub fn thread_exit(&mut self, thread: u64)
        requires
            old(self)@.wf(),
        ensures
            final(self)@.wf(),
            final(self)@ == (JvmModel {
                gateway: old(self)@.gateway.after_exit(thread),
                ..old(self)@
            }),
    {
        self.gateway.thread_exit(thread);
        proof {
            lemma_growth_keeps_wf(old(self)@, self@);
        }
    }

    /// Whether `thread` is attached.
    pub fn is_attached(&self, thread: u64) -> (r: bool)
        ensures
            r == self@.gateway.is_attached(thread),
    {
        self.gateway.is_attached(thread)
    }

    /// Records that the runtime has shut down. After that no thread can
    /// attach, no call goes through, and no callback is delivered.
    pub fn shutdown(&mut self)
        requires
            old(self)@.wf(),
        ensures
            final(self)@.wf(),
            !final(self)@.gateway.available,
            final(self)@ == (JvmModel {
                gateway: GatewayModel {
                    available: false,
                    attachments: old(self)@.gateway.attachments,
                },
                ..old(self)@
            }),
    {
        self.gateway.shutdown();
        proof {
            lemma_growth_keeps_wf(old(self)@, self@);
        }
    }

    /// Records the outcome of deploying `artifact`. `staged` says whether
    /// the artifact was brought into the classpath directory: where it was,
    /// its file is added at the end of the classpath; where it was not, the
    /// deployment fails with `ArtifactDeployFailed` and nothing changes.
    pub fn deploy_artifact(&mut self, artifact: &JavaArtifact, staged: bool) -> (r: Result<
        (),
        J4RsError,
    >)
        requires
            old(self)@.wf(),
        ensures
            final(self)@.wf(),
            staged ==> r.is_ok() && final(self)@ == (JvmModel {
                classpath: old(self)@.classpath.push(artifact.staged_name()),
                ..old(self)@
            }),
            !staged ==> final(self)@ == old(self)@ && (r matches Err(e) && e@
                == ErrorModel::ArtifactDeployFailed),
    {
        if !staged {
            return Err(J4RsError::ArtifactDeployFailed);
        }
        let name = artifact.file_name();
        self.classpath.push(name);
        proof {
            assert(self.classpath.deep_view() =~= old(self).classpath.deep_view().push(
                artifact.staged_name(),
            ));
            lemma_growth_keeps_wf(old(self)@, self@);
        }
        Ok(())
    }

    /// The repositories artifacts are fetched from.
    pub fn maven_settings(&self) -> (settings: &MavenSettings)
        ensures
            repos_model(settings.repos@) == self@.repos,
    {
        &self.settings
    }

    /// The classpath of the runtime: the entries it was created with,
    /// followed by the artifacts deployed since.
    pub fn classpath(&self) -> (entries: &Vec<String>)
        ensures
            entries.deep_view() == self@.classpath,
    {
        &self.classpath
    }

    /// The startup options the runtime was created with.
    pub fn java_opts(&self) -> (opts: &Vec<String>)
        ensures
            opts.deep_view() == self@.java_opts,
    {
        &self.java_opts
    }

    /// Sets the runtime's clock, in milliseconds.
    pub fn set_clock(&mut self, millis: i64)
        requires
            old(self)@.wf(),
        ensures
            final(self)@.wf(),
            final(self)@ == (JvmModel { clock: millis, ..old(self)@ }),
    {
        self.clock = millis;
    }

    /// The lines written to the console so far, oldest first.
    pub fn console(&self) -> (lines: &Vec<String>)
        ensures
            lines.deep_view() == self@.console,
    {
        &self.console
    }

    /// The number of callbacks that could not be delivered.
    pub fn lost_callbacks(&self) -> (n: usize)
        ensures
            n == self@.lost,
    {
        self.lost
    }

    /// The number of references handed out so far, released ones included.
    pub fn references(&self) -> (n: usize)
        ensures
            n == self@.handles.len(),
    {
        self.handles.len()
    }

    /// Whether the reference `instance` holds is live.
    pub fn is_live(&self, instance: &Instance) -> (r: bool)
        ensures
            r == is_live(self@.handles, instance@.token),
    {
        self.handles.resolve(instance.reference()).is_ok()
    }
}

} // verus!

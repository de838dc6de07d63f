//! The class table of the managed runtime: classes, their supertypes and
//! their members, and the assignability relation between type names.

use vstd::prelude::*;

verus! {

/// What a member does when it is invoked. Each behaviour is one operation of
/// the managed runtime on the receiver and the marshaled arguments.
#[derive(Clone, Copy, Debug, PartialEq, Eq, Structural)]
pub enum Behaviour {
    /// A new string with the text of the first argument.
    NewText,
    /// A new boxed scalar holding the first argument.
    NewBoxed,
    /// A new record with the default text.
    NewRecord,
    /// A new record with the text of the first argument.
    NewRecordFromText,
    /// A new record whose text is the elements of the first argument, joined
    /// by a comma and a space.
    NewRecordFromItems,
    /// A new record with the text of the record given as first argument.
    NewRecordFromRecord,
    /// A new object without data.
    NewPlain,
    /// The receiver's text, split at each occurrence of the one-character
    /// separator given as first argument.
    Split,
    /// The number of characters of the receiver's text.
    Length,
    /// Whether the receiver's text is empty.
    IsEmpty,
    /// The character of the receiver's text at the index given as first
    /// argument.
    CharAt,
    /// The runtime's clock, in milliseconds.
    ClockMillis,
    /// Writes the first argument as one line to the console.
    PrintLine,
    /// The console stream.
    Console,
    /// The receiver record's text.
    GetText,
    /// Appends the first argument to the receiver record's text and returns
    /// the new text.
    AppendText,
    /// The first argument, unchanged.
    Echo,
    /// The elements of the first argument, concatenated.
    ConcatItems,
    /// The wrapping 32-bit sum of the elements of the first argument.
    SumItems,
    /// The wrapping 32-bit sum of the first two arguments.
    SumPair,
    /// Takes a list and returns nothing.
    AcceptItems,
    /// A new map with the two entries of the fixture.
    GetMap,
    /// The integers from zero up to, not including, the first argument.
    NumbersUntil,
    /// Null.
    GetNull,
    /// The number of entries of the receiver map.
    Size,
    /// Binds the first argument to the second in the receiver map and
    /// returns the value bound before, or null.
    Put,
    /// Delivers one callback and returns nothing.
    Callback,
    /// Delivers ten callbacks from the calling thread and returns nothing.
    TenCallbacks,
    /// Delivers ten callbacks, each from a thread of its own, and returns
    /// nothing.
    CallbackFromTenThreads,
}

/// A constructor, method or field of a class.
#[derive(Debug)]
pub struct Member {
    pub name: String,
    /// The formal parameter types, in order. A variadic member declares its
    /// trailing parameter as an array type.
    pub params: Vec<String>,
    /// The declared type of what the member returns.
    pub returns: String,
    pub is_static: bool,
    pub behaviour: Behaviour,
}

/// The mathematical model of a [`Member`].
pub struct MemberModel {
    pub name: Seq<char>,
    pub params: Seq<Seq<char>>,
    pub returns: Seq<char>,
    pub is_static: bool,
    pub behaviour: Behaviour,
}

impl View for Member {
    type V = MemberModel;

    open spec fn view(&self) -> MemberModel {
        MemberModel {
            name: self.name@,
            params: self.params.deep_view(),
            returns: self.returns@,
            is_static: self.is_static,
            behaviour: self.behaviour,
        }
    }
}

/// The models of a sequence of members, position by position.
pub open spec fn members_model(members: Seq<Member>) -> Seq<MemberModel> {
    Seq::new(members.len(), |i: int| members[i]@)
}

/// A class of the managed runtime.
#[derive(Debug)]
pub struct ClassDef {
    pub name: String,
    /// Every class and interface an instance of this class is assignable to,
    /// the class itself excepted.
    pub supers: Vec<String>,
    pub constructors: Vec<Member>,
    pub methods: Vec<Member>,
    pub fields: Vec<Member>,
}

/// The mathematical model of a [`ClassDef`].
pub struct ClassModel {
    pub name: Seq<char>,
    pub supers: Seq<Seq<char>>,
    pub constructors: Seq<MemberModel>,
    pub methods: Seq<MemberModel>,
    pub fields: Seq<MemberModel>,
}

impl View for ClassDef {
    type V = ClassModel;

    open spec fn view(&self) -> ClassModel {
        ClassModel {
            name: self.name@,
            supers: self.supers.deep_view(),
            constructors: members_model(self.constructors@),
            methods: members_model(self.methods@),
            fields: members_model(self.fields@),
        }
    }
}

/// The models of a sequence of classes, position by position.
pub open spec fn classes_model(classes: Seq<ClassDef>) -> Seq<ClassModel> {
    Seq::new(classes.len(), |i: int| classes[i]@)
}

/// Whether `name` occurs in `names`.
pub open spec fn has_name(names: Seq<Seq<char>>, name: Seq<char>) -> bool {
    exists|k: int| 0 <= k < names.len() && #[trigger] names[k] == name
}

/// Whether a class named `name` is declared.
pub open spec fn is_declared(classes: Seq<ClassModel>, name: Seq<char>) -> bool {
    exists|i: int| 0 <= i < classes.len() && (#[trigger] classes[i]).name == name
}

/// Whether the class at `i` is the first one named `name`.
pub open spec fn is_first_class(classes: Seq<ClassModel>, name: Seq<char>, i: int) -> bool {
    0 <= i < classes.len() && classes[i].name == name && forall|j: int|
        0 <= j < i ==> (#[trigger] classes[j]).name != name
}

/// The class `name` stands for: the first one declared under that name.
pub open spec fn class_named(classes: Seq<ClassModel>, name: Seq<char>) -> ClassModel
    recommends
        is_declared(classes, name),
{
    classes[choose|i: int| is_first_class(classes, name, i)]
}

/// The kinds of members of a class.
#[derive(Clone, Copy, Debug, PartialEq, Eq, Structural)]
pub enum MemberKind {
    Constructor,
    Method,
    Field,
}

/// The members of one kind of a class.
pub open spec fn members_of(class: ClassModel, kind: MemberKind) -> Seq<MemberModel> {
    match kind {
        MemberKind::Constructor => class.constructors,
        MemberKind::Method => class.methods,
        MemberKind::Field => class.fields,
    }
}

/// Whether a value of the type `from` can be passed where `to` is expected:
/// the two are the same type, or a class named `from` declares `to` among
/// its supertypes.
pub open spec fn assignable(classes: Seq<ClassModel>, from: Seq<char>, to: Seq<char>) -> bool {
    from == to || exists|i: int|
        0 <= i < classes.len() && (#[trigger] classes[i]).name == from && has_name(
            classes[i].supers,
            to,
        )
}

/// Whether `name` occurs in `names`.
pub fn contains_name(names: &Vec<String>, name: &String) -> (r: bool)
    ensures
        r == has_name(names.deep_view(), name@),
{
    let mut k: usize = 0;
    while k < names.len()
        invariant
            k <= names.len(),
            forall|j: int| 0 <= j < k ==> names.deep_view()[j] != name@,
        decreases names.len() - k,
    {
        if names[k] == *name {
            assert(names.deep_view()[k as int] == name@);
            return true;
        }
        k += 1;
    }
    false
}

/// The class table of a runtime.
#[derive(Debug)]
pub struct ClassTable {
    pub classes: Vec<ClassDef>,
}

impl View for ClassTable {
    type V = Seq<ClassModel>;

    open spec fn view(&self) -> Seq<ClassModel> {
        classes_model(self.classes@)
    }
}

impl ClassDef {
    /// The members of one kind.
    pub fn members(&self, kind: MemberKind) -> (r: &Vec<Member>)
        ensures
            members_model(r@) == members_of(self@, kind),
    {
        match kind {
            MemberKind::Constructor => &self.constructors,
            MemberKind::Method => &self.methods,
            MemberKind::Field => &self.fields,
        }
    }
}

impl ClassTable {
    /// The position of the first class named `name`.
    pub fn find(&self, name: &String) -> (r: Option<usize>)
        ensures
            match r {
                Some(i) => i < self@.len() && is_declared(self@, name@) && class_named(
                    self@,
                    name@,
                ) == self@[i as int],
                None => !is_declared(self@, name@),
            },
    {
        let mut i: usize = 0;
        while i < self.classes.len()
            invariant
                i <= self.classes.len(),
                forall|j: int| 0 <= j < i ==> self@[j].name != name@,
            decreases self.classes.len() - i,
        {
            if self.classes[i].name == *name {
                proof {
                    assert(is_first_class(self@, name@, i as int));
                    let k = choose|k: int| is_first_class(self@, name@, k);
                    assert(is_first_class(self@, name@, k));
                    if k < i {
                        assert(self@[k].name != name@);
                    } else if i < k {
                        assert(self@[i as int].name != name@);
                    }
                }
                return Some(i);
            }
            i += 1;
        }
        None
    }

    /// Decides assignability between two type names.
    pub fn is_assignable(&self, from: &String, to: &String) -> (r: bool)
        ensures
            r == assignable(self@, from@, to@),
    {
        if *from == *to {
            return true;
        }
        let mut i: usize = 0;
        while i < self.classes.len()
            invariant
                i <= self.classes.len(),
                from@ != to@,
                forall|j: int|
                    0 <= j < i ==> !((#[trigger] self@[j]).name == from@ && has_name(
                        self@[j].supers,
                        to@,
                    )),
            decreases self.classes.len() - i,
        {
            if self.classes[i].name == *from && contains_name(&self.classes[i].supers, to) {
                assert(self@[i as int].name == from@ && has_name(self@[i as int].supers, to@));
                return true;
            }
            i += 1;
        }
        false
    }
}

} // verus!

//! The class library of the managed runtime: the classes every runtime
//! declares from the start.

use vstd::prelude::*;
use vstd::string::StringExecFns;
use crate::classes::{
    Behaviour,
    ClassDef,
    ClassModel,
    ClassTable,
    Member,
    MemberModel,
    members_model,
};
use crate::args::ArgModel;
use crate::classes::{is_first_class, MemberKind};
use crate::errors::{ErrorKind, ErrorModel};
use crate::handles::HandleModel;
use crate::marshal::{HostModel, ItemModel, ItemTarget, Primitive, Target};
use crate::model::{
    JvmModel,
    lemma_created_scalar_converts_back,
    lemma_created_string_converts_back,
    scalar_as_host,
};
use crate::names::{
    boxed_class,
    boxed_class_name,
    primitive_type,
    primitive_type_name,
    string_class,
};
use crate::natives::text_data;
use crate::provisioning::RepoModel;
use crate::resolve::lemma_only_applicable_is_chosen;

verus! {

/// The model of a member.
pub open spec fn member_model(
    name: Seq<char>,
    params: Seq<Seq<char>>,
    declared: Seq<char>,
    is_static: bool,
    behaviour: Behaviour,
) -> MemberModel {
    MemberModel { name, params, returns: declared, is_static, behaviour }
}

/// A member.
fn member(name: &str, params: Vec<String>, declared: &str, is_static: bool, behaviour: Behaviour) -> (m:
    Member)
    ensures
        m@ == member_model(name@, params.deep_view(), declared@, is_static, behaviour),
{
    Member {
        name: String::from_str(name),
        params,
        returns: String::from_str(declared),
        is_static,
        behaviour,
    }
}

/// No names.
fn no_names() -> (r: Vec<String>)
    ensures
        r.deep_view() == Seq::<Seq<char>>::empty(),
{
    let r: Vec<String> = Vec::new();
    assert(r.deep_view() =~= Seq::<Seq<char>>::empty());
    r
}

/// One name.
fn one_name(a: &str) -> (r: Vec<String>)
    ensures
        r.deep_view() == seq![a@],
{
    let mut r: Vec<String> = Vec::new();
    r.push(String::from_str(a));
    assert(r.deep_view() =~= seq![a@]);
    r
}

/// Two names.
fn two_names(a: &str, b: &str) -> (r: Vec<String>)
    ensures
        r.deep_view() == seq![a@, b@],
{
    let mut r: Vec<String> = Vec::new();
    r.push(String::from_str(a));
    r.push(String::from_str(b));
    assert(r.deep_view() =~= seq![a@, b@]);
    r
}

/// The class that boxes the scalars of the kind of `p`: it is constructed
/// from the unboxed scalar.
pub open spec fn boxed_model(p: Primitive) -> ClassModel {
    ClassModel {
        name: boxed_class(p),
        supers: seq!["java.lang.Object"@],
        constructors: seq![
            member_model(
                boxed_class(p),
                seq![primitive_type(p)],
                boxed_class(p),
                false,
                Behaviour::NewBoxed,
            ),
        ],
        methods: Seq::empty(),
        fields: Seq::empty(),
    }
}

fn boxed_def(p: Primitive) -> (c: ClassDef)
    ensures
        c@ == boxed_model(p),
{
    let mut params: Vec<String> = Vec::new();
    params.push(primitive_type_name(&p));
    assert(params.deep_view() =~= seq![primitive_type(p)]);
    let mut constructors: Vec<Member> = Vec::new();
    constructors.push(
        Member {
            name: boxed_class_name(&p),
            params,
            returns: boxed_class_name(&p),
            is_static: false,
            behaviour: Behaviour::NewBoxed,
        },
    );
    let c = ClassDef {
        name: boxed_class_name(&p),
        supers: one_name("java.lang.Object"),
        constructors,
        methods: Vec::new(),
        fields: Vec::new(),
    };
    assert(members_model(c.constructors@) =~= boxed_model(p).constructors);
    assert(members_model(c.methods@) =~= boxed_model(p).methods);
    assert(members_model(c.fields@) =~= boxed_model(p).fields);
    c
}

/// The root class.
pub open spec fn object_model() -> ClassModel {
    ClassModel {
        name: "java.lang.Object"@,
        supers: Seq::empty(),
        constructors: seq![
            member_model(
                "java.lang.Object"@,
                Seq::empty(),
                "java.lang.Object"@,
                false,
                Behaviour::NewPlain,
            ),
        ],
        methods: Seq::empty(),
        fields: Seq::empty(),
    }
}

fn object_def() -> (c: ClassDef)
    ensures
        c@ == object_model(),
{
    let mut constructors: Vec<Member> = Vec::new();
    constructors.push(
        member(
            "java.lang.Object",
            no_names(),
            "java.lang.Object",
            false,
            Behaviour::NewPlain,
        ),
    );
    let methods: Vec<Member> = Vec::new();
    let fields: Vec<Member> = Vec::new();
    let c = ClassDef {
        name: String::from_str("java.lang.Object"),
        supers: no_names(),
        constructors,
        methods,
        fields,
    };
    assert(members_model(c.constructors@) =~= object_model().constructors);
    assert(members_model(c.methods@) =~= object_model().methods);
    assert(members_model(c.fields@) =~= object_model().fields);
    c
}

/// The string class.
pub open spec fn string_model() -> ClassModel {
    ClassModel {
        name: "java.lang.String"@,
        supers: seq!["java.lang.Object"@],
        constructors: seq![
            member_model(
                "java.lang.String"@,
                seq!["java.lang.String"@],
                "java.lang.String"@,
                false,
                Behaviour::NewText,
            ),
        ],
        methods: seq![
            member_model(
                "split"@,
                seq!["java.lang.String"@],
                "java.lang.String[]"@,
                false,
                Behaviour::Split,
            ),
            member_model("length"@, Seq::empty(), "java.lang.Integer"@, false, Behaviour::Length),
            member_model("isEmpty"@, Seq::empty(), "java.lang.Boolean"@, false, Behaviour::IsEmpty),
            member_model("charAt"@, seq!["int"@], "java.lang.Character"@, false, Behaviour::CharAt),
        ],
        fields: Seq::empty(),
    }
}

fn string_def() -> (c: ClassDef)
    ensures
        c@ == string_model(),
{
    let mut constructors: Vec<Member> = Vec::new();
    constructors.push(
        member(
            "java.lang.String",
            one_name("java.lang.String"),
            "java.lang.String",
            false,
            Behaviour::NewText,
        ),
    );
    let mut methods: Vec<Member> = Vec::new();
    methods.push(
        member(
            "split",
            one_name("java.lang.String"),
            "java.lang.String[]",
            false,
            Behaviour::Split,
        ),
    );
    methods.push(member("length", no_names(), "java.lang.Integer", false, Behaviour::Length));
    methods.push(member("isEmpty", no_names(), "java.lang.Boolean", false, Behaviour::IsEmpty));
    methods.push(
        member(
            "charAt",
            one_name("int"),
            "java.lang.Character",
            false,
            Behaviour::CharAt,
        ),
    );
    let fields: Vec<Member> = Vec::new();
    let c = ClassDef {
        name: String::from_str("java.lang.String"),
        supers: one_name("java.lang.Object"),
        constructors,
        methods,
        fields,
    };
    assert(members_model(c.constructors@) =~= string_model().constructors);
    assert(members_model(c.methods@) =~= string_model().methods);
    assert(members_model(c.fields@) =~= string_model().fields);
    c
}

/// The class of the runtime's clock and console.
pub open spec fn system_model() -> ClassModel {
    ClassModel {
        name: "java.lang.System"@,
        supers: seq!["java.lang.Object"@],
        constructors: Seq::empty(),
        methods: seq![
            member_model(
                "currentTimeMillis"@,
                Seq::empty(),
                "java.lang.Long"@,
                true,
                Behaviour::ClockMillis,
            ),
        ],
        fields: seq![
            member_model("out"@, Seq::empty(), "java.io.PrintStream"@, true, Behaviour::Console),
        ],
    }
}

fn system_def() -> (c: ClassDef)
    ensures
        c@ == system_model(),
{
    let constructors: Vec<Member> = Vec::new();
    let mut methods: Vec<Member> = Vec::new();
    methods.push(
        member(
            "currentTimeMillis",
            no_names(),
            "java.lang.Long",
            true,
            Behaviour::ClockMillis,
        ),
    );
    let mut fields: Vec<Member> = Vec::new();
    fields.push(member("out", no_names(), "java.io.PrintStream", true, Behaviour::Console));
    let c = ClassDef {
        name: String::from_str("java.lang.System"),
        supers: one_name("java.lang.Object"),
        constructors,
        methods,
        fields,
    };
    assert(members_model(c.constructors@) =~= system_model().constructors);
    assert(members_model(c.methods@) =~= system_model().methods);
    assert(members_model(c.fields@) =~= system_model().fields);
    c
}

/// The class of the console stream.
pub open spec fn print_stream_model() -> ClassModel {
    ClassModel {
        name: "java.io.PrintStream"@,
        supers: seq!["java.lang.Object"@],
        constructors: Seq::empty(),
        methods: seq![
            member_model(
                "println"@,
                seq!["java.lang.String"@],
                "void"@,
                false,
                Behaviour::PrintLine,
            ),
        ],
        fields: Seq::empty(),
    }
}

fn print_stream_def() -> (c: ClassDef)
    ensures
        c@ == print_stream_model(),
{
    let constructors: Vec<Member> = Vec::new();
    let mut methods: Vec<Member> = Vec::new();
    methods.push(
        member(
            "println",
            one_name("java.lang.String"),
            "void",
            false,
            Behaviour::PrintLine,
        ),
    );
    let fields: Vec<Member> = Vec::new();
    let c = ClassDef {
        name: String::from_str("java.io.PrintStream"),
        supers: one_name("java.lang.Object"),
        constructors,
        methods,
        fields,
    };
    assert(members_model(c.constructors@) =~= print_stream_model().constructors);
    assert(members_model(c.methods@) =~= print_stream_model().methods);
    assert(members_model(c.fields@) =~= print_stream_model().fields);
    c
}

/// The list interface.
pub open spec fn list_model() -> ClassModel {
    ClassModel {
        name: "java.util.List"@,
        supers: seq!["java.lang.Object"@],
        constructors: Seq::empty(),
        methods: Seq::empty(),
        fields: Seq::empty(),
    }
}

fn list_def() -> (c: ClassDef)
    ensures
        c@ == list_model(),
{
    let constructors: Vec<Member> = Vec::new();
    let methods: Vec<Member> = Vec::new();
    let fields: Vec<Member> = Vec::new();
    let c = ClassDef {
        name: String::from_str("java.util.List"),
        supers: one_name("java.lang.Object"),
        constructors,
        methods,
        fields,
    };
    assert(members_model(c.constructors@) =~= list_model().constructors);
    assert(members_model(c.methods@) =~= list_model().methods);
    assert(members_model(c.fields@) =~= list_model().fields);
    c
}

/// The list class.
pub open spec fn array_list_model() -> ClassModel {
    ClassModel {
        name: "java.util.ArrayList"@,
        supers: seq!["java.util.List"@, "java.lang.Object"@],
        constructors: Seq::empty(),
        methods: Seq::empty(),
        fields: Seq::empty(),
    }
}

fn array_list_def() -> (c: ClassDef)
    ensures
        c@ == array_list_model(),
{
    let constructors: Vec<Member> = Vec::new();
    let methods: Vec<Member> = Vec::new();
    let fields: Vec<Member> = Vec::new();
    let c = ClassDef {
        name: String::from_str("java.util.ArrayList"),
        supers: two_names("java.util.List", "java.lang.Object"),
        constructors,
        methods,
        fields,
    };
    assert(members_model(c.constructors@) =~= array_list_model().constructors);
    assert(members_model(c.methods@) =~= array_list_model().methods);
    assert(members_model(c.fields@) =~= array_list_model().fields);
    c
}

/// The map interface.
pub open spec fn map_model() -> ClassModel {
    ClassModel {
        name: "java.util.Map"@,
        supers: seq!["java.lang.Object"@],
        constructors: Seq::empty(),
        methods: seq![
            member_model("size"@, Seq::empty(), "java.lang.Integer"@, false, Behaviour::Size),
            member_model(
                "put"@,
                seq!["java.lang.Object"@, "java.lang.Object"@],
                "java.lang.Object"@,
                false,
                Behaviour::Put,
            ),
        ],
        fields: Seq::empty(),
    }
}

fn map_def() -> (c: ClassDef)
    ensures
        c@ == map_model(),
{
    let constructors: Vec<Member> = Vec::new();
    let mut methods: Vec<Member> = Vec::new();
    methods.push(member("size", no_names(), "java.lang.Integer", false, Behaviour::Size));
    methods.push(
        member(
            "put",
            two_names("java.lang.Object", "java.lang.Object"),
            "java.lang.Object",
            false,
            Behaviour::Put,
        ),
    );
    let fields: Vec<Member> = Vec::new();
    let c = ClassDef {
        name: String::from_str("java.util.Map"),
        supers: one_name("java.lang.Object"),
        constructors,
        methods,
        fields,
    };
    assert(members_model(c.constructors@) =~= map_model().constructors);
    assert(members_model(c.methods@) =~= map_model().methods);
    assert(members_model(c.fields@) =~= map_model().fields);
    c
}

/// The map class.
pub open spec fn hash_map_model() -> ClassModel {
    ClassModel {
        name: "java.util.HashMap"@,
        supers: seq!["java.util.Map"@, "java.lang.Object"@],
        constructors: Seq::empty(),
        methods: seq![
            member_model("size"@, Seq::empty(), "java.lang.Integer"@, false, Behaviour::Size),
            member_model(
                "put"@,
                seq!["java.lang.Object"@, "java.lang.Object"@],
                "java.lang.Object"@,
                false,
                Behaviour::Put,
            ),
        ],
        fields: Seq::empty(),
    }
}

fn hash_map_def() -> (c: ClassDef)
    ensures
        c@ == hash_map_model(),
{
    let constructors: Vec<Member> = Vec::new();
    let mut methods: Vec<Member> = Vec::new();
    methods.push(member("size", no_names(), "java.lang.Integer", false, Behaviour::Size));
    methods.push(
        member(
            "put",
            two_names("java.lang.Object", "java.lang.Object"),
            "java.lang.Object",
            false,
            Behaviour::Put,
        ),
    );
    let fields: Vec<Member> = Vec::new();
    let c = ClassDef {
        name: String::from_str("java.util.HashMap"),
        supers: two_names("java.util.Map", "java.lang.Object"),
        constructors,
        methods,
        fields,
    };
    assert(members_model(c.constructors@) =~= hash_map_model().constructors);
    assert(members_model(c.methods@) =~= hash_map_model().methods);
    assert(members_model(c.fields@) =~= hash_map_model().fields);
    c
}

/// A class with one text field, with overloaded and variadic members.
pub open spec fn fixture_model() -> ClassModel {
    ClassModel {
        name: "org.astonbitecode.j4rs.tests.MyTest"@,
        supers: seq!["java.lang.Object"@],
        constructors: seq![
            member_model(
                "org.astonbitecode.j4rs.tests.MyTest"@,
                Seq::empty(),
                "org.astonbitecode.j4rs.tests.MyTest"@,
                false,
                Behaviour::NewRecord,
            ),
            member_model(
                "org.astonbitecode.j4rs.tests.MyTest"@,
                seq!["java.lang.String"@],
                "org.astonbitecode.j4rs.tests.MyTest"@,
                false,
                Behaviour::NewRecordFromText,
            ),
            member_model(
                "org.astonbitecode.j4rs.tests.MyTest"@,
                seq!["java.lang.String[]"@],
                "org.astonbitecode.j4rs.tests.MyTest"@,
                false,
                Behaviour::NewRecordFromItems,
            ),
            member_model(
                "org.astonbitecode.j4rs.tests.MyTest"@,
                seq!["org.astonbitecode.j4rs.tests.MyTest"@],
                "org.astonbitecode.j4rs.tests.MyTest"@,
                false,
                Behaviour::NewRecordFromRecord,
            ),
        ],
        methods: seq![
            member_model(
                "getMyString"@,
                Seq::empty(),
                "java.lang.String"@,
                false,
                Behaviour::GetText,
            ),
            member_model(
                "appendToMyString"@,
                seq!["java.lang.String"@],
                "java.lang.String"@,
                false,
                Behaviour::AppendText,
            ),
            member_model(
                "getMyWithArgs"@,
                seq!["java.lang.String"@],
                "java.lang.String"@,
                false,
                Behaviour::Echo,
            ),
            member_model(
                "getMyWithArgsList"@,
                seq!["java.lang.String[]"@],
                "java.lang.String"@,
                false,
                Behaviour::ConcatItems,
            ),
            member_model(
                "addInts"@,
                seq!["java.lang.Integer[]"@],
                "java.lang.Integer"@,
                false,
                Behaviour::SumItems,
            ),
            member_model(
                "addInts"@,
                seq!["int"@, "int"@],
                "java.lang.Integer"@,
                false,
                Behaviour::SumPair,
            ),
            member_model("list"@, seq!["java.util.List"@], "void"@, false, Behaviour::AcceptItems),
            member_model("getMap"@, Seq::empty(), "java.util.HashMap"@, false, Behaviour::GetMap),
            member_model(
                "getNumbersUntil"@,
                seq!["java.lang.Integer"@],
                "java.util.ArrayList"@,
                false,
                Behaviour::NumbersUntil,
            ),
            member_model(
                "getNullInteger"@,
                Seq::empty(),
                "java.lang.Integer"@,
                false,
                Behaviour::GetNull,
            ),
        ],
        fields: Seq::empty(),
    }
}

fn fixture_def() -> (c: ClassDef)
    ensures
        c@ == fixture_model(),
{
    let mut constructors: Vec<Member> = Vec::new();
    constructors.push(
        member(
            "org.astonbitecode.j4rs.tests.MyTest",
            no_names(),
            "org.astonbitecode.j4rs.tests.MyTest",
            false,
            Behaviour::NewRecord,
        ),
    );
    constructors.push(
        member(
            "org.astonbitecode.j4rs.tests.MyTest",
            one_name("java.lang.String"),
            "org.astonbitecode.j4rs.tests.MyTest",
            false,
            Behaviour::NewRecordFromText,
        ),
    );
    constructors.push(
        member(
            "org.astonbitecode.j4rs.tests.MyTest",
            one_name("java.lang.String[]"),
            "org.astonbitecode.j4rs.tests.MyTest",
            false,
            Behaviour::NewRecordFromItems,
        ),
    );
    constructors.push(
        member(
            "org.astonbitecode.j4rs.tests.MyTest",
            one_name("org.astonbitecode.j4rs.tests.MyTest"),
            "org.astonbitecode.j4rs.tests.MyTest",
            false,
            Behaviour::NewRecordFromRecord,
        ),
    );
    let mut methods: Vec<Member> = Vec::new();
    methods.push(member("getMyString", no_names(), "java.lang.String", false, Behaviour::GetText));
    methods.push(
        member(
            "appendToMyString",
            one_name("java.lang.String"),
            "java.lang.String",
            false,
            Behaviour::AppendText,
        ),
    );
    methods.push(
        member(
            "getMyWithArgs",
            one_name("java.lang.String"),
            "java.lang.String",
            false,
            Behaviour::Echo,
        ),
    );
    methods.push(
        member(
            "getMyWithArgsList",
            one_name("java.lang.String[]"),
            "java.lang.String",
            false,
            Behaviour::ConcatItems,
        ),
    );
    methods.push(
        member(
            "addInts",
            one_name("java.lang.Integer[]"),
            "java.lang.Integer",
            false,
            Behaviour::SumItems,
        ),
    );
    methods.push(
        member(
            "addInts",
            two_names("int", "int"),
            "java.lang.Integer",
            false,
            Behaviour::SumPair,
        ),
    );
    methods.push(member("list", one_name("java.util.List"), "void", false, Behaviour::AcceptItems));
    methods.push(member("getMap", no_names(), "java.util.HashMap", false, Behaviour::GetMap));
    methods.push(
        member(
            "getNumbersUntil",
            one_name("java.lang.Integer"),
            "java.util.ArrayList",
            false,
            Behaviour::NumbersUntil,
        ),
    );
    methods.push(
        member(
            "getNullInteger",
            no_names(),
            "java.lang.Integer",
            false,
            Behaviour::GetNull,
        ),
    );
    let fields: Vec<Member> = Vec::new();
    let c = ClassDef {
        name: String::from_str("org.astonbitecode.j4rs.tests.MyTest"),
        supers: one_name("java.lang.Object"),
        constructors,
        methods,
        fields,
    };
    assert(members_model(c.constructors@) =~= fixture_model().constructors);
    assert(members_model(c.methods@) =~= fixture_model().methods);
    assert(members_model(c.fields@) =~= fixture_model().fields);
    c
}

/// A class whose methods call back.
pub open spec fn callback_fixture_model() -> ClassModel {
    ClassModel {
        name: "org.astonbitecode.j4rs.tests.MySecondTest"@,
        supers: seq!["java.lang.Object"@],
        constructors: seq![
            member_model(
                "org.astonbitecode.j4rs.tests.MySecondTest"@,
                Seq::empty(),
                "org.astonbitecode.j4rs.tests.MySecondTest"@,
                false,
                Behaviour::NewPlain,
            ),
        ],
        methods: seq![
            member_model("performCallback"@, Seq::empty(), "void"@, false, Behaviour::Callback),
            member_model(
                "performTenCallbacks"@,
                Seq::empty(),
                "void"@,
                false,
                Behaviour::TenCallbacks,
            ),
            member_model(
                "performCallbackFromTenThreads"@,
                Seq::empty(),
                "void"@,
                false,
                Behaviour::CallbackFromTenThreads,
            ),
        ],
        fields: Seq::empty(),
    }
}

fn callback_fixture_def() -> (c: ClassDef)
    ensures
        c@ == callback_fixture_model(),
{
    let mut constructors: Vec<Member> = Vec::new();
    constructors.push(
        member(
            "org.astonbitecode.j4rs.tests.MySecondTest",
            no_names(),
            "org.astonbitecode.j4rs.tests.MySecondTest",
            false,
            Behaviour::NewPlain,
        ),
    );
    let mut methods: Vec<Member> = Vec::new();
    methods.push(member("performCallback", no_names(), "void", false, Behaviour::Callback));
    methods.push(member("performTenCallbacks", no_names(), "void", false, Behaviour::TenCallbacks));
    methods.push(
        member(
            "performCallbackFromTenThreads",
            no_names(),
            "void",
            false,
            Behaviour::CallbackFromTenThreads,
        ),
    );
    let fields: Vec<Member> = Vec::new();
    let c = ClassDef {
        name: String::from_str("org.astonbitecode.j4rs.tests.MySecondTest"),
        supers: one_name("java.lang.Object"),
        constructors,
        methods,
        fields,
    };
    assert(members_model(c.constructors@) =~= callback_fixture_model().constructors);
    assert(members_model(c.methods@) =~= callback_fixture_model().methods);
    assert(members_model(c.fields@) =~= callback_fixture_model().fields);
    c
}

/// The classes every runtime declares from the start, in order.
pub open spec fn standard_classes() -> Seq<ClassModel> {
    seq![
        object_model(),
        string_model(),
        boxed_model(Primitive::Bool(false)),
        boxed_model(Primitive::Byte(0)),
        boxed_model(Primitive::Short(0)),
        boxed_model(Primitive::Int(0)),
        boxed_model(Primitive::Long(0)),
        boxed_model(Primitive::Float(0)),
        boxed_model(Primitive::Double(0)),
        boxed_model(Primitive::Char('a')),
        system_model(),
        print_stream_model(),
        list_model(),
        array_list_model(),
        map_model(),
        hash_map_model(),
        fixture_model(),
        callback_fixture_model(),
    ]
}

/// The class table of a new runtime.
pub fn standard_library() -> (table: ClassTable)
    ensures
        table@ == standard_classes(),
{
    let mut classes: Vec<ClassDef> = Vec::new();
    classes.push(object_def());
    classes.push(string_def());
    classes.push(boxed_def(Primitive::Bool(false)));
    classes.push(boxed_def(Primitive::Byte(0)));
    classes.push(boxed_def(Primitive::Short(0)));
    classes.push(boxed_def(Primitive::Int(0)));
    classes.push(boxed_def(Primitive::Long(0)));
    classes.push(boxed_def(Primitive::Float(0)));
    classes.push(boxed_def(Primitive::Double(0)));
    classes.push(boxed_def(Primitive::Char('a')));
    classes.push(system_def());
    classes.push(print_stream_def());
    classes.push(list_def());
    classes.push(array_list_def());
    classes.push(map_def());
    classes.push(hash_map_def());
    classes.push(fixture_def());
    classes.push(callback_fixture_def());
    let table = ClassTable { classes };
    assert(table@ =~= standard_classes());
    table
}

/// In a runtime with the standard classes, the string class is constructed
/// from a string by the constructor that keeps the text.
pub proof fn lemma_standard_string_constructor(m: JvmModel)
    requires
        m.classes == standard_classes(),
    ensures
        m.select(
            string_class(),
            MemberKind::Constructor,
            string_class(),
            seq![string_class()],
            false,
        ) matches Some(member) && member.behaviour == Behaviour::NewText,
{
    lemma_standard_names_differ();
    let classes = standard_classes();
    assert(classes[1] == string_model());
    assert(classes[0].name != classes[1].name);
    assert(is_first_class(classes, string_class(), 1));
    let first = choose|i: int| is_first_class(classes, string_class(), i);
    assert(is_first_class(classes, string_class(), first));
    if first > 1 {
        assert(classes[1].name != string_class());
    }
    assert(first == 1);
    let members = string_model().constructors;
    lemma_only_applicable_is_chosen(
        classes,
        members,
        string_class(),
        seq![string_class()],
        false,
        0,
    );
}

/// String round trip through a new runtime: for every host string `s`, an
/// instance of the string class created from `s` in a runtime that has just
/// been built converts back into `s`.
pub proof fn lemma_new_runtime_round_trips_strings(
    classpath: Seq<Seq<char>>,
    java_opts: Seq<Seq<char>>,
    repos: Seq<RepoModel>,
    owner: u64,
    clock: i64,
    s: Seq<char>,
)
    ensures
        ({
            let m = JvmModel::fresh(standard_classes(), classpath, java_opts, repos, owner, clock);
            let arg = ArgModel::Rust { value: text_data(s), class_name: string_class() };
            let step = m.create_instance(string_class(), seq![arg]);
            &&& step.result == Ok::<HandleModel, ErrorModel>(
                HandleModel { token: 0, class_name: string_class() },
            )
            &&& step.state.to_rust(
                HandleModel { token: 0, class_name: string_class() },
                Target::Item(ItemTarget::Text),
            ) == Ok::<HostModel, ErrorKind>(HostModel::Item(ItemModel::Text(s)))
        }),
{
    let m = JvmModel::fresh(standard_classes(), classpath, java_opts, repos, owner, clock);
    assert(m.gateway.attachments[0].thread == owner);
    lemma_standard_string_constructor(m);
    lemma_created_string_converts_back(m, s);
}

/// The place of the class that boxes `v` among the standard classes.
pub open spec fn boxed_position(v: Primitive) -> int {
    match v {
        Primitive::Bool(_) => 2,
        Primitive::Byte(_) => 3,
        Primitive::Short(_) => 4,
        Primitive::Int(_) => 5,
        Primitive::Long(_) => 6,
        Primitive::Float(_) => 7,
        Primitive::Double(_) => 8,
        Primitive::Char(_) => 9,
    }
}

/// The names of the first ten standard classes differ from each other:
/// they differ in length or in their eleventh character.
proof fn lemma_standard_names_differ()
    ensures
        forall|i: int, j: int|
            0 <= i < j < 10 ==> (#[trigger] standard_classes()[i]).name != (
            #[trigger] standard_classes()[j]).name,
{
    reveal_strlit("java.lang.Object");
    reveal_strlit("java.lang.String");
    reveal_strlit("java.lang.Boolean");
    reveal_strlit("java.lang.Byte");
    reveal_strlit("java.lang.Short");
    reveal_strlit("java.lang.Integer");
    reveal_strlit("java.lang.Long");
    reveal_strlit("java.lang.Float");
    reveal_strlit("java.lang.Double");
    reveal_strlit("java.lang.Character");
    let names = Seq::new(10, |i: int| standard_classes()[i].name);
    assert(names[0].len() == 16 && names[0][10] == 'O');
    assert(names[1].len() == 16 && names[1][10] == 'S');
    assert(names[2].len() == 17 && names[2][10] == 'B');
    assert(names[3].len() == 14 && names[3][10] == 'B');
    assert(names[4].len() == 15 && names[4][10] == 'S');
    assert(names[5].len() == 17 && names[5][10] == 'I');
    assert(names[6].len() == 14 && names[6][10] == 'L');
    assert(names[7].len() == 15 && names[7][10] == 'F');
    assert(names[8].len() == 16 && names[8][10] == 'D');
    assert(names[9].len() == 19 && names[9][10] == 'C');
    assert forall|i: int, j: int| 0 <= i < j < 10 implies (#[trigger] standard_classes()[i]).name
        != (#[trigger] standard_classes()[j]).name by {
        assert(names[i] == standard_classes()[i].name);
        assert(names[j] == standard_classes()[j].name);
        assert(names[i].len() != names[j].len() || names[i][10] != names[j][10]);
    }
}

/// In a runtime with the standard classes, the class that boxes a scalar is
/// constructed from the primitive by the constructor that boxes it.
pub proof fn lemma_standard_boxed_constructor(m: JvmModel, v: Primitive)
    requires
        m.classes == standard_classes(),
    ensures
        m.select(
            boxed_class(v),
            MemberKind::Constructor,
            boxed_class(v),
            seq![primitive_type(v)],
            false,
        ) matches Some(member) && member.behaviour == Behaviour::NewBoxed,
{
    lemma_standard_names_differ();
    let classes = standard_classes();
    let at = boxed_position(v);
    assert(classes[at].name == boxed_class(v));
    assert(classes[at].constructors == boxed_model(v).constructors);
    assert forall|j: int| 0 <= j < at implies (#[trigger] classes[j]).name != boxed_class(v) by {
        assert(classes[j].name != classes[at].name);
    }
    assert(is_first_class(classes, boxed_class(v), at));
    let first = choose|i: int| is_first_class(classes, boxed_class(v), i);
    assert(is_first_class(classes, boxed_class(v), first));
    if first > at {
        assert(classes[at].name != boxed_class(v));
    } else if first < at {
        assert(classes[first].name != boxed_class(v));
    }
    assert(first == at);
    lemma_only_applicable_is_chosen(
        classes,
        boxed_model(v).constructors,
        boxed_class(v),
        seq![primitive_type(v)],
        false,
        0,
    );
}

/// Scalars through a new runtime: for every scalar `v`, an instance of the
/// class that boxes it, created from the primitive `v` in a runtime that has
/// just been built, converts into a host type as the scalar itself does.
/// Into its own host type it converts back into `v`, and an integer that
/// lies outside the range of the host type asked for is a `NumericOverflow`:
/// it is never truncated.
pub proof fn lemma_new_runtime_round_trips_primitives(
    classpath: Seq<Seq<char>>,
    java_opts: Seq<Seq<char>>,
    repos: Seq<RepoModel>,
    owner: u64,
    clock: i64,
    v: Primitive,
    target: ItemTarget,
)
    ensures
        ({
            let m = JvmModel::fresh(standard_classes(), classpath, java_opts, repos, owner, clock);
            let handle = HandleModel { token: 0, class_name: boxed_class(v) };
            let step = m.create_instance(boxed_class(v), seq![ArgModel::Primitive { scalar: v }]);
            &&& step.result == Ok::<HandleModel, ErrorModel>(handle)
            &&& step.state.to_rust(handle, Target::Item(target)) == scalar_as_host(v, target)
            &&& step.state.to_rust(handle, Target::Item(v.natural_target())) == Ok::<
                HostModel,
                ErrorKind,
            >(HostModel::Item(v.model()))
            &&& (v.integral() matches Some(i) && target.is_integer() && !(target.min() <= i
                <= target.max())) ==> step.state.to_rust(handle, Target::Item(target)) == Err::<
                HostModel,
                ErrorKind,
            >(ErrorKind::NumericOverflow)
        }),
{
    let m = JvmModel::fresh(standard_classes(), classpath, java_opts, repos, owner, clock);
    assert(m.gateway.attachments[0].thread == owner);
    lemma_standard_boxed_constructor(m, v);
    lemma_created_scalar_converts_back(m, v, target);
}

} // verus!

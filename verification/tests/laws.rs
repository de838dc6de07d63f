use j4rs::errors::{ErrorKind, J4RsError};
use j4rs::handles::HandleTable;
use j4rs::host::{Float32Bits, Float64Bits};
use j4rs::marshal::{narrow_integer, ItemTarget, Primitive};
use j4rs::provisioning::{plan_deploy, DeployAction, JavaArtifact};
use j4rs::{
    InvocationArg, JavaOpt, Jvm, JvmBuilder, LocalJarArtifact, MavenArtifact, MavenArtifactRepo,
    MavenSettings,
};

fn fresh() -> Jvm {
    JvmBuilder::new().build().unwrap()
}

fn boxed(jvm: &mut Jvm, class_name: &str, value: Primitive) -> j4rs::Instance {
    jvm.create_instance(class_name, &[InvocationArg::primitive(value)])
        .unwrap()
}

#[test]
fn release_once_is_valid_and_twice_is_refused() {
    let mut table = HandleTable::new();
    let token = table.mint(0);
    let other = table.mint(0);
    assert_eq!(table.release(token), Ok(()));
    assert_eq!(table.release(token), Err(ErrorKind::HandleReleased));
    assert_eq!(table.resolve(token), Err(ErrorKind::HandleReleased));
    assert_eq!(table.resolve(other), Ok(0));
    assert_eq!(table.release(99), Err(ErrorKind::HandleReleased));
}

#[test]
fn a_released_handle_leaves_its_clone_usable() {
    let mut jvm = fresh();
    let first = jvm
        .create_instance("java.lang.String", &[InvocationArg::from("kept")])
        .unwrap();
    let second = jvm.clone_instance(&first).unwrap();
    jvm.release(first).unwrap();
    let text: String = jvm.to_rust(second).unwrap();
    assert_eq!(text, "kept");
}

#[test]
fn a_reference_that_is_not_live_is_refused_everywhere() {
    // A released handle cannot be named again, so a reference that is not
    // live reaches a runtime only through a handle of another runtime.
    let mut other = fresh();
    let text = other
        .create_instance("java.lang.String", &[InvocationArg::from("x")])
        .unwrap();
    let copy = other.clone_instance(&text).unwrap();
    let mut jvm = fresh();
    let released = ErrorKind::HandleReleased;
    assert!(!jvm.is_live(&text));
    assert_eq!(jvm.invoke(&text, "length", &[]).unwrap_err().kind(), released);
    assert_eq!(jvm.field(&text, "out").unwrap_err().kind(), released);
    assert_eq!(jvm.cast(&text, "java.lang.Object").unwrap_err().kind(), released);
    assert_eq!(jvm.clone_instance(&text).unwrap_err().kind(), released);
    assert_eq!(jvm.init_callback_channel(&text).unwrap_err().kind(), released);
    assert_eq!(jvm.invoke_to_channel(&text, "length", &[]).unwrap_err().kind(), released);
    let as_argument = jvm.create_instance("java.lang.String", &[InvocationArg::from(copy)]);
    assert_eq!(as_argument.unwrap_err().kind(), released);
    assert_eq!(jvm.to_rust::<String>(text).unwrap_err().kind(), released);
    // Nothing was handed out or changed by the refused calls.
    assert_eq!(jvm.references(), 0);
}

#[test]
fn releasing_a_reference_that_is_not_live_changes_nothing() {
    let mut other = fresh();
    let stale = other.create_instance("java.lang.Object", &[]).unwrap();
    let mut jvm = fresh();
    let kept = jvm
        .create_instance("java.lang.String", &[InvocationArg::from("kept")])
        .unwrap();
    jvm.release(kept).unwrap();
    // The stale handle bears the token the released one had.
    assert_eq!(jvm.release(stale).unwrap_err().kind(), ErrorKind::HandleReleased);
    assert_eq!(jvm.references(), 1);
}

#[test]
fn primitives_round_trip() {
    let mut jvm = fresh();
    let h = boxed(&mut jvm, "java.lang.Boolean", Primitive::Bool(true));
    assert_eq!(jvm.to_rust::<bool>(h).unwrap(), true);
    let h = boxed(&mut jvm, "java.lang.Byte", Primitive::Byte(-128));
    assert_eq!(jvm.to_rust::<i8>(h).unwrap(), -128);
    let h = boxed(&mut jvm, "java.lang.Short", Primitive::Short(32767));
    assert_eq!(jvm.to_rust::<i16>(h).unwrap(), 32767);
    let h = boxed(&mut jvm, "java.lang.Integer", Primitive::Int(i32::MIN));
    assert_eq!(jvm.to_rust::<i32>(h).unwrap(), i32::MIN);
    let h = boxed(&mut jvm, "java.lang.Long", Primitive::Long(i64::MAX));
    assert_eq!(jvm.to_rust::<i64>(h).unwrap(), i64::MAX);
    let h = boxed(&mut jvm, "java.lang.Float", Primitive::Float(1.5f32.to_bits()));
    assert_eq!(f32::from_bits(jvm.to_rust::<Float32Bits>(h).unwrap().0), 1.5f32);
    let h = boxed(&mut jvm, "java.lang.Double", Primitive::Double((-0.25f64).to_bits()));
    assert_eq!(f64::from_bits(jvm.to_rust::<Float64Bits>(h).unwrap().0), -0.25f64);
    let h = boxed(&mut jvm, "java.lang.Character", Primitive::Char('λ'));
    assert_eq!(jvm.to_rust::<char>(h).unwrap(), 'λ');
}

#[test]
fn strings_round_trip() {
    let mut jvm = fresh();
    for s in ["", "plain", "with \"quotes\" and \\ and \n", "λ→∀ 日本語 🎉"] {
        let h = jvm
            .create_instance("java.lang.String", &[InvocationArg::from(s)])
            .unwrap();
        let back: String = jvm.to_rust(h).unwrap();
        assert_eq!(back, s);
    }
    let h = jvm
        .create_instance("java.lang.String", &[InvocationArg::from(String::from("owned"))])
        .unwrap();
    assert_eq!(jvm.to_rust::<String>(h).unwrap(), "owned");
}

#[test]
fn long_two_to_the_forty_does_not_fit_a_32_bit_target() {
    let mut jvm = fresh();
    let h = boxed(&mut jvm, "java.lang.Long", Primitive::Long(1i64 << 40));
    let refused: Result<i32, J4RsError> = jvm.to_rust(h);
    assert_eq!(refused.unwrap_err().kind(), ErrorKind::NumericOverflow);
    let h = boxed(&mut jvm, "java.lang.Long", Primitive::Long(1i64 << 40));
    assert_eq!(jvm.to_rust::<i64>(h).unwrap(), 1099511627776);
}

#[test]
fn narrowing_is_exact_at_the_bounds() {
    assert_eq!(narrow_integer(127, ItemTarget::I8), Ok(127));
    assert_eq!(narrow_integer(128, ItemTarget::I8), Err(ErrorKind::NumericOverflow));
    assert_eq!(narrow_integer(-128, ItemTarget::I8), Ok(-128));
    assert_eq!(narrow_integer(-129, ItemTarget::I8), Err(ErrorKind::NumericOverflow));
    assert_eq!(narrow_integer(32767, ItemTarget::I16), Ok(32767));
    assert_eq!(narrow_integer(-32769, ItemTarget::I16), Err(ErrorKind::NumericOverflow));
    assert_eq!(narrow_integer(2147483647, ItemTarget::I32), Ok(2147483647));
    assert_eq!(narrow_integer(2147483648, ItemTarget::I32), Err(ErrorKind::NumericOverflow));
    assert_eq!(narrow_integer(-2147483648, ItemTarget::I32), Ok(-2147483648));
    assert_eq!(narrow_integer(i64::MIN, ItemTarget::I64), Ok(i64::MIN));
    assert_eq!(narrow_integer(5, ItemTarget::Isize), Ok(5));
}

#[test]
fn integers_widen_and_narrow_between_all_widths() {
    let mut jvm = fresh();
    let h = boxed(&mut jvm, "java.lang.Byte", Primitive::Byte(7));
    assert_eq!(jvm.to_rust::<i64>(h).unwrap(), 7);
    let h = boxed(&mut jvm, "java.lang.Integer", Primitive::Int(300));
    assert_eq!(jvm.to_rust::<i16>(h).unwrap(), 300);
    let h = boxed(&mut jvm, "java.lang.Integer", Primitive::Int(300));
    assert_eq!(
        jvm.to_rust::<i8>(h).unwrap_err().kind(),
        ErrorKind::NumericOverflow
    );
}

#[test]
fn a_nonexistent_method_is_method_not_found() {
    let mut jvm = fresh();
    let h = jvm
        .create_instance("java.lang.String", &[InvocationArg::from("x")])
        .unwrap();
    match jvm.invoke(&h, "noSuchMethod", &[InvocationArg::from(1_i32)]) {
        Err(J4RsError::MethodNotFound { name, arg_types }) => {
            assert_eq!(name, "noSuchMethod");
            assert_eq!(arg_types, vec![String::from("java.lang.Integer")]);
        }
        other => panic!("expected MethodNotFound, got {:?}", other),
    }
    match jvm.invoke_static("java.lang.System", "noSuchMethod", &[]) {
        Err(J4RsError::MethodNotFound { name, arg_types }) => {
            assert_eq!(name, "noSuchMethod");
            assert!(arg_types.is_empty());
        }
        other => panic!("expected MethodNotFound, got {:?}", other),
    }
}

#[test]
fn a_known_method_with_wrong_argument_types_is_method_not_found() {
    let mut jvm = fresh();
    let h = jvm
        .create_instance("org.astonbitecode.j4rs.tests.MyTest", &[])
        .unwrap();
    let refused = jvm.invoke(&h, "appendToMyString", &[InvocationArg::from(1_i32)]);
    assert_eq!(refused.unwrap_err().kind(), ErrorKind::MethodNotFound);
    let refused = jvm.invoke(&h, "appendToMyString", &[]);
    assert_eq!(refused.unwrap_err().kind(), ErrorKind::MethodNotFound);
    let refused = jvm.field(&h, "noSuchField");
    assert_eq!(refused.unwrap_err().kind(), ErrorKind::MethodNotFound);
}

#[test]
fn an_instance_method_is_not_found_on_a_class_handle() {
    let mut jvm = fresh();
    let class = jvm.static_class("java.lang.String").unwrap();
    let refused = jvm.invoke(&class, "length", &[]);
    assert_eq!(refused.unwrap_err().kind(), ErrorKind::MethodNotFound);
    let refused = jvm.invoke_static("java.lang.String", "length", &[]);
    assert_eq!(refused.unwrap_err().kind(), ErrorKind::MethodNotFound);
}

#[test]
fn primitive_and_boxed_arguments_select_different_overloads() {
    let mut jvm = fresh();
    let h = jvm
        .create_instance("org.astonbitecode.j4rs.tests.MyTest", &[])
        .unwrap();
    // Two primitives select addInts(int, int).
    let sum = jvm
        .invoke(
            &h,
            "addInts",
            &[
                InvocationArg::primitive(Primitive::Int(40)),
                InvocationArg::primitive(Primitive::Int(2)),
            ],
        )
        .unwrap();
    assert_eq!(jvm.to_rust::<i32>(sum).unwrap(), 42);
    // Two boxed integers select nothing: no overload takes (Integer, Integer).
    let refused = jvm.invoke(&h, "addInts", &[InvocationArg::from(40), InvocationArg::from(2)]);
    assert_eq!(refused.unwrap_err().kind(), ErrorKind::MethodNotFound);
    // The constructor of Integer takes the primitive, not the boxed value.
    let refused = jvm.create_instance("java.lang.Integer", &[InvocationArg::from(1_i32)]);
    assert_eq!(refused.unwrap_err().kind(), ErrorKind::MethodNotFound);
}

#[test]
fn integer_sums_wrap_as_the_managed_runtime_does() {
    let mut jvm = fresh();
    let h = jvm
        .create_instance("org.astonbitecode.j4rs.tests.MyTest", &[])
        .unwrap();
    let sum = jvm
        .invoke(
            &h,
            "addInts",
            &[
                InvocationArg::primitive(Primitive::Int(i32::MAX)),
                InvocationArg::primitive(Primitive::Int(1)),
            ],
        )
        .unwrap();
    assert_eq!(jvm.to_rust::<i32>(sum).unwrap(), i32::MIN);
}

#[test]
fn cast_to_an_unrelated_class_is_illegal() {
    let mut jvm = fresh();
    let h = jvm
        .create_instance("java.lang.String", &[InvocationArg::from("x")])
        .unwrap();
    let refused = jvm.cast(&h, "java.util.Map");
    assert_eq!(refused.unwrap_err().kind(), ErrorKind::IllegalCast);
    let refused = jvm.cast(&h, "no.such.Class");
    assert_eq!(refused.unwrap_err().kind(), ErrorKind::ClassNotFound);
    // The handle is as it was.
    assert_eq!(jvm.to_rust::<String>(h).unwrap(), "x");
}

#[test]
fn cast_to_an_interface_resolves_against_the_interface() {
    let mut jvm = fresh();
    let h = jvm
        .create_instance("org.astonbitecode.j4rs.tests.MyTest", &[])
        .unwrap();
    let map = jvm.invoke(&h, "getMap", &[]).unwrap();
    assert_eq!(map.class_name(), "java.util.HashMap");
    let as_map = jvm.cast(&map, "java.util.Map").unwrap();
    assert_eq!(as_map.class_name(), "java.util.Map");
    let as_object = jvm.cast(&map, "java.lang.Object").unwrap();
    // The interface declares size, the root class does not.
    let size = jvm.invoke(&as_map, "size", &[]).unwrap();
    assert_eq!(jvm.to_rust::<i32>(size).unwrap(), 2);
    let refused = jvm.invoke(&as_object, "size", &[]);
    assert_eq!(refused.unwrap_err().kind(), ErrorKind::MethodNotFound);
    // All three handles refer to one object: a put through one is seen by
    // the other.
    let previous = jvm
        .invoke(&map, "put", &[InvocationArg::from("one"), InvocationArg::from(11)])
        .unwrap();
    assert_eq!(jvm.to_rust::<i32>(previous).unwrap(), 1);
    let size = jvm.invoke(&as_map, "size", &[]).unwrap();
    assert_eq!(jvm.to_rust::<i32>(size).unwrap(), 2);
}

#[test]
fn put_answers_null_for_a_new_key() {
    let mut jvm = fresh();
    let h = jvm
        .create_instance("org.astonbitecode.j4rs.tests.MyTest", &[])
        .unwrap();
    let map = jvm.invoke(&h, "getMap", &[]).unwrap();
    let previous = jvm
        .invoke(&map, "put", &[InvocationArg::from("three"), InvocationArg::from(3)])
        .unwrap();
    assert_eq!(previous.class_name(), "void");
    assert_eq!(
        jvm.to_rust::<i32>(previous).unwrap_err().kind(),
        ErrorKind::NullResult
    );
}

#[test]
fn unknown_classes_are_class_not_found() {
    let mut jvm = fresh();
    assert_eq!(
        jvm.create_instance("no.such.Class", &[]).unwrap_err().kind(),
        ErrorKind::ClassNotFound
    );
    assert_eq!(
        jvm.static_class("no.such.Class").unwrap_err().kind(),
        ErrorKind::ClassNotFound
    );
    assert_eq!(
        jvm.invoke_static("no.such.Class", "m", &[]).unwrap_err().kind(),
        ErrorKind::ClassNotFound
    );
    assert_eq!(
        jvm.create_java_array("no.such.Class", &[]).unwrap_err().kind(),
        ErrorKind::ClassNotFound
    );
    let arg = InvocationArg::new(j4rs::args::HostValue::Text(String::from("x")), "no.such.Class");
    assert_eq!(
        jvm.create_instance("java.lang.String", &[arg]).unwrap_err().kind(),
        ErrorKind::ClassNotFound
    );
}

#[test]
fn a_value_that_does_not_fit_its_class_is_a_conversion_error() {
    let mut jvm = fresh();
    let arg = InvocationArg::new(j4rs::args::HostValue::Text(String::from("x")), "java.lang.Integer");
    assert_eq!(
        jvm.create_instance("java.lang.String", &[arg]).unwrap_err().kind(),
        ErrorKind::ConversionError
    );
    // An array must be homogeneous.
    let mixed = jvm.create_java_array(
        "java.lang.String",
        &[InvocationArg::from("a"), InvocationArg::from(1_i32)],
    );
    assert_eq!(mixed.unwrap_err().kind(), ErrorKind::ConversionError);
    // A string cannot be passed as a primitive.
    assert_eq!(
        InvocationArg::from("a").into_primitive().unwrap_err().kind(),
        ErrorKind::ConversionError
    );
}

#[test]
fn a_mismatched_host_type_is_an_invalid_cast() {
    let mut jvm = fresh();
    let h = jvm
        .create_instance("java.lang.String", &[InvocationArg::from("12")])
        .unwrap();
    assert_eq!(jvm.to_rust::<i32>(h).unwrap_err().kind(), ErrorKind::InvalidCast);
    let h = boxed(&mut jvm, "java.lang.Integer", Primitive::Int(1));
    assert_eq!(jvm.to_rust::<String>(h).unwrap_err().kind(), ErrorKind::InvalidCast);
    let h = boxed(&mut jvm, "java.lang.Integer", Primitive::Int(1));
    assert_eq!(jvm.to_rust::<bool>(h).unwrap_err().kind(), ErrorKind::InvalidCast);
    let h = boxed(&mut jvm, "java.lang.Integer", Primitive::Int(1));
    assert_eq!(jvm.to_rust::<Vec<i32>>(h).unwrap_err().kind(), ErrorKind::InvalidCast);
    let h = boxed(&mut jvm, "java.lang.Float", Primitive::Float(0));
    assert_eq!(
        jvm.to_rust::<Float64Bits>(h).unwrap_err().kind(),
        ErrorKind::InvalidCast
    );
}

#[test]
fn null_is_a_null_result() {
    let mut jvm = fresh();
    let h = jvm
        .create_instance("org.astonbitecode.j4rs.tests.MyTest", &[])
        .unwrap();
    let null = jvm.invoke(&h, "getNullInteger", &[]).unwrap();
    assert_eq!(jvm.to_rust::<i32>(null).unwrap_err().kind(), ErrorKind::NullResult);
    let null = jvm.invoke(&h, "getNullInteger", &[]).unwrap();
    assert_eq!(
        jvm.to_rust::<Vec<String>>(null).unwrap_err().kind(),
        ErrorKind::NullResult
    );
}

#[test]
fn a_host_type_that_can_be_absent_takes_null() {
    let mut jvm = fresh();
    let h = jvm
        .create_instance("org.astonbitecode.j4rs.tests.MyTest", &[])
        .unwrap();
    let null = jvm.invoke(&h, "getNullInteger", &[]).unwrap();
    assert_eq!(jvm.to_rust::<Option<i32>>(null).unwrap(), None);
    let one = boxed(&mut jvm, "java.lang.Integer", Primitive::Int(1));
    assert_eq!(jvm.to_rust::<Option<i32>>(one).unwrap(), Some(1));
    let big = boxed(&mut jvm, "java.lang.Long", Primitive::Long(1i64 << 40));
    assert_eq!(
        jvm.to_rust::<Option<i32>>(big).unwrap_err().kind(),
        ErrorKind::NumericOverflow
    );
    let text = jvm
        .create_instance("java.lang.String", &[InvocationArg::from("x")])
        .unwrap();
    assert_eq!(
        jvm.to_rust::<Option<i32>>(text).unwrap_err().kind(),
        ErrorKind::InvalidCast
    );
    let text = jvm
        .create_instance("java.lang.String", &[InvocationArg::from("x")])
        .unwrap();
    assert_eq!(jvm.to_rust::<Option<String>>(text).unwrap(), Some(String::from("x")));
}

#[test]
fn a_managed_exception_is_invocation_failed() {
    let mut jvm = fresh();
    let h = jvm
        .create_instance("java.lang.String", &[InvocationArg::from("abc")])
        .unwrap();
    match jvm.invoke(&h, "charAt", &[InvocationArg::primitive(Primitive::Int(3))]) {
        Err(J4RsError::InvocationFailed { message, managed_stack_trace }) => {
            assert_eq!(
                message,
                "java.lang.StringIndexOutOfBoundsException: index out of range"
            );
            assert!(managed_stack_trace.starts_with("\tat "));
        }
        other => panic!("expected InvocationFailed, got {:?}", other),
    }
    let c = jvm
        .invoke(&h, "charAt", &[InvocationArg::primitive(Primitive::Int(2))])
        .unwrap();
    assert_eq!(jvm.to_rust::<char>(c).unwrap(), 'c');
    // A separator of more than one character is refused by the runtime.
    let refused = jvm.invoke(&h, "split", &[InvocationArg::from("ab")]);
    assert_eq!(refused.unwrap_err().kind(), ErrorKind::InvocationFailed);
}

#[test]
fn split_keeps_empty_pieces() {
    let mut jvm = fresh();
    let h = jvm
        .create_instance("java.lang.String", &[InvocationArg::from("arg from Rust")])
        .unwrap();
    let pieces = jvm.invoke(&h, "split", &[InvocationArg::from(" ")]).unwrap();
    assert_eq!(pieces.class_name(), "java.lang.String[]");
    assert_eq!(
        jvm.to_rust::<Vec<String>>(pieces).unwrap(),
        vec!["arg", "from", "Rust"]
    );
    let h = jvm
        .create_instance("java.lang.String", &[InvocationArg::from(",a,,b,")])
        .unwrap();
    let pieces = jvm.invoke(&h, "split", &[InvocationArg::from(",")]).unwrap();
    assert_eq!(
        jvm.to_rust::<Vec<String>>(pieces).unwrap(),
        vec!["", "a", "", "b", ""]
    );
    let h = jvm
        .create_instance("java.lang.String", &[InvocationArg::from("")])
        .unwrap();
    let pieces = jvm.invoke(&h, "split", &[InvocationArg::from(",")]).unwrap();
    assert_eq!(jvm.to_rust::<Vec<String>>(pieces).unwrap(), vec![""]);
}

#[test]
fn joining_undoes_splitting() {
    for text in ["", "a", ":", "a:b::c", "::", "no separator", "λ:→:"] {
        let pieces = j4rs::natives::split(text, ':');
        assert_eq!(j4rs::natives::join(&pieces, ":").unwrap(), text);
    }
    let pieces = j4rs::natives::split("a:b::c", ':');
    assert_eq!(pieces.len(), 4);
    assert_eq!(j4rs::natives::join(&pieces, ", ").unwrap(), "a, b, , c");
    assert_eq!(j4rs::natives::join(&pieces, "").unwrap(), "abc");
    assert_eq!(j4rs::natives::join(&Vec::new(), ", ").unwrap(), "");
    // Joining fails where an element is no string, summing where one is no
    // 32-bit integer.
    let mixed = vec![
        j4rs::marshal::Atom::Text(String::from("a")),
        j4rs::marshal::Atom::Scalar(Primitive::Int(1)),
    ];
    assert!(j4rs::natives::join(&mixed, ",").is_none());
    assert!(j4rs::natives::sum(&mixed).is_none());
    let numbers = j4rs::natives::count_up(5);
    assert_eq!(j4rs::natives::sum(&numbers), Some(10));
}

#[test]
fn a_list_of_strings_is_passed_as_a_managed_list() {
    let mut jvm = fresh();
    let h = jvm
        .create_instance("org.astonbitecode.j4rs.tests.MyTest", &[])
        .unwrap();
    let list = InvocationArg::text_list(&["arg1", "arg2"]);
    let nothing = jvm.invoke(&h, "list", &[list]).unwrap();
    assert_eq!(nothing.class_name(), "void");
    // The same values as an array select nothing: the method takes a list.
    let array = jvm
        .create_java_array(
            "java.lang.String",
            &[InvocationArg::from("arg1"), InvocationArg::from("arg2")],
        )
        .unwrap();
    let refused = jvm.invoke(&h, "list", &[InvocationArg::from(array)]);
    assert_eq!(refused.unwrap_err().kind(), ErrorKind::MethodNotFound);
}

#[test]
fn a_list_converts_element_by_element() {
    let mut jvm = fresh();
    let h = jvm
        .create_instance("org.astonbitecode.j4rs.tests.MyTest", &[])
        .unwrap();
    let list = jvm
        .invoke(&h, "getNumbersUntil", &[InvocationArg::from(4_i32)])
        .unwrap();
    assert_eq!(jvm.to_rust::<Vec<i64>>(list).unwrap(), vec![0, 1, 2, 3]);
    let list = jvm
        .invoke(&h, "getNumbersUntil", &[InvocationArg::from(-4_i32)])
        .unwrap();
    assert_eq!(jvm.to_rust::<Vec<i32>>(list).unwrap(), Vec::<i32>::new());
    let list = jvm
        .invoke(&h, "getNumbersUntil", &[InvocationArg::from(200_i32)])
        .unwrap();
    assert_eq!(
        jvm.to_rust::<Vec<i8>>(list).unwrap_err().kind(),
        ErrorKind::NumericOverflow
    );
    let list = jvm
        .invoke(&h, "getNumbersUntil", &[InvocationArg::from(2_i32)])
        .unwrap();
    assert_eq!(
        jvm.to_rust::<Vec<String>>(list).unwrap_err().kind(),
        ErrorKind::InvalidCast
    );
}

#[test]
fn an_array_argument_of_the_array_variant_is_populated_in_order() {
    let mut jvm = fresh();
    let elements = vec![
        j4rs::marshal::Atom::Text(String::from("x")),
        j4rs::marshal::Atom::Text(String::from("y")),
    ];
    let h = jvm
        .create_instance(
            "org.astonbitecode.j4rs.tests.MyTest",
            &[InvocationArg::array(elements, "java.lang.String")],
        )
        .unwrap();
    let text = jvm.invoke(&h, "getMyString", &[]).unwrap();
    assert_eq!(jvm.to_rust::<String>(text).unwrap(), "x, y");
    let empty = jvm.create_java_array("java.lang.String", &[]).unwrap();
    let h = jvm
        .create_instance(
            "org.astonbitecode.j4rs.tests.MyTest",
            &[InvocationArg::from(empty)],
        )
        .unwrap();
    let text = jvm.invoke(&h, "getMyString", &[]).unwrap();
    assert_eq!(jvm.to_rust::<String>(text).unwrap(), "");
}

#[test]
fn the_default_constructor_sets_the_default_text() {
    let mut jvm = fresh();
    let h = jvm
        .create_instance("org.astonbitecode.j4rs.tests.MyTest", &[])
        .unwrap();
    let text = jvm.invoke(&h, "getMyString", &[]).unwrap();
    assert_eq!(
        jvm.to_rust::<String>(text).unwrap(),
        "THE DEFAULT CONSTRUCTOR WAS CALLED"
    );
    let echoed = jvm
        .invoke(&h, "getMyWithArgs", &[InvocationArg::from("echo")])
        .unwrap();
    assert_eq!(jvm.to_rust::<String>(echoed).unwrap(), "echo");
}

#[test]
fn println_writes_one_line_to_the_console() {
    let mut jvm = fresh();
    let system = jvm.static_class("java.lang.System").unwrap();
    let out = jvm.field(&system, "out").unwrap();
    assert_eq!(out.class_name(), "java.io.PrintStream");
    let nothing = jvm
        .invoke(&out, "println", &[InvocationArg::from("Hello World")])
        .unwrap();
    assert_eq!(nothing.class_name(), "void");
    assert_eq!(jvm.console(), &vec![String::from("Hello World")]);
}

#[test]
fn the_clock_is_what_the_embedder_set() {
    let mut jvm = JvmBuilder::new().clock_millis(1_234).build().unwrap();
    let now = jvm
        .invoke_static("java.lang.System", "currentTimeMillis", &[])
        .unwrap();
    assert_eq!(jvm.to_rust::<i64>(now).unwrap(), 1_234);
    jvm.set_clock(5_678);
    let now = jvm
        .invoke_static("java.lang.System", "currentTimeMillis", &[])
        .unwrap();
    assert_eq!(jvm.to_rust::<i64>(now).unwrap(), 5_678);
}

#[test]
fn attaching_is_idempotent() {
    let mut jvm = JvmBuilder::new().owner_thread(1).build().unwrap();
    assert!(jvm.is_attached(1));
    assert!(!jvm.is_attached(2));
    // A new thread whose handshake fails is not attached.
    let refused = jvm.attach_current_thread(2, true, false);
    assert_eq!(refused.unwrap_err().kind(), ErrorKind::AttachFailed);
    assert!(!jvm.is_attached(2));
    let access = jvm.attach_current_thread(2, true, true).unwrap();
    assert_eq!(access.thread, 2);
    // A second attach gives the attachment back without a handshake.
    let again = jvm.attach_current_thread(2, false, false).unwrap();
    assert_eq!(again, access);
    // The first attach decided that the thread detaches when it ends.
    jvm.thread_exit(2);
    assert!(!jvm.is_attached(2));
    // A thread attached to stay survives its end.
    jvm.attach_current_thread(3, false, true).unwrap();
    jvm.thread_exit(3);
    assert!(jvm.is_attached(3));
}

#[test]
fn the_owner_thread_can_be_attached_to_stay() {
    let mut jvm = JvmBuilder::new().owner_thread(4).build().unwrap();
    jvm.detach_thread_on_drop(false);
    jvm.thread_exit(4);
    assert!(jvm.is_attached(4));
    assert!(jvm.usable());
    jvm.detach_thread_on_drop(true);
    jvm.thread_exit(4);
    assert!(!jvm.is_attached(4));
}

#[test]
fn no_thread_attaches_after_shutdown() {
    let mut jvm = fresh();
    jvm.shutdown();
    let refused = jvm.attach_current_thread(5, true, true);
    assert_eq!(refused.unwrap_err().kind(), ErrorKind::RuntimeUnavailable);
    let refused = jvm.attach_current_thread(0, true, true);
    assert_eq!(refused.unwrap_err().kind(), ErrorKind::RuntimeUnavailable);
}

#[test]
fn no_call_goes_through_after_shutdown() {
    let mut jvm = fresh();
    let text = jvm
        .create_instance("java.lang.String", &[InvocationArg::from("x")])
        .unwrap();
    jvm.shutdown();
    assert!(!jvm.usable());
    let unavailable = ErrorKind::RuntimeUnavailable;
    assert_eq!(jvm.create_instance("java.lang.String", &[]).unwrap_err().kind(), unavailable);
    assert_eq!(jvm.invoke(&text, "length", &[]).unwrap_err().kind(), unavailable);
    assert_eq!(jvm.field(&text, "x").unwrap_err().kind(), unavailable);
    assert_eq!(jvm.invoke_static("java.lang.System", "currentTimeMillis", &[]).unwrap_err().kind(), unavailable);
    assert_eq!(jvm.static_class("java.lang.System").unwrap_err().kind(), unavailable);
    assert_eq!(jvm.cast(&text, "java.lang.Object").unwrap_err().kind(), unavailable);
    assert_eq!(jvm.clone_instance(&text).unwrap_err().kind(), unavailable);
    assert_eq!(jvm.create_java_array("java.lang.String", &[]).unwrap_err().kind(), unavailable);
    assert_eq!(jvm.init_callback_channel(&text).unwrap_err().kind(), unavailable);
    assert_eq!(jvm.invoke_to_channel(&text, "length", &[]).unwrap_err().kind(), unavailable);
    let refs = jvm.references();
    assert_eq!(jvm.to_rust::<String>(text).unwrap_err().kind(), unavailable);
    assert_eq!(jvm.references(), refs);
}

#[test]
fn no_call_goes_through_once_the_owner_thread_has_ended() {
    let mut jvm = JvmBuilder::new().owner_thread(4).build().unwrap();
    assert!(jvm.usable());
    jvm.thread_exit(4);
    assert!(!jvm.usable());
    assert_eq!(
        jvm.create_instance("java.lang.Object", &[]).unwrap_err().kind(),
        ErrorKind::RuntimeUnavailable
    );
    // Attaching the thread again makes the handle usable again.
    jvm.attach_current_thread(4, true, true).unwrap();
    assert!(jvm.create_instance("java.lang.Object", &[]).is_ok());
}

#[test]
fn the_builder_keeps_the_configuration_in_order() {
    let jvm = JvmBuilder::new()
        .classpath_entry(j4rs::ClasspathEntry::new("a.jar"))
        .classpath_entries(vec![
            j4rs::ClasspathEntry::new("b.jar"),
            j4rs::ClasspathEntry::new("c.jar"),
        ])
        .java_opt(JavaOpt::new("-Xmx1g"))
        .java_opts(vec![JavaOpt::new("-Da=b")])
        .with_maven_settings(MavenSettings::new(vec![MavenArtifactRepo::from(
            "myrepo1::https://my.repo.io/artifacts",
        )]))
        .build()
        .unwrap();
    assert_eq!(jvm.classpath(), &vec!["a.jar", "b.jar", "c.jar"]);
    assert_eq!(jvm.java_opts(), &vec!["-Xmx1g", "-Da=b"]);
    assert_eq!(jvm.maven_settings().repos.len(), 1);
    assert_eq!(jvm.maven_settings().repos[0].id, "myrepo1");
    assert_eq!(jvm.maven_settings().repos[0].uri, "https://my.repo.io/artifacts");
}

#[test]
fn deploy_local_artifact() {
    let mut jvm: Jvm = j4rs::new_jvm(Vec::new(), Vec::new()).unwrap();
    let artifact = LocalJarArtifact::from("./non_existing.jar");
    let staged = std::path::Path::new(&artifact.path).exists();
    assert!(jvm
        .deploy_artifact(&JavaArtifact::LocalJar(artifact), staged)
        .is_err());
}

#[test]
fn a_failed_deployment_is_artifact_deploy_failed_and_changes_nothing() {
    let mut jvm = fresh();
    let artifact = JavaArtifact::Maven(MavenArtifact::from("io.github.astonbitecode:j4rs:0.5.1"));
    let refused = jvm.deploy_artifact(&artifact, false);
    assert_eq!(refused.unwrap_err().kind(), ErrorKind::ArtifactDeployFailed);
    assert!(jvm.classpath().is_empty());
    assert!(jvm.deploy_artifact(&artifact, true).is_ok());
    assert_eq!(jvm.classpath(), &vec!["j4rs-0.5.1.jar"]);
}

#[test]
fn maven_coordinates_are_split_at_colons() {
    let a = MavenArtifact::from("io.github.astonbitecode:j4rs:0.5.1");
    assert_eq!(a.group, "io.github.astonbitecode");
    assert_eq!(a.id, "j4rs");
    assert_eq!(a.version, "0.5.1");
    assert_eq!(a.qualifier, "");
    assert_eq!(a.file_name(), "j4rs-0.5.1.jar");
    let a = MavenArtifact::from("g:i:1.0:sources");
    assert_eq!(a.qualifier, "sources");
    assert_eq!(a.file_name(), "i-1.0-sources.jar");
    let a = MavenArtifact::from("only-group");
    assert_eq!(a.group, "only-group");
    assert_eq!(a.id, "");
    assert_eq!(a.version, "");
    let a = MavenArtifact::from("");
    assert_eq!(a.group, "");
}

#[test]
fn repositories_are_split_at_the_double_colon() {
    let r = MavenArtifactRepo::from("myrepo1::https://my.repo.io/artifacts");
    assert_eq!(r.id, "myrepo1");
    assert_eq!(r.uri, "https://my.repo.io/artifacts");
    let r = MavenArtifactRepo::from("myrepo2::https://my.other.repo.io/artifacts");
    assert_eq!(r.id, "myrepo2");
    assert_eq!(r.uri, "https://my.other.repo.io/artifacts");
    let r = MavenArtifactRepo::from("no-separator");
    assert_eq!(r.id, "no-separator");
    assert_eq!(r.uri, "");
    let r = MavenArtifactRepo::from("a::b::c");
    assert_eq!(r.id, "a");
    assert_eq!(r.uri, "b");
    let r = MavenArtifactRepo::from("::");
    assert_eq!(r.id, "");
    assert_eq!(r.uri, "");
    let r = MavenArtifactRepo::from(":");
    assert_eq!(r.id, ":");
}

#[test]
fn a_local_jar_is_copied_under_its_file_name() {
    let a = LocalJarArtifact::from("/opt/jars/tool.jar");
    assert_eq!(a.base, "tool.jar");
    assert_eq!(a.path, "/opt/jars/tool.jar");
    match plan_deploy(&JavaArtifact::LocalJar(a)) {
        DeployAction::Copy { from, file_name } => {
            assert_eq!(from, "/opt/jars/tool.jar");
            assert_eq!(file_name, "tool.jar");
        }
        other => panic!("expected a copy, got {:?}", other),
    }
    let a = LocalJarArtifact::from("tool.jar");
    assert_eq!(a.base, "tool.jar");
    let a = LocalJarArtifact::from("dir/");
    assert_eq!(a.base, "");
    match plan_deploy(&JavaArtifact::Maven(MavenArtifact::from("g:i:1"))) {
        DeployAction::Fetch { group, id, version, file_name } => {
            assert_eq!(group, "g");
            assert_eq!(id, "i");
            assert_eq!(version, "1");
            assert_eq!(file_name, "i-1.jar");
        }
        other => panic!("expected a fetch, got {:?}", other),
    }
}

#[test]
fn errors_of_a_kind_without_payload_have_that_kind() {
    for kind in [
        ErrorKind::RuntimeUnavailable,
        ErrorKind::AttachFailed,
        ErrorKind::ClassNotFound,
        ErrorKind::ConversionError,
        ErrorKind::NumericOverflow,
        ErrorKind::InvalidCast,
        ErrorKind::IllegalCast,
        ErrorKind::MethodNotFound,
        ErrorKind::InvocationFailed,
        ErrorKind::NullResult,
        ErrorKind::ChannelClosed,
        ErrorKind::ArtifactDeployFailed,
        ErrorKind::HandleReleased,
    ] {
        assert_eq!(J4RsError::of_kind(kind).kind(), kind);
    }
}

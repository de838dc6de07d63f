use j4rs::{ClasspathEntry, InvocationArg, Jvm, JvmBuilder};

#[test]
fn create_instance_and_invoke() {
    let mut jvm: Jvm = JvmBuilder::new()
        .classpath_entry(ClasspathEntry::new("onemore.jar"))
        .build()
        .unwrap();

    let instantiation_args = vec![InvocationArg::from("arg from Rust")];
    let instance = jvm.create_instance("java.lang.String", instantiation_args.as_ref());
    match instance {
        Ok(i) => {
            let invocation_args = vec![InvocationArg::from(" ")];
            let invocation_result = jvm.invoke(&i, "split", &invocation_args);
            assert!(invocation_result.is_ok());
        }
        Err(error) => {
            panic!("ERROR when creating Instance: {:?}", error);
        }
    };

    let instantiation_args_2 = vec![InvocationArg::from("arg from Rust")];
    let instance_2 = jvm.create_instance("java.lang.String", instantiation_args_2.as_ref());
    match instance_2 {
        Ok(i) => {
            let invocation_args = vec![InvocationArg::from(" ")];
            let invocation_result = jvm.invoke(&i, "split", &invocation_args);
            assert!(invocation_result.is_ok());
        }
        Err(error) => {
            panic!("ERROR when creating Instance: {:?}", error);
        }
    };

    let static_invocation_result =
        jvm.invoke_static("java.lang.System", "currentTimeMillis", &Vec::new());
    assert!(static_invocation_result.is_ok());
}

#[test]
fn clone_instance() {
    let mut jvm: Jvm = j4rs::new_jvm(vec![ClasspathEntry::new("onemore.jar")], Vec::new()).unwrap();
    // Create a MyTest instance
    let i_result = jvm.create_instance("org.astonbitecode.j4rs.tests.MyTest", Vec::new().as_ref());
    assert!(i_result.is_ok());
    let i_arg = i_result.unwrap();

    // Create two clones of the instance
    let i1 = jvm.clone_instance(&i_arg).unwrap();
    let i2 = jvm.clone_instance(&i_arg).unwrap();
    // Use the clones as arguments
    let invocation_res = jvm.create_instance(
        "org.astonbitecode.j4rs.tests.MyTest",
        &vec![InvocationArg::from(i1)],
    );
    assert!(invocation_res.is_ok());
    let invocation_res = jvm.create_instance(
        "org.astonbitecode.j4rs.tests.MyTest",
        &vec![InvocationArg::from(i2)],
    );
    assert!(invocation_res.is_ok());
}

#[test]
fn cast() {
    let mut jvm: Jvm = j4rs::new_jvm(vec![ClasspathEntry::new("onemore.jar")], vec![]).unwrap();

    let instantiation_args = vec![InvocationArg::from("Hi")];
    let instance = jvm
        .create_instance("java.lang.String", instantiation_args.as_ref())
        .unwrap();
    jvm.cast(&instance, "java.lang.Object").unwrap();
}

#[test]
fn invoke_vec() {
    let mut jvm: Jvm = j4rs::new_jvm(vec![ClasspathEntry::new("onemore.jar")], vec![]).unwrap();

    match jvm.create_instance("org.astonbitecode.j4rs.tests.MyTest", Vec::new().as_ref()) {
        Ok(i) => {
            let invocation_args = vec![InvocationArg::try_from((
                vec!["arg1", "arg2", "arg3", "arg33"].as_slice(),
                &jvm,
            ))
            .unwrap()];
            let _ = jvm.invoke(&i, "list", &invocation_args);
        }
        Err(error) => {
            panic!("ERROR when creating Instance: {:?}", error);
        }
    }
}

#[test]
fn variadic_constructor() {
    let mut jvm: Jvm = j4rs::new_jvm(Vec::new(), Vec::new()).unwrap();

    let s1 = InvocationArg::from("abc");
    let s2 = InvocationArg::from("def");
    let s3 = InvocationArg::from("ghi");

    let arr_instance = jvm
        .create_java_array("java.lang.String", &vec![s1, s2, s3])
        .unwrap();

    let test_instance = jvm
        .create_instance(
            "org.astonbitecode.j4rs.tests.MyTest",
            &[InvocationArg::from(arr_instance)],
        )
        .unwrap();

    let i = jvm.invoke(&test_instance, "getMyString", &[]).unwrap();

    let s: String = jvm.to_rust(i).unwrap();
    assert!(s == "abc, def, ghi");
}

#[test]
fn variadic_string_method() {
    let mut jvm: Jvm = j4rs::new_jvm(Vec::new(), Vec::new()).unwrap();
    let test_instance = jvm
        .create_instance("org.astonbitecode.j4rs.tests.MyTest", &[])
        .unwrap();

    let s1 = InvocationArg::from("abc");
    let s2 = InvocationArg::from("def");
    let s3 = InvocationArg::from("ghi");

    let arr_instance = jvm
        .create_java_array("java.lang.String", &vec![s1, s2, s3])
        .unwrap();

    let i = jvm
        .invoke(
            &test_instance,
            "getMyWithArgsList",
            &vec![InvocationArg::from(arr_instance)],
        )
        .unwrap();

    let s: String = jvm.to_rust(i).unwrap();
    assert!(s == "abcdefghi");
}

#[test]
fn variadic_int_method() {
    let mut jvm: Jvm = j4rs::new_jvm(Vec::new(), Vec::new()).unwrap();
    let test_instance = jvm
        .create_instance("org.astonbitecode.j4rs.tests.MyTest", &[])
        .unwrap();

    let s1 = InvocationArg::from(1);
    let s2 = InvocationArg::from(2);
    let s3 = InvocationArg::from(3);

    let arr_instance = jvm
        .create_java_array("java.lang.Integer", &vec![s1, s2, s3])
        .unwrap();

    let i = jvm
        .invoke(&test_instance, "addInts", &vec![InvocationArg::from(arr_instance)])
        .unwrap();

    let num: i32 = jvm.to_rust(i).unwrap();
    assert!(num == 6);
}

#[test]
fn instance_invocation_chain_and_collect() {
    let mut jvm: Jvm = j4rs::new_jvm(Vec::new(), Vec::new()).unwrap();
    let instance = jvm
        .create_instance(
            "org.astonbitecode.j4rs.tests.MyTest",
            &vec![InvocationArg::from("string")],
        )
        .unwrap();

    let i1 = jvm
        .chain(instance)
        .invoke(&mut jvm, "appendToMyString", &vec![InvocationArg::from("_is_appended")])
        .unwrap()
        .invoke(&mut jvm, "length", &[])
        .unwrap()
        .collect();

    let product: isize = jvm.to_rust(i1).unwrap();

    assert!(product == 18);
}

#[test]
fn instance_invocation_chain_and_to_rust() {
    let mut jvm: Jvm = j4rs::new_jvm(Vec::new(), Vec::new()).unwrap();
    let instance = jvm
        .create_instance(
            "org.astonbitecode.j4rs.tests.MyTest",
            &vec![InvocationArg::from("string")],
        )
        .unwrap();

    let product: isize = jvm
        .chain(instance)
        .invoke(&mut jvm, "appendToMyString", &vec![InvocationArg::from("_is_appended")])
        .unwrap()
        .invoke(&mut jvm, "length", &[])
        .unwrap()
        .to_rust(&mut jvm)
        .unwrap();

    assert!(product == 18);
}

#[test]
fn static_invocation_chain_and_to_rust() {
    let mut jvm: Jvm = JvmBuilder::new().build().unwrap();

    let static_invocation = jvm.static_class("java.lang.System").unwrap();

    let _: isize = jvm
        .chain(static_invocation)
        .invoke(&mut jvm, "currentTimeMillis", &[])
        .unwrap()
        .to_rust(&mut jvm)
        .unwrap();
}

#[test]
fn access_class_field() {
    let mut jvm: Jvm = JvmBuilder::new().build().unwrap();

    let static_invocation = jvm.static_class("java.lang.System").unwrap();
    let field_instance_res = jvm.field(&static_invocation, "out");
    assert!(field_instance_res.is_ok());
}

#[test]
fn java_hello_world() {
    let mut jvm: Jvm = JvmBuilder::new().build().unwrap();

    let system = jvm.static_class("java.lang.System").unwrap();
    let _ = jvm
        .chain(system)
        .field(&mut jvm, "out")
        .unwrap()
        .invoke(&mut jvm, "println", &vec![InvocationArg::from("Hello World")])
        .unwrap()
        .collect();
}

#[test]
fn parent_interface_method() {
    let mut jvm: Jvm = JvmBuilder::new().build().unwrap();
    let instance = jvm
        .create_instance("org.astonbitecode.j4rs.tests.MyTest", &[])
        .unwrap();

    let size: isize = jvm
        .chain(instance)
        .invoke(&mut jvm, "getMap", &[])
        .unwrap()
        .cast(&mut jvm, "java.util.Map")
        .unwrap()
        .invoke(&mut jvm, "size", &[])
        .unwrap()
        .to_rust(&mut jvm)
        .unwrap();

    assert!(size == 2);
}

#[test]
fn invoke_generic_method() {
    let mut jvm: Jvm = JvmBuilder::new().build().unwrap();

    // Create the MyTest instance
    let instance = jvm
        .create_instance("org.astonbitecode.j4rs.tests.MyTest", &[])
        .unwrap();

    // Retrieve the annotated Map
    let dummy_map = jvm.invoke(&instance, "getMap", &[]).unwrap();

    // Put a new Map entry
    let _ = jvm
        .invoke(
            &dummy_map,
            "put",
            &vec![InvocationArg::from("three"), InvocationArg::from(3)],
        )
        .unwrap();

    // Get the size of the new map and assert
    let size: isize = jvm
        .chain(dummy_map)
        .invoke(&mut jvm, "size", &[])
        .unwrap()
        .to_rust(&mut jvm)
        .unwrap();

    assert!(size == 3);
}

#[test]
fn invoke_method_with_primitive_args() {
    let mut jvm: Jvm = JvmBuilder::new().build().unwrap();

    // Test the primitives in constructors.
    // The constructor of Integer takes a primitive int as an argument.
    let ia = InvocationArg::from(1_i32).into_primitive().unwrap();
    let res1 = jvm.create_instance("java.lang.Integer", &[ia]);
    assert!(res1.is_ok());

    // Test the primitives in invocations.
    let ia1 = InvocationArg::from(1_i32);
    let ia2 = InvocationArg::from(1_i32);
    let test_instance = jvm
        .create_instance("org.astonbitecode.j4rs.tests.MyTest", &[])
        .unwrap();
    let res2 = jvm.invoke(
        &test_instance,
        "addInts",
        &[ia1.into_primitive().unwrap(), ia2.into_primitive().unwrap()],
    );
    assert!(res2.is_ok());
}

#[test]
fn to_tust_returns_list() {
    let mut jvm: Jvm = JvmBuilder::new().build().unwrap();
    let test_instance = jvm
        .create_instance("org.astonbitecode.j4rs.tests.MyTest", &[])
        .unwrap();
    let list_instance = jvm
        .invoke(&test_instance, "getNumbersUntil", &[InvocationArg::from(10_i32)])
        .unwrap();
    let vec: Vec<i32> = jvm.to_rust(list_instance).unwrap();
    assert!(vec.len() == 10)
}

use j4rs::callback::{CallbackEnvelope, RegistrationToken};
use j4rs::errors::ErrorKind;
use j4rs::{ClasspathEntry, Jvm};

#[test]
fn init_callback_channel() {
    let mut jvm: Jvm = j4rs::new_jvm(vec![ClasspathEntry::new("onemore.jar")], Vec::new()).unwrap();
    match jvm.create_instance("org.astonbitecode.j4rs.tests.MySecondTest", Vec::new().as_ref()) {
        Ok(i) => {
            let instance_receiver_res = jvm.init_callback_channel(&i);
            assert!(instance_receiver_res.is_ok());
            let instance_receiver = instance_receiver_res.unwrap();
            assert!(jvm.invoke(&i, "performCallback", &vec![]).is_ok());
            let res_chan = jvm.receive(&instance_receiver);
            let i = res_chan.unwrap();
            let res_to_rust = jvm.to_rust(i);
            assert!(res_to_rust.is_ok());
            let _: String = res_to_rust.unwrap();
        }
        Err(error) => {
            panic!("ERROR when creating Instance: {:?}", error);
        }
    }
}

#[test]
fn callback_to_channel() {
    let mut jvm: Jvm = j4rs::new_jvm(vec![ClasspathEntry::new("onemore.jar")], Vec::new()).unwrap();
    match jvm.create_instance("org.astonbitecode.j4rs.tests.MySecondTest", Vec::new().as_ref()) {
        Ok(i) => {
            let instance_receiver_res =
                jvm.invoke_to_channel(&i, "performCallback", Vec::new().as_ref());
            assert!(instance_receiver_res.is_ok());
            let instance_receiver = instance_receiver_res.unwrap();
            let res_chan = jvm.receive(&instance_receiver);
            let i = res_chan.unwrap();
            let res_to_rust = jvm.to_rust(i);
            assert!(res_to_rust.is_ok());
            let _: String = res_to_rust.unwrap();
        }
        Err(error) => {
            panic!("ERROR when creating Instance: {:?}", error);
        }
    }
}

#[test]
fn multiple_callbacks_to_channel() {
    let mut jvm: Jvm = j4rs::new_jvm(vec![ClasspathEntry::new("onemore.jar")], Vec::new()).unwrap();
    match jvm.create_instance("org.astonbitecode.j4rs.tests.MySecondTest", Vec::new().as_ref()) {
        Ok(i) => {
            let instance_receiver_res =
                jvm.invoke_to_channel(&i, "performTenCallbacks", Vec::new().as_ref());
            assert!(instance_receiver_res.is_ok());
            let instance_receiver = instance_receiver_res.unwrap();
            for _i in 0..10 {
                let res_chan = jvm.receive(&instance_receiver);
                let i = res_chan.unwrap();
                let res_to_rust = jvm.to_rust(i);
                assert!(res_to_rust.is_ok());
                let _: String = res_to_rust.unwrap();
            }
        }
        Err(error) => {
            panic!("ERROR when creating Instance: {:?}", error);
        }
    }
}

#[test]
fn multiple_callbacks_to_channel_from_multiple_threads() {
    let mut jvm: Jvm = j4rs::new_jvm(vec![ClasspathEntry::new("onemore.jar")], Vec::new()).unwrap();
    match jvm.create_instance("org.astonbitecode.j4rs.tests.MySecondTest", Vec::new().as_ref()) {
        Ok(i) => {
            let instance_receiver_res =
                jvm.invoke_to_channel(&i, "performCallbackFromTenThreads", Vec::new().as_ref());
            assert!(instance_receiver_res.is_ok());
            let instance_receiver = instance_receiver_res.unwrap();
            for _i in 0..10 {
                let res_chan = jvm.receive(&instance_receiver);
                let i = res_chan.unwrap();
                let res_to_rust = jvm.to_rust(i);
                assert!(res_to_rust.is_ok());
                let _: String = res_to_rust.unwrap();
            }
        }
        Err(error) => {
            panic!("ERROR when creating Instance:  {:?}", error);
        }
    }
}

#[test]
fn ten_calls_deliver_exactly_ten_envelopes() {
    let mut jvm: Jvm = j4rs::new_jvm(Vec::new(), Vec::new()).unwrap();
    let target = jvm
        .create_instance("org.astonbitecode.j4rs.tests.MySecondTest", &[])
        .unwrap();
    let receiver = jvm.init_callback_channel(&target).unwrap();
    for _ in 0..10 {
        assert!(jvm.invoke(&target, "performCallback", &[]).is_ok());
    }
    assert_eq!(jvm.pending(&receiver), 10);
    let mut received = 0;
    while let Some(envelope) = jvm.receive(&receiver) {
        let text: String = jvm.to_rust(envelope).unwrap();
        assert_eq!(text, "THIS IS FROM CALLBACK!");
        received += 1;
    }
    assert_eq!(received, 10);
    assert_eq!(jvm.pending(&receiver), 0);
    assert_eq!(jvm.lost_callbacks(), 0);
}

#[test]
fn envelopes_come_out_in_delivery_order() {
    let mut jvm: Jvm = j4rs::new_jvm(Vec::new(), Vec::new()).unwrap();
    let target = jvm
        .create_instance("org.astonbitecode.j4rs.tests.MySecondTest", &[])
        .unwrap();
    let receiver = jvm.init_callback_channel(&target).unwrap();
    let first = jvm.references();
    assert!(jvm.invoke(&target, "performTenCallbacks", &[]).is_ok());
    // The call's own result takes the first new reference, the callbacks the
    // ten that follow; each delivered handle can be told apart by being live.
    assert_eq!(jvm.references(), first + 11);
    let mut seen = 0;
    while let Some(envelope) = jvm.receive(&receiver) {
        assert!(jvm.is_live(&envelope));
        assert_eq!(envelope.class_name(), "java.lang.String");
        jvm.release(envelope).unwrap();
        seen += 1;
    }
    assert_eq!(seen, 10);
}

#[test]
fn callbacks_from_worker_threads_attach_them_to_stay() {
    let mut jvm: Jvm = j4rs::new_jvm(Vec::new(), Vec::new()).unwrap();
    let target = jvm
        .create_instance("org.astonbitecode.j4rs.tests.MySecondTest", &[])
        .unwrap();
    let _receiver = jvm
        .invoke_to_channel(&target, "performCallbackFromTenThreads", &[])
        .unwrap();
    for k in 0..10u64 {
        let worker = u64::MAX - k;
        assert!(jvm.is_attached(worker));
        jvm.thread_exit(worker);
        assert!(jvm.is_attached(worker));
    }
}

#[test]
fn callback_without_registration_is_counted_as_lost() {
    let mut jvm: Jvm = j4rs::new_jvm(Vec::new(), Vec::new()).unwrap();
    let target = jvm
        .create_instance("org.astonbitecode.j4rs.tests.MySecondTest", &[])
        .unwrap();
    assert!(jvm.invoke(&target, "performCallback", &[]).is_ok());
    assert_eq!(jvm.lost_callbacks(), 1);
}

#[test]
fn delivery_to_a_closed_channel_fails_with_channel_closed() {
    let mut jvm: Jvm = j4rs::new_jvm(Vec::new(), Vec::new()).unwrap();
    let target = jvm
        .create_instance("org.astonbitecode.j4rs.tests.MySecondTest", &[])
        .unwrap();
    let receiver = jvm.init_callback_channel(&target).unwrap();
    let token = receiver.token();
    jvm.close(receiver);
    // The managed thread 7 delivers the object 0 through the entry point.
    let refused = jvm.deliver(7, CallbackEnvelope { token, object: 0 }).unwrap_err();
    assert_eq!(refused.kind(), ErrorKind::ChannelClosed);
    // The failed delivery still left its thread attached, and it stays so.
    assert!(jvm.is_attached(7));
    // A call on the object goes through, and its callback is counted as lost.
    assert!(jvm.invoke(&target, "performCallback", &[]).is_ok());
    assert_eq!(jvm.lost_callbacks(), 1);
}

#[test]
fn delivery_to_an_unknown_capability_fails_with_channel_closed() {
    let mut jvm: Jvm = j4rs::new_jvm(Vec::new(), Vec::new()).unwrap();
    let object = jvm.create_instance("java.lang.Object", &[]).unwrap();
    assert!(jvm.is_live(&object));
    let unknown = RegistrationToken { address: 42 };
    let refused = jvm.deliver(7, CallbackEnvelope { token: unknown, object: 0 }).unwrap_err();
    assert_eq!(refused.kind(), ErrorKind::ChannelClosed);
}

#[test]
fn delivery_of_an_unknown_object_fails_with_null_result() {
    let mut jvm: Jvm = j4rs::new_jvm(Vec::new(), Vec::new()).unwrap();
    let target = jvm
        .create_instance("org.astonbitecode.j4rs.tests.MySecondTest", &[])
        .unwrap();
    let receiver = jvm.init_callback_channel(&target).unwrap();
    let refused = jvm.deliver(7, CallbackEnvelope { token: receiver.token(), object: 99 }).unwrap_err();
    assert_eq!(refused.kind(), ErrorKind::NullResult);
    assert_eq!(jvm.pending(&receiver), 0);
}

#[test]
fn delivery_after_shutdown_fails_with_runtime_unavailable() {
    let mut jvm: Jvm = j4rs::new_jvm(Vec::new(), Vec::new()).unwrap();
    let target = jvm
        .create_instance("org.astonbitecode.j4rs.tests.MySecondTest", &[])
        .unwrap();
    let receiver = jvm.init_callback_channel(&target).unwrap();
    jvm.shutdown();
    let refused = jvm.deliver(7, CallbackEnvelope { token: receiver.token(), object: 0 }).unwrap_err();
    assert_eq!(refused.kind(), ErrorKind::RuntimeUnavailable);
    assert!(!jvm.is_attached(7));
}

#[test]
fn channels_of_two_registrations_are_independent() {
    let mut jvm: Jvm = j4rs::new_jvm(Vec::new(), Vec::new()).unwrap();
    let a = jvm
        .create_instance("org.astonbitecode.j4rs.tests.MySecondTest", &[])
        .unwrap();
    let b = jvm
        .create_instance("org.astonbitecode.j4rs.tests.MySecondTest", &[])
        .unwrap();
    let rx_a = jvm.init_callback_channel(&a).unwrap();
    let rx_b = jvm.init_callback_channel(&b).unwrap();
    assert!(rx_a.token() != rx_b.token());
    assert!(jvm.invoke(&a, "performTenCallbacks", &[]).is_ok());
    assert!(jvm.invoke(&b, "performCallback", &[]).is_ok());
    assert_eq!(jvm.pending(&rx_a), 10);
    assert_eq!(jvm.pending(&rx_b), 1);
}

#[test]
fn the_entry_point_delivers_an_existing_object() {
    let mut jvm: Jvm = j4rs::new_jvm(Vec::new(), Vec::new()).unwrap();
    let target = jvm
        .create_instance("org.astonbitecode.j4rs.tests.MySecondTest", &[])
        .unwrap();
    let _text = jvm
        .create_instance("java.lang.String", &[j4rs::InvocationArg::from("delivered")])
        .unwrap();
    let receiver = jvm.init_callback_channel(&target).unwrap();
    // The string is the second object the runtime created.
    let envelope = CallbackEnvelope { token: receiver.token(), object: 1 };
    assert!(jvm.deliver(9, envelope).is_ok());
    assert!(jvm.deliver(9, envelope).is_ok());
    assert_eq!(jvm.pending(&receiver), 2);
    let first = jvm.receive(&receiver).unwrap();
    let second = jvm.receive(&receiver).unwrap();
    assert!(jvm.receive(&receiver).is_none());
    assert_eq!(jvm.to_rust::<String>(first).unwrap(), "delivered");
    assert_eq!(jvm.to_rust::<String>(second).unwrap(), "delivered");
}

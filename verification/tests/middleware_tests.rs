use udp_cluster::client::ClientMessage;
use udp_cluster::message::{encode_message, Message, WireError, OP_ANNOUNCE};
use udp_cluster::middleware::{
    apply_announcement, local_reference, middleware_reference, operation_result, read_reply,
    RoundRobin,
};
use udp_cluster::states::ServerStates;

#[test]
fn local_reference_is_ip_and_port() {
    assert_eq!(local_reference("10.0.0.5", 7676), "10.0.0.5:7676");
    assert_eq!(local_reference("::1", 0), "::1:0");
}

#[test]
fn middleware_reference_ends_with_port() {
    if let Some(r) = middleware_reference(4242) {
        assert!(r.ends_with(":4242"));
        assert!(r.len() > ":4242".len());
    }
}

#[test]
fn round_robin_cycles() {
    let states = ServerStates::all_up();
    let mut rr = RoundRobin::new();
    let mut targets = vec![];
    for k in 0..4 {
        let m = rr.prepare(&states, "c:1");
        assert_eq!(m.m_ID, format!("c:1:{}", k));
        assert_eq!(m.local_Ref, "c:1");
        assert_eq!(m.op_Id, 0);
        assert!(m.op_Arg.is_empty());
        targets.push(m.remote_Ref.clone());
        let req = ClientMessage { thread_id: 1, message_id: k, duration: 0 };
        assert_eq!(rr.finish(1, req), req);
    }
    assert_eq!(
        targets,
        vec!["10.7.57.90:8080", "10.7.57.90:8081", "10.7.57.90:8082", "10.7.57.90:8080"]
    );
}

#[test]
fn round_robin_steps_over_down_server() {
    let mut states = ServerStates::all_up();
    states.set(0, false);
    let mut rr = RoundRobin::new();
    let m = rr.prepare(&states, "c:1");
    assert_eq!(m.remote_Ref, "10.7.57.90:8081");
    let req = ClientMessage { thread_id: 2, message_id: 9, duration: 5 };
    let back = rr.finish(0, req);
    assert_eq!(back.message_id, -1);
    assert_eq!(back.thread_id, 2);
    assert_eq!(rr.cur_server, 2);
    assert_eq!(rr.request_id, 1);
}

#[test]
fn reply_reading() {
    assert!(matches!(read_reply(0, &[1, 2, 3]), Ok(None)));
    assert_eq!(read_reply(3, &[1, 2, 3]).err(), Some(WireError::Malformed));
    let m = Message {
        m_Type: 1,
        m_ID: "id".to_string(),
        remote_Ref: String::new(),
        local_Ref: String::new(),
        op_Id: 0,
        op_Arg: b"hello from server".to_vec(),
    };
    let bytes = encode_message(&m);
    let reply = read_reply(bytes.len(), &bytes).unwrap().unwrap();
    assert_eq!(reply.m_ID, "id");
    let (flag, arg) = operation_result(Some(reply));
    assert_eq!(flag, 1);
    assert_eq!(arg, b"hello from server".to_vec());
    let (flag, arg) = operation_result(None);
    assert_eq!(flag, 0);
    assert!(arg.is_empty());
}

#[test]
fn announcement_marks_server_down() {
    let mut states = ServerStates::all_up();
    let ann = Message {
        m_Type: 0,
        m_ID: String::new(),
        remote_Ref: String::new(),
        local_Ref: String::new(),
        op_Id: OP_ANNOUNCE,
        op_Arg: vec![2],
    };
    apply_announcement(&mut states, &ann);
    assert!(!states.is_up(2));
    assert!(states.is_up(0));
    let other = Message { op_Id: 0, ..ann };
    apply_announcement(&mut states, &other);
    assert!(!states.is_up(2));
}

use udp_cluster::election::{
    choose_winner, election_attempt, election_start, election_step, handle_elect, should_start_election,
    try_start_election, ElectAction,
};
use udp_cluster::message::{Message, OP_ANNOUNCE, OP_ELECT};

fn elect_msg(arg: Vec<u8>) -> Message {
    Message {
        m_Type: 0,
        m_ID: String::new(),
        remote_Ref: String::new(),
        local_Ref: "10.7.57.90:8081".to_string(),
        op_Id: OP_ELECT,
        op_Arg: arg,
    }
}

#[test]
fn winner_is_highest_priority() {
    assert_eq!(choose_winner(&vec![0, 5, 1, 9, 2, 3]), (1, 9));
}

#[test]
fn winner_tie_goes_to_first() {
    assert_eq!(choose_winner(&vec![2, 9, 0, 9, 1, 4]), (2, 9));
}

#[test]
fn winner_with_zero_priorities_is_zero() {
    assert_eq!(choose_winner(&vec![2, 0, 1, 0]), (0, 0));
    assert_eq!(choose_winner(&vec![]), (0, 0));
}

#[test]
fn winner_ignores_odd_trailing_byte() {
    assert_eq!(choose_winner(&vec![1, 4, 2, 200]), (2, 200));
    assert_eq!(choose_winner(&vec![1, 4, 2]), (1, 4));
}

#[test]
fn initiator_announces() {
    match election_step(elect_msg(vec![1, 3, 2, 7, 0, 4]), 1, 99) {
        ElectAction::Announce { message, destinations } => {
            assert_eq!(message.op_Id, OP_ANNOUNCE);
            assert_eq!(message.op_Arg, vec![2]);
            assert_eq!(message.m_Type, 0);
            assert_eq!(message.m_ID, "");
            assert_eq!(message.local_Ref, "10.7.57.90:8081");
            assert_eq!(
                destinations,
                vec![
                    "10.7.57.90:8080".to_string(),
                    "10.7.57.90:8081".to_string(),
                    "10.7.57.90:8082".to_string(),
                    "10.7.57.41:8080".to_string(),
                    "10.7.57.41:8081".to_string(),
                ]
            );
        }
        ElectAction::Forward { .. } => panic!("expected an announcement"),
    }
}

#[test]
fn other_server_forwards() {
    match election_step(elect_msg(vec![1, 3]), 2, 42) {
        ElectAction::Forward { message, destination } => {
            assert_eq!(message.op_Arg, vec![1, 3, 2, 42]);
            assert_eq!(message.op_Id, OP_ELECT);
            assert_eq!(message.local_Ref, "10.7.57.90:8081");
            assert_eq!(destination, "10.7.57.90:8080");
        }
        ElectAction::Announce { .. } => panic!("expected a forward"),
    }
}

#[test]
fn handle_elect_forwards_with_own_id() {
    match handle_elect(elect_msg(vec![0, 3]), 1) {
        ElectAction::Forward { message, destination } => {
            assert_eq!(message.op_Arg.len(), 4);
            assert_eq!(&message.op_Arg[..3], &[0, 3, 1]);
            assert_eq!(destination, "10.7.57.90:8082");
        }
        ElectAction::Announce { .. } => panic!("expected a forward"),
    }
}

#[test]
fn full_round_announces_best() {
    let (start, dest) = election_start(1, 10);
    assert_eq!(dest, "10.7.57.90:8082");
    let step2 = match election_step(start, 2, 30) {
        ElectAction::Forward { message, destination } => {
            assert_eq!(destination, "10.7.57.90:8080");
            message
        }
        _ => panic!("expected a forward"),
    };
    let step0 = match election_step(step2, 0, 20) {
        ElectAction::Forward { message, destination } => {
            assert_eq!(destination, "10.7.57.90:8081");
            message
        }
        _ => panic!("expected a forward"),
    };
    assert_eq!(step0.op_Arg, vec![1, 10, 2, 30, 0, 20]);
    match election_step(step0, 1, 0) {
        ElectAction::Announce { message, .. } => assert_eq!(message.op_Arg, vec![2]),
        _ => panic!("expected an announcement"),
    }
}

#[test]
fn start_probability() {
    assert!(should_start_election(0));
    assert!(should_start_election(40));
    assert!(!should_start_election(41));
    assert!(!should_start_election(19));
}

#[test]
fn start_message() {
    let (m, dest) = election_start(2, 9);
    assert_eq!(m.op_Id, OP_ELECT);
    assert_eq!(m.op_Arg, vec![2, 9]);
    assert_eq!(m.local_Ref, "10.7.57.90:8082");
    assert_eq!(dest, "10.7.57.90:8080");
}

#[test]
fn try_start_election_shape() {
    for _ in 0..200 {
        if let Some((m, dest)) = try_start_election(0) {
            assert_eq!(m.op_Arg.len(), 2);
            assert_eq!(m.op_Arg[0], 0);
            assert_eq!(dest, "10.7.57.90:8081");
        }
    }
}

#[test]
fn attempt_follows_the_draw() {
    assert!(election_attempt(1, 41, 5).is_none());
    let (m, dest) = election_attempt(1, 60, 5).unwrap();
    assert_eq!(m.op_Arg, vec![1, 5]);
    assert_eq!(m.op_Id, OP_ELECT);
    assert_eq!(dest, "10.7.57.90:8082");
}

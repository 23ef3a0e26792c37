use udp::stack::{SocketStack, LOCAL_PORT_MAX, LOCAL_PORT_MIN};

#[test]
fn dynamic_ports_count_up() {
    let mut stack = SocketStack::new(40000);
    assert_eq!(stack.get_local_port(), 40000);
    assert_eq!(stack.get_local_port(), 40001);
    assert_eq!(stack.get_local_port(), 40002);
}

#[test]
fn dynamic_ports_start_over_after_the_last() {
    let mut stack = SocketStack::new(65534);
    assert_eq!(stack.get_local_port(), 65534);
    assert_eq!(stack.get_local_port(), 65535);
    assert_eq!(stack.get_local_port(), 1025);
    assert_eq!(stack.get_local_port(), 1026);
}

#[test]
fn every_dynamic_port_comes_once_in_a_round() {
    let mut stack = SocketStack::new(30000);
    let round = (LOCAL_PORT_MAX - LOCAL_PORT_MIN) as usize + 1;
    let mut seen = vec![false; 65536];
    for _ in 0..round {
        let port = stack.get_local_port();
        assert!(port >= LOCAL_PORT_MIN);
        assert!(!seen[port as usize]);
        seen[port as usize] = true;
    }
    assert_eq!(stack.get_local_port(), 30000);
}

#[test]
fn a_new_stack_has_no_sockets() {
    let mut stack = SocketStack::new(1025);
    assert_eq!(stack.sockets.iter().count(), 0);
    assert!(!stack.take_wake());
}

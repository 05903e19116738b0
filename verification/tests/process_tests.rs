use cwal_core::scr_events::ScrEvent;
use cwal_core::scr_process::find_starcraft_api_port;
use cwal_core::scr_process::poll_event;
use cwal_core::scr_process::SocketRecord;

fn sock(is_tcp: bool, is_listen: bool, pids: Vec<u32>, local_port: u16) -> SocketRecord {
    SocketRecord { is_tcp, is_listen, pids, local_port }
}

#[test]
fn process_without_listen_socket_is_service_down() {
    let sockets = vec![
        sock(true, false, vec![77], 6112),
        sock(false, true, vec![77], 6113),
        sock(true, true, vec![99], 6114),
    ];
    assert!(matches!(poll_event(Some(77), &sockets), ScrEvent::WebServerDown));
}

#[test]
fn first_matching_port_in_enumeration_order_wins() {
    let sockets = vec![
        sock(true, true, vec![99], 1000),
        sock(true, true, vec![77, 99], 2000),
        sock(true, true, vec![77], 3000),
    ];
    assert_eq!(find_starcraft_api_port(77, &sockets), Some(2000));
}

#[test]
fn listening_socket_reports_service_up_with_its_port() {
    let sockets = vec![sock(true, true, vec![77], 6112)];
    match poll_event(Some(77), &sockets) {
        ScrEvent::WebServerRunning { port } => assert_eq!(port, 6112),
        other => panic!("expected WebServerRunning, got {:?}", other),
    }
}

#[test]
fn absent_process_is_service_down() {
    let sockets = vec![sock(true, true, vec![77], 6112)];
    assert!(matches!(poll_event(None, &sockets), ScrEvent::WebServerDown));
}

#[test]
fn udp_sockets_are_ignored() {
    let sockets = vec![sock(false, true, vec![77], 6112)];
    assert_eq!(find_starcraft_api_port(77, &sockets), None);
}

#[test]
fn empty_socket_table_finds_no_port() {
    let sockets: Vec<SocketRecord> = Vec::new();
    assert_eq!(find_starcraft_api_port(77, &sockets), None);
}

use kube_tunnel::forwarding::{process_socket, IoOp, Relay, RelayEvent, CHUNK, E};
use kube_tunnel::shutdown::{first_notice, Notice, ShutdownSignal};

/// Bytes that look random and are the same in every run.
fn payload(len: usize, seed: u32) -> Vec<u8> {
    let mut state: u32 = seed;
    let mut bytes: Vec<u8> = Vec::with_capacity(len);
    for _ in 0..len {
        state = state.wrapping_mul(1664525).wrapping_add(1013904223);
        bytes.push((state >> 24) as u8);
    }
    bytes
}

#[test]
fn relay_starts_selecting() {
    assert_eq!(Relay::new(), Relay::Selecting);
    assert_eq!(Relay::new().outcome(), None);
}

#[test]
fn bytes_from_client_are_to_be_written_to_pod() {
    let relay = process_socket(Relay::new(), RelayEvent::ClientRead(&[1, 2, 3]));
    assert_eq!(relay, Relay::WritingKube(vec![1, 2, 3]));
    let relay = process_socket(relay, RelayEvent::KubeWritten(true));
    assert_eq!(relay, Relay::Selecting);
}

#[test]
fn bytes_from_pod_are_to_be_written_to_client() {
    let relay = process_socket(Relay::new(), RelayEvent::KubeRead(&[9, 8]));
    assert_eq!(relay, Relay::WritingClient(vec![9, 8]));
    let relay = process_socket(relay, RelayEvent::ClientWritten(true));
    assert_eq!(relay, Relay::Selecting);
}

#[test]
fn client_close_ends_with_client_socket_closed() {
    let relay = process_socket(Relay::new(), RelayEvent::ClientRead(&[]));
    assert_eq!(relay, Relay::Finished(E::ClientSocketClosed));
    assert_eq!(relay.outcome(), Some(E::ClientSocketClosed));
}

#[test]
fn pod_close_ends_with_kube_socket_closed() {
    let relay = process_socket(Relay::new(), RelayEvent::KubeRead(&[]));
    assert_eq!(relay, Relay::Finished(E::KubeSocketClosed));
}

#[test]
fn client_read_error_ends_with_client_socket_err() {
    let relay = process_socket(Relay::new(), RelayEvent::ClientReadFailed);
    assert_eq!(relay, Relay::Finished(E::ClientSocketErr(IoOp::Read)));
}

#[test]
fn pod_read_error_ends_with_kube_socket_err() {
    let relay = process_socket(Relay::new(), RelayEvent::KubeReadFailed);
    assert_eq!(relay, Relay::Finished(E::KubeSocketErr(IoOp::Read)));
}

#[test]
fn failed_write_to_pod_ends_with_kube_socket_err() {
    let relay = process_socket(Relay::new(), RelayEvent::ClientRead(&[1]));
    let relay = process_socket(relay, RelayEvent::KubeWritten(false));
    assert_eq!(relay, Relay::Finished(E::KubeSocketErr(IoOp::Write)));
}

#[test]
fn failed_write_to_client_ends_with_client_socket_err() {
    let relay = process_socket(Relay::new(), RelayEvent::KubeRead(&[1]));
    let relay = process_socket(relay, RelayEvent::ClientWritten(false));
    assert_eq!(relay, Relay::Finished(E::ClientSocketErr(IoOp::Write)));
}

#[test]
fn stop_ends_with_exit() {
    let relay = process_socket(Relay::new(), RelayEvent::Shutdown(Notice::Value(true)));
    assert_eq!(relay, Relay::Finished(E::Exit));
}

#[test]
fn lost_controller_ends_with_exit() {
    let relay = process_socket(Relay::new(), RelayEvent::Shutdown(Notice::Closed));
    assert_eq!(relay, Relay::Finished(E::Exit));
}

#[test]
fn flag_written_as_running_does_not_end_the_relay() {
    let relay = process_socket(Relay::new(), RelayEvent::Shutdown(Notice::Value(false)));
    assert_eq!(relay, Relay::Selecting);
}

#[test]
fn stop_after_traffic_ends_with_exit() {
    let relay = process_socket(Relay::new(), RelayEvent::ClientRead(&[1, 2]));
    let relay = process_socket(relay, RelayEvent::KubeWritten(true));
    let relay = process_socket(relay, RelayEvent::KubeRead(&[3]));
    let relay = process_socket(relay, RelayEvent::ClientWritten(true));
    let relay = process_socket(relay, RelayEvent::Shutdown(Notice::Value(true)));
    assert_eq!(relay, Relay::Finished(E::Exit));
}

#[test]
fn write_in_progress_is_not_cut_short() {
    let relay = process_socket(Relay::new(), RelayEvent::ClientRead(&[1, 2]));
    let relay = process_socket(relay, RelayEvent::Shutdown(Notice::Value(true)));
    assert_eq!(relay, Relay::WritingKube(vec![1, 2]));
    let relay = process_socket(relay, RelayEvent::KubeRead(&[7]));
    assert_eq!(relay, Relay::WritingKube(vec![1, 2]));
    let relay = process_socket(relay, RelayEvent::ClientWritten(true));
    assert_eq!(relay, Relay::WritingKube(vec![1, 2]));
}

#[test]
fn write_report_without_a_write_is_passed_over() {
    let relay = process_socket(Relay::new(), RelayEvent::KubeWritten(false));
    assert_eq!(relay, Relay::Selecting);
    let relay = process_socket(relay, RelayEvent::ClientWritten(false));
    assert_eq!(relay, Relay::Selecting);
}

#[test]
fn finished_relay_does_not_start_again() {
    let outcomes = [
        E::ClientSocketClosed,
        E::KubeSocketClosed,
        E::ClientSocketErr(IoOp::Read),
        E::ClientSocketErr(IoOp::Write),
        E::KubeSocketErr(IoOp::Read),
        E::KubeSocketErr(IoOp::Write),
        E::Exit,
    ];
    for e in outcomes {
        let events = [
            RelayEvent::ClientRead(&[1]),
            RelayEvent::ClientRead(&[]),
            RelayEvent::ClientReadFailed,
            RelayEvent::KubeRead(&[1]),
            RelayEvent::KubeRead(&[]),
            RelayEvent::KubeReadFailed,
            RelayEvent::Shutdown(Notice::Value(true)),
            RelayEvent::Shutdown(Notice::Value(false)),
            RelayEvent::KubeWritten(true),
            RelayEvent::ClientWritten(false),
        ];
        for event in events {
            assert_eq!(process_socket(Relay::Finished(e), event), Relay::Finished(e));
        }
    }
}

/// Runs a relay over two payloads that arrive in chunks, the two ways
/// interleaved, and returns what it asked to write each way and how it ended.
fn relay_both_ways(up: &[u8], down: &[u8], chunk: usize) -> (Vec<u8>, Vec<u8>, Relay) {
    let mut to_pod: Vec<u8> = Vec::new();
    let mut to_client: Vec<u8> = Vec::new();
    let mut relay = Relay::new();
    let mut sent_up: usize = 0;
    let mut sent_down: usize = 0;
    let mut turn: usize = 0;
    while sent_up < up.len() || sent_down < down.len() {
        let upward = sent_down >= down.len() || (sent_up < up.len() && turn % 3 != 0);
        turn += 1;
        if upward {
            let end = usize::min(sent_up + chunk, up.len());
            relay = process_socket(relay, RelayEvent::ClientRead(&up[sent_up..end]));
            sent_up = end;
        } else {
            let end = usize::min(sent_down + chunk, down.len());
            relay = process_socket(relay, RelayEvent::KubeRead(&down[sent_down..end]));
            sent_down = end;
        }
        relay = match relay {
            Relay::WritingKube(bytes) => {
                to_pod.extend_from_slice(&bytes);
                process_socket(Relay::WritingKube(bytes), RelayEvent::KubeWritten(true))
            }
            Relay::WritingClient(bytes) => {
                to_client.extend_from_slice(&bytes);
                process_socket(Relay::WritingClient(bytes), RelayEvent::ClientWritten(true))
            }
            other => panic!("the relay has nothing to write: {:?}", other),
        };
        assert_eq!(relay, Relay::Selecting);
    }
    (to_pod, to_client, relay)
}

#[test]
fn ten_kilobytes_each_way_arrive_unchanged() {
    let up = payload(10 * 1024, 1);
    let down = payload(10 * 1024, 2);
    let (to_pod, to_client, relay) = relay_both_ways(&up, &down, 1024);
    assert_eq!(to_pod, up);
    assert_eq!(to_client, down);
    let relay = process_socket(relay, RelayEvent::ClientRead(&[]));
    assert_eq!(relay, Relay::Finished(E::ClientSocketClosed));
}

#[test]
fn odd_chunks_arrive_unchanged() {
    let up = payload(10 * 1024 + 5, 3);
    let down = payload(777, 4);
    let (to_pod, to_client, _) = relay_both_ways(&up, &down, 333);
    assert_eq!(to_pod, up);
    assert_eq!(to_client, down);
}

#[test]
fn full_buffer_is_relayed_whole() {
    let chunk = payload(1024, 5);
    let relay = process_socket(Relay::new(), RelayEvent::ClientRead(&chunk));
    assert_eq!(relay, Relay::WritingKube(chunk));
}

#[test]
fn a_read_asks_for_a_kilobyte() {
    assert_eq!(CHUNK, 1024);
}

#[test]
fn stop_before_the_start_ends_with_exit() {
    let mut signal = ShutdownSignal::new();
    signal.signal_stop();
    let reader = signal.observe();
    let relay = process_socket(Relay::new(), RelayEvent::Shutdown(first_notice(&reader)));
    assert_eq!(relay, Relay::Finished(E::Exit));
}

#[test]
fn no_stop_before_the_start_lets_the_relay_wait() {
    let signal = ShutdownSignal::new();
    let reader = signal.observe();
    let relay = process_socket(Relay::new(), RelayEvent::Shutdown(first_notice(&reader)));
    assert_eq!(relay, Relay::Selecting);
}

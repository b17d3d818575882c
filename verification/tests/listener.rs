use kube_tunnel::config::{Config, InnerConfig};
use kube_tunnel::listener::{bind_addr, BindAddr, Listener, ListenerEvent, Loopback};
use kube_tunnel::shutdown::Notice;

#[test]
fn hosts_are_the_two_loopback_addresses() {
    assert_eq!(Loopback::V6.host(), "::1");
    assert_eq!(Loopback::V4.host(), "127.0.0.1");
}

#[test]
fn forward_listens_on_its_local_port_in_both_families() {
    let config = Config::from(InnerConfig {
        context: "dev".to_string(),
        pod: "db-0".to_string(),
        namespace: "data".to_string(),
        pod_port: 5432,
        local_port: 15432,
    });
    assert_eq!(
        bind_addr(&config, Loopback::V6),
        BindAddr { family: Loopback::V6, port: 15432 }
    );
    assert_eq!(
        bind_addr(&config, Loopback::V4),
        BindAddr { family: Loopback::V4, port: 15432 }
    );
}

#[test]
fn listener_starts_accepting() {
    assert_eq!(Listener::new(), Listener::Accepting);
}

#[test]
fn accepted_client_is_dispatched_and_accepting_goes_on() {
    let listener = Listener::new().step(ListenerEvent::Accepted { nodelay: true });
    assert_eq!(listener, Listener::Dispatching);
    let listener = listener.step(ListenerEvent::Dispatched);
    assert_eq!(listener, Listener::Accepting);
}

#[test]
fn failed_accept_is_passed_over() {
    let listener = Listener::new().step(ListenerEvent::AcceptFailed);
    assert_eq!(listener, Listener::Accepting);
}

#[test]
fn client_whose_socket_cannot_be_configured_is_dropped() {
    let listener = Listener::new().step(ListenerEvent::Accepted { nodelay: false });
    assert_eq!(listener, Listener::Accepting);
}

#[test]
fn stop_ends_the_accept_loop() {
    let listener = Listener::new().step(ListenerEvent::Shutdown(Notice::Value(true)));
    assert_eq!(listener, Listener::Stopped);
    let listener = Listener::new().step(ListenerEvent::Shutdown(Notice::Closed));
    assert_eq!(listener, Listener::Stopped);
}

#[test]
fn flag_written_as_running_keeps_accepting() {
    let listener = Listener::new().step(ListenerEvent::Shutdown(Notice::Value(false)));
    assert_eq!(listener, Listener::Accepting);
}

#[test]
fn stopped_listener_accepts_nobody() {
    let events = [
        ListenerEvent::Accepted { nodelay: true },
        ListenerEvent::Accepted { nodelay: false },
        ListenerEvent::AcceptFailed,
        ListenerEvent::Dispatched,
        ListenerEvent::Shutdown(Notice::Value(false)),
        ListenerEvent::Shutdown(Notice::Value(true)),
    ];
    for event in events {
        assert_eq!(Listener::Stopped.step(event), Listener::Stopped);
    }
}

#[test]
fn dispatch_is_not_raced_against_shutdown() {
    let listener = Listener::Dispatching.step(ListenerEvent::Shutdown(Notice::Value(true)));
    assert_eq!(listener, Listener::Dispatching);
    let listener = listener.step(ListenerEvent::Accepted { nodelay: true });
    assert_eq!(listener, Listener::Dispatching);
    let listener = listener.step(ListenerEvent::Dispatched);
    assert_eq!(listener, Listener::Accepting);
    let listener = listener.step(ListenerEvent::Shutdown(Notice::Value(true)));
    assert_eq!(listener, Listener::Stopped);
}

#[test]
fn every_accepted_client_is_dispatched_once() {
    let mut listener = Listener::new();
    let mut dispatched: u32 = 0;
    let arrivals = [true, false, true, true, false, true];
    for nodelay in arrivals {
        listener = listener.step(ListenerEvent::Accepted { nodelay });
        if listener == Listener::Dispatching {
            dispatched += 1;
            listener = listener.step(ListenerEvent::Dispatched);
        }
        assert_eq!(listener, Listener::Accepting);
    }
    assert_eq!(dispatched, 4);
}

use kobo_server::{Lifecycle, Phase};

#[test]
fn start_run_and_shut_down_twice() {
    let mut lifecycle: Lifecycle<(u8, u16), &str> = Lifecycle::new();
    assert!(lifecycle.address().is_none());
    assert!(lifecycle.begin_start());
    assert!(!lifecycle.begin_start());
    assert!(lifecycle.start_succeeded((0u8, 40123), "server").is_none());
    assert!(lifecycle.is_running());
    let address = lifecycle.address().expect("running server has an address");
    assert_ne!(address.1, 0);
    assert_eq!(lifecycle.begin_shutdown(), Some("server"));
    assert!(lifecycle.address().is_none());
    lifecycle.finish_shutdown();
    assert!(matches!(lifecycle.phase, Phase::Stopped));
    assert_eq!(lifecycle.begin_shutdown(), None);
    assert!(matches!(lifecycle.phase, Phase::Stopped));
    assert!(lifecycle.is_shutdown_requested());
}

#[test]
fn shutdown_succeeds_without_starting() {
    let mut lifecycle: Lifecycle<u16, ()> = Lifecycle::new();
    assert_eq!(lifecycle.begin_shutdown(), None);
    assert_eq!(lifecycle.begin_shutdown(), None);
    assert!(matches!(lifecycle.phase, Phase::Unstarted));
    assert!(lifecycle.is_shutdown_requested());
}

#[test]
fn shutdown_while_starting_stops_the_server_once_it_runs() {
    let mut lifecycle: Lifecycle<u16, u32> = Lifecycle::new();
    assert!(lifecycle.begin_start());
    assert_eq!(lifecycle.begin_shutdown(), None);
    assert!(lifecycle.start_succeeded(8080, 7).is_none());
    assert!(lifecycle.is_shutdown_requested());
    assert_eq!(lifecycle.begin_shutdown(), Some(7));
}

#[test]
fn failed_start_stops_and_hands_back_late_servers() {
    let mut lifecycle: Lifecycle<u16, u32> = Lifecycle::new();
    assert!(lifecycle.begin_start());
    lifecycle.start_failed();
    assert!(matches!(lifecycle.phase, Phase::Stopped));
    assert_eq!(lifecycle.start_succeeded(1, 9), Some(9));
    assert!(lifecycle.address().is_none());
}

use stream_ripper::stream_handler::PollEvent;
use stream_ripper::stream_handler::StreamHandler;
use stream_ripper::stream_manager::StreamManager;

#[test]
fn test_handler_start_args() {
    let handler = StreamHandler::new(
        String::from("rec --url {url} --name {source}"),
        String::from("https://example.org/chan"),
    );
    let args = handler.start_args();
    assert_eq!(
        args,
        ["rec", "--url", "https://example.org/chan", "--name", "chan"]
    );
}

#[test]
fn test_handler_terminate_twice() {
    let mut handler = StreamHandler::new(String::from("rec {url}"), String::from("u"));
    assert_eq!(handler.terminate(), None);
    handler.record_started(7, 1000);
    assert_eq!(handler.process_handle(), Some(7));
    assert_eq!(handler.terminate(), Some(7));
    assert_eq!(handler.terminate(), None);
    assert_eq!(handler.process_handle(), None);
}

#[test]
fn test_handler_restart_policy() {
    let mut handler = StreamHandler::new(String::from("rec {url}"), String::from("u"));
    handler.record_started(1, 0);
    assert!(!handler.on_poll(PollEvent::StillRunning));
    assert_eq!(handler.process_handle(), Some(1));
    assert!(handler.on_poll(PollEvent::Exited));
    assert_eq!(handler.process_handle(), None);
    handler.record_started(2, 5);
    assert!(handler.on_poll(PollEvent::PollError));
}

#[test]
fn test_manager_new_idle() {
    let manager = StreamManager::new(
        vec![String::from("https://example.org/a"), String::from("https://example.org/b")],
        String::from("rec {url}"),
    );
    assert_eq!(manager.handler_count(), 2);
    assert!(!manager.ripping());
}

#[test]
fn test_manager_restart_cycle() {
    let mut manager = StreamManager::new(
        vec![String::from("https://example.org/a"), String::from("https://example.org/b")],
        String::from("rec --url {url}"),
    );
    manager.set_ripping(true);
    manager.record_started(0, 10, 0);
    manager.record_started(1, 11, 0);

    let events = vec![PollEvent::Exited, PollEvent::StillRunning];
    let restarts = manager.run_cycle(&events);
    assert_eq!(restarts, [0]);
    assert!(manager.ripping(), "a poll pass must leave the flag alone");

    let args = manager.start_args(0);
    assert_eq!(args[0], "rec");
    manager.record_started(0, 12, 1);

    let events = vec![PollEvent::StillRunning, PollEvent::StillRunning];
    let restarts = manager.run_cycle(&events);
    assert!(restarts.is_empty());
}

#[test]
fn test_manager_shutdown() {
    let mut manager = StreamManager::new(
        vec![String::from("https://example.org/a"), String::from("https://example.org/b")],
        String::from("rec {url}"),
    );
    manager.set_ripping(true);
    manager.record_started(0, 21, 0);
    manager.record_started(1, 22, 0);

    manager.set_ripping(false);
    let events = vec![PollEvent::Exited, PollEvent::Exited];
    let restarts = manager.run_cycle(&events);
    assert!(restarts.is_empty(), "no spawns once the flag is down");

    let kills = manager.stop();
    assert_eq!(kills, [21, 22]);
    let kills_again = manager.stop();
    assert!(kills_again.is_empty(), "stop is idempotent");
}

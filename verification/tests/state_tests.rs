use voxygen::client_init::{ClientInit, Error};
use voxygen::msg::ClientState;
use voxygen::playstate::{
    apply_play_state_result, AudioFrontend, Direction, GlobalState, PlayStateResult, Settings,
    Window,
};

fn fresh_global() -> GlobalState {
    GlobalState {
        settings: Settings {},
        window: Window { cursor_grabbed: true, needs_refresh_resize: false },
        audio: AudioFrontend {},
    }
}

/// Push stacks a new state, reports forwards, and resets the window.
#[test]
fn push_stacks_state() {
    let mut states: Vec<u32> = vec![1];
    let mut global = fresh_global();
    let dir = apply_play_state_result(&mut states, &mut global, PlayStateResult::Push(2));
    assert!(matches!(dir, Direction::Forwards));
    assert_eq!(states, vec![1, 2]);
    assert!(!global.window.cursor_grabbed);
    assert!(global.window.needs_refresh_resize);
}

/// Pop closes the top state and reports backwards; on an empty stack it
/// changes nothing.
#[test]
fn pop_closes_top_state() {
    let mut states: Vec<u32> = vec![1, 2];
    let mut global = fresh_global();
    let dir = apply_play_state_result(&mut states, &mut global, PlayStateResult::Pop);
    assert!(matches!(dir, Direction::Backwards));
    assert_eq!(states, vec![1]);

    let mut empty: Vec<u32> = vec![];
    let mut global = fresh_global();
    apply_play_state_result(&mut empty, &mut global, PlayStateResult::Pop);
    assert_eq!(empty, Vec::<u32>::new());
    assert!(global.window.cursor_grabbed);
}

/// Switch replaces the top state in place.
#[test]
fn switch_replaces_top_state() {
    let mut states: Vec<u32> = vec![1, 2];
    let mut global = fresh_global();
    let dir = apply_play_state_result(&mut states, &mut global, PlayStateResult::Switch(9));
    assert!(matches!(dir, Direction::Forwards));
    assert_eq!(states, vec![1, 9]);
}

/// Shutdown pops everything in reverse order.
#[test]
fn shutdown_clears_stack() {
    let mut states: Vec<u32> = vec![1, 2, 3];
    let mut global = fresh_global();
    let dir = apply_play_state_result(&mut states, &mut global, PlayStateResult::Shutdown);
    assert!(matches!(dir, Direction::Backwards));
    assert!(states.is_empty());
    assert!(!global.window.cursor_grabbed);
}

/// Client protocol states are plain values.
#[test]
fn client_state_values() {
    assert_eq!(ClientState::Pending, ClientState::Pending);
    assert_ne!(ClientState::Dead, ClientState::Character);
}

/// Polling the connection channel: silence while the worker runs, the
/// outcome once sent, and a crash report once the worker is gone.
#[test]
fn client_init_poll() {
    let (tx, rx) = std::sync::mpsc::channel::<Result<u32, Error>>();
    let init = ClientInit::new(rx);
    assert_eq!(init.poll(), None);
    tx.send(Ok(7)).unwrap();
    assert_eq!(init.poll(), Some(Ok(7)));
    assert_eq!(init.poll(), None);
    drop(tx);
    assert_eq!(init.poll(), Some(Err(Error::ClientCrashed)));
}

/// A failed connection outcome is handed through unchanged.
#[test]
fn client_init_reports_connection_failure() {
    let (tx, rx) = std::sync::mpsc::channel::<Result<u32, Error>>();
    let init = ClientInit::new(rx);
    tx.send(Err(Error::NoAddress)).unwrap();
    assert_eq!(init.poll(), Some(Err(Error::NoAddress)));
    tx.send(Err(Error::BadAddress)).unwrap();
    assert_eq!(init.poll(), Some(Err(Error::BadAddress)));
    tx.send(Err(Error::ConnectionFailed)).unwrap();
    assert_eq!(init.poll(), Some(Err(Error::ConnectionFailed)));
}

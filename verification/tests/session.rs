use webterm::resize::WindowSize;
use webterm::session::{Action, Event, Frame, Session};

fn closes(actions: &[Action]) -> usize {
    actions.iter().filter(|a| matches!(a, Action::SendClose)).count()
}

#[test]
fn session_starts_bridging() {
    let s = Session::new();
    assert!(s.master_active);
    assert!(!s.close_send);
    assert!(!s.closed);
    assert!(s.polls_master());
}

#[test]
fn shell_exits_at_once_then_peer_disconnects() {
    let mut s = Session::new();
    assert_eq!(s.step(Event::MasterRead(&[])), Action::SendClose);
    assert!(!s.master_active);
    assert!(s.close_send);
    assert!(!s.closed);
    assert!(!s.polls_master());
    assert_eq!(s.step(Event::Disconnected), Action::Finish);
    assert!(s.closed);
}

#[test]
fn text_reaches_the_master_verbatim_and_in_order() {
    let mut s = Session::new();
    let mut written: Vec<u8> = Vec::new();
    let resize = [0xFF, 0x18, 0x00, 0x50, 0x00];
    let events = [
        Event::Message(Frame::Text(b"ls\n")),
        Event::Message(Frame::Binary(&resize)),
        Event::Message(Frame::Text(b"pwd\n")),
    ];
    let mut answers = Vec::new();
    for event in events {
        let action = s.step(event);
        if let Action::WriteMaster(bytes) = action {
            written.extend_from_slice(bytes);
        }
        answers.push(action);
    }
    assert_eq!(answers[0], Action::WriteMaster(b"ls\n"));
    assert_eq!(answers[1], Action::Resize(WindowSize { rows: 24, cols: 80 }));
    assert_eq!(answers[2], Action::WriteMaster(b"pwd\n"));
    assert_eq!(written, b"ls\npwd\n");
    assert_eq!(s, Session::new());
}

#[test]
fn malformed_binary_is_warned_about_and_ignored() {
    let payloads: [&[u8]; 5] = [
        &[],
        &[0xFF],
        &[0xFF, 0x18, 0x00, 0x50],
        &[0xFF, 0x18, 0x00, 0x50, 0x00, 0x00],
        &[0x01, 0x18, 0x00, 0x50, 0x00],
    ];
    for payload in payloads {
        let mut s = Session::new();
        assert_eq!(s.step(Event::Message(Frame::Binary(payload))), Action::Warn);
        assert_eq!(s, Session::new());
        assert_eq!(s.step(Event::Message(Frame::Text(b"x"))), Action::WriteMaster(b"x"));
    }
}

#[test]
fn peer_input_is_dropped_once_the_master_is_gone() {
    let mut s = Session::new();
    assert_eq!(s.step(Event::MasterFailed), Action::SendClose);
    let before = s;
    assert_eq!(s.step(Event::Message(Frame::Text(b"ls\n"))), Action::Idle);
    assert_eq!(s.step(Event::Message(Frame::Binary(&[0xFF, 1, 0, 1, 0]))), Action::Idle);
    assert_eq!(s.step(Event::Message(Frame::Binary(&[0x00]))), Action::Idle);
    assert_eq!(s, before);
}

#[test]
fn master_is_never_read_again_after_its_end() {
    let mut s = Session::new();
    s.step(Event::MasterRead(&[]));
    let events = [
        Event::Message(Frame::Text(b"a")),
        Event::MasterRead(b"late"),
        Event::MasterRead(&[]),
        Event::MasterFailed,
        Event::Message(Frame::Other),
        Event::Message(Frame::Close),
        Event::Disconnected,
    ];
    for event in events {
        s.step(event);
        assert!(!s.master_active);
        assert!(!s.polls_master());
    }
}

#[test]
fn late_master_events_are_ignored() {
    let mut s = Session::new();
    s.step(Event::MasterFailed);
    let before = s;
    assert_eq!(s.step(Event::MasterRead(b"late")), Action::Idle);
    assert_eq!(s.step(Event::MasterRead(&[])), Action::Idle);
    assert_eq!(s.step(Event::MasterFailed), Action::Idle);
    assert_eq!(s, before);
}

#[test]
fn peer_starts_the_close_handshake() {
    let mut s = Session::new();
    assert_eq!(s.step(Event::Message(Frame::Close)), Action::SendClose);
    assert!(s.close_send);
    assert!(s.master_active);
    assert!(s.polls_master());
    assert_eq!(s.step(Event::Message(Frame::Close)), Action::Finish);
    assert!(s.closed);
}

#[test]
fn master_starts_the_close_handshake() {
    let mut s = Session::new();
    assert_eq!(s.step(Event::MasterRead(&[])), Action::SendClose);
    assert_eq!(s.step(Event::Message(Frame::Close)), Action::Finish);
    assert!(s.closed);
}

#[test]
fn one_close_frame_whatever_comes_first() {
    let triggers = [Event::Message(Frame::Close), Event::MasterRead(&[]), Event::MasterFailed];
    for first in triggers {
        for second in triggers {
            for third in triggers {
                let mut s = Session::new();
                let answers = [
                    s.step(Event::Message(Frame::Text(b"a"))),
                    s.step(first),
                    s.step(Event::MasterRead(b"out")),
                    s.step(second),
                    s.step(third),
                    s.step(Event::Disconnected),
                ];
                assert_eq!(closes(&answers), 1);
                assert_eq!(answers[1], Action::SendClose);
                assert!(s.close_send);
                assert!(s.closed);
            }
        }
    }
}

#[test]
fn no_close_frame_when_the_peer_just_leaves() {
    let mut s = Session::new();
    let answers = [
        s.step(Event::Message(Frame::Text(b"a"))),
        s.step(Event::MasterRead(b"b")),
        s.step(Event::Disconnected),
    ];
    assert_eq!(closes(&answers), 0);
    assert_eq!(answers[2], Action::Finish);
    assert!(!s.close_send);
    assert!(s.closed);
}

#[test]
fn terminal_output_goes_to_the_peer_until_close_is_sent() {
    let mut s = Session::new();
    assert_eq!(s.step(Event::MasterRead(b"$ ")), Action::SendText(b"$ "));
    assert_eq!(s.step(Event::Message(Frame::Close)), Action::SendClose);
    assert_eq!(s.step(Event::MasterRead(b"late")), Action::Idle);
    assert!(s.master_active);
    assert_eq!(s.step(Event::MasterRead(&[])), Action::Idle);
    assert!(!s.master_active);
}

#[test]
fn other_frames_change_nothing() {
    let mut s = Session::new();
    assert_eq!(s.step(Event::Message(Frame::Other)), Action::Idle);
    assert_eq!(s, Session::new());
}

#[test]
fn empty_text_is_still_forwarded() {
    let mut s = Session::new();
    assert_eq!(s.step(Event::Message(Frame::Text(&[]))), Action::WriteMaster(&[]));
}

#[test]
fn disconnection_ends_the_session_in_any_state() {
    for (master_active, close_send) in [(true, false), (true, true), (false, true)] {
        let mut s = Session { master_active, close_send, closed: false };
        assert_eq!(s.step(Event::Disconnected), Action::Finish);
        assert_eq!(s, Session { master_active, close_send, closed: true });
    }
}

#[test]
fn a_closed_session_answers_nothing() {
    let mut s = Session::new();
    s.step(Event::Disconnected);
    let before = s;
    let events = [
        Event::Message(Frame::Text(b"a")),
        Event::Message(Frame::Binary(&[0xFF, 1, 0, 1, 0])),
        Event::Message(Frame::Close),
        Event::Message(Frame::Other),
        Event::Disconnected,
        Event::MasterRead(b"x"),
        Event::MasterRead(&[]),
        Event::MasterFailed,
    ];
    for event in events {
        assert_eq!(s.step(event), Action::Idle);
        assert_eq!(s, before);
        assert!(!s.polls_master());
    }
}

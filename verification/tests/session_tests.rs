use ws_demo::session::{run_session, step, Action, ConnState, Event, Frame};

fn text_event(s: &str) -> Event {
    Event::Received(Frame::Text(String::from(s)))
}

#[test]
fn welcome_draws_exactly_one_reply() {
    let replies = run_session(&vec![text_event(
        "{\"type\":\"welcome\",\"message\":{\"hello\":\"X\"}}",
    )]);
    assert_eq!(replies, vec![String::from(
        "{\"type\":\"thanks\",\"message\":{\"name\":\"X\"}}",
    )]);
}

#[test]
fn unrecognized_text_draws_no_reply_and_keeps_going() {
    let replies = run_session(&vec![
        text_event("{\"other\":1}"),
        text_event("{\"type\":\"greetings\",\"message\":{\"hello\":\"X\"}}"),
        text_event("{\"type\":\"welcome\",\"message\":{\"hello\":\"later\"}}"),
    ]);
    assert_eq!(replies, vec![String::from(
        "{\"type\":\"thanks\",\"message\":{\"name\":\"later\"}}",
    )]);
}

#[test]
fn close_frame_ends_session() {
    let replies = run_session(&vec![
        Event::Received(Frame::Close),
        text_event("{\"type\":\"welcome\",\"message\":{\"hello\":\"X\"}}"),
    ]);
    assert_eq!(replies, Vec::<String>::new());
}

#[test]
fn failures_end_session() {
    for failure in [Event::RecvFailed, Event::SendFailed, Event::Disconnected] {
        let replies = run_session(&vec![
            failure,
            text_event("{\"type\":\"welcome\",\"message\":{\"hello\":\"X\"}}"),
        ]);
        assert_eq!(replies, Vec::<String>::new());
    }
}

#[test]
fn other_frames_are_ignored() {
    let replies = run_session(&vec![
        Event::Received(Frame::Binary(vec![1, 2, 3])),
        Event::Received(Frame::Ping),
        Event::Received(Frame::Pong),
        text_event("{\"type\":\"welcome\",\"message\":{\"hello\":\"still here\"}}"),
    ]);
    assert_eq!(replies.len(), 1);
}

#[test]
fn step_replies_to_welcome_and_stays_open() {
    let (state, action) = step(
        ConnState::Open,
        &text_event("{\"type\":\"welcome\",\"message\":{\"hello\":\"X\"}}"),
    );
    assert_eq!(state, ConnState::Open);
    assert!(matches!(
        action,
        Action::Reply(s) if s == "{\"type\":\"thanks\",\"message\":{\"name\":\"X\"}}"
    ));
}

#[test]
fn step_closes_on_close_frame() {
    let (state, action) = step(ConnState::Open, &Event::Received(Frame::Close));
    assert_eq!(state, ConnState::Closed);
    assert!(matches!(action, Action::Ignore));
}

#[test]
fn step_keeps_closed_connection_closed() {
    let (state, action) = step(
        ConnState::Closed,
        &text_event("{\"type\":\"welcome\",\"message\":{\"hello\":\"X\"}}"),
    );
    assert_eq!(state, ConnState::Closed);
    assert!(matches!(action, Action::Ignore));
}

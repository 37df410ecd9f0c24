use vstd::prelude::*;
use crate::codec::{decode_incoming, encode_outgoing, spec_parse_welcome, thanks_json, welcome_json,
    lemma_welcome_roundtrip};
use crate::msg::{Incoming, Outgoing};

verus! {

// ---------------------------------------------------------------------------
// The connection handler, as a state machine.
//
// The loop around the channel lives outside the library: it waits for the
// next frame, hands what it saw to `step` as an event, performs the returned
// action, and stops once the state is closed. Everything the handler decides
// is here.
// ---------------------------------------------------------------------------

/// One frame received from the peer.
pub enum Frame {
    Text(String),
    Binary(Vec<u8>),
    Ping,
    Pong,
    Close,
}

/// One thing the connection loop can observe: a frame, or a channel failure.
pub enum Event {
    Received(Frame),
    RecvFailed,
    SendFailed,
    Disconnected,
}

/// A connection is open or closed; nothing else is remembered about it.
#[derive(Clone, Copy, Debug, PartialEq, Eq, Structural)]
pub enum ConnState {
    Open,
    Closed,
}

/// What the loop does with an event: reply with a text frame, or nothing.
pub enum Action {
    Reply(String),
    Ignore,
}

/// Decide on one event. A text frame that decodes as the welcome envelope
/// draws the corresponding thanks envelope as a reply; any other text, and
/// binary, ping and pong frames, are ignored; a close frame or a channel
/// failure closes the connection. A closed connection stays closed and
/// never replies.
pub fn step(state: ConnState, event: &Event) -> (r: (ConnState, Action))
    ensures
        state is Closed ==> r.0 is Closed && r.1 is Ignore,
        state is Open ==> match *event {
            Event::Received(Frame::Text(t)) => r.0 is Open && (match spec_parse_welcome(t@) {
                Some(h) => r.1 matches Action::Reply(out) && out@ == thanks_json(h),
                None => r.1 is Ignore,
            }),
            Event::Received(Frame::Close) => r.0 is Closed && r.1 is Ignore,
            Event::Received(_) => r.0 is Open && r.1 is Ignore,
            _ => r.0 is Closed && r.1 is Ignore,
        },
{
    match state {
        ConnState::Closed => (ConnState::Closed, Action::Ignore),
        ConnState::Open => match event {
            Event::Received(frame) => match frame {
                Frame::Text(t) => match decode_incoming(t.as_str()) {
                    Some(Incoming::Welcome { hello }) => {
                        let reply = Outgoing::Thanks { name: hello };
                        let out = encode_outgoing(&reply);
                        (ConnState::Open, Action::Reply(out))
                    },
                    None => (ConnState::Open, Action::Ignore),
                },
                Frame::Close => (ConnState::Closed, Action::Ignore),
                _ => (ConnState::Open, Action::Ignore),
            },
            _ => (ConnState::Closed, Action::Ignore),
        },
    }
}

/// The texts of the frames the handler sends when the events from `k` on
/// play out from `state`: a reply for each recognized welcome envelope,
/// up to the first close frame or channel failure.
pub open spec fn spec_replies(state: ConnState, events: Seq<Event>, k: int) -> Seq<Seq<char>>
    decreases events.len() - k
        when 0 <= k <= events.len()
{
    if k >= events.len() || state is Closed {
        Seq::empty()
    } else {
        match events[k] {
            Event::Received(Frame::Text(t)) => match spec_parse_welcome(t@) {
                Some(h) => seq![thanks_json(h)] + spec_replies(ConnState::Open, events, k + 1),
                None => spec_replies(ConnState::Open, events, k + 1),
            },
            Event::Received(Frame::Close) => Seq::empty(),
            Event::Received(_) => spec_replies(ConnState::Open, events, k + 1),
            _ => Seq::empty(),
        }
    }
}

/// Run a whole session over a list of events, returning the texts of the
/// frames the handler sends, in order.
pub fn run_session(events: &Vec<Event>) -> (r: Vec<String>)
    ensures
        r@.map_values(|s: String| s@) == spec_replies(ConnState::Open, events@, 0),
{
    let mut out: Vec<String> = Vec::new();
    let mut state = ConnState::Open;
    let mut i: usize = 0;
    proof {
        assert(out@.map_values(|s: String| s@) =~= Seq::<Seq<char>>::empty());
    }
    while i < events.len()
        invariant
            i <= events.len(),
            spec_replies(ConnState::Open, events@, 0) == out@.map_values(|s: String| s@) + (
            if state is Open {
                spec_replies(ConnState::Open, events@, i as int)
            } else {
                Seq::<Seq<char>>::empty()
            }),
        decreases events.len() - i,
    {
        let ghost prev = out@.map_values(|s: String| s@);
        let ghost k = i as int;
        let ghost st0 = state;
        let (ns, act) = step(state, &events[i]);
        match act {
            Action::Reply(text) => {
                let ghost tv = text@;
                out.push(text);
                proof {
                    assert(out@.map_values(|s: String| s@) =~= prev.push(tv));
                }
            },
            Action::Ignore => {},
        }
        state = ns;
        i += 1;
        proof {
            let cur = out@.map_values(|s: String| s@);
            if st0 is Open {
                match events@[k] {
                    Event::Received(Frame::Text(t)) => {
                        match spec_parse_welcome(t@) {
                            Some(h) => {
                                assert(prev + (seq![thanks_json(h)] + spec_replies(
                                    ConnState::Open,
                                    events@,
                                    k + 1,
                                )) =~= prev.push(thanks_json(h)) + spec_replies(
                                    ConnState::Open,
                                    events@,
                                    k + 1,
                                ));
                            },
                            None => {},
                        }
                    },
                    Event::Received(Frame::Close) => {
                        assert(prev + Seq::<Seq<char>>::empty() =~= prev);
                        assert(cur + Seq::<Seq<char>>::empty() =~= cur);
                    },
                    Event::Received(_) => {},
                    _ => {
                        assert(prev + Seq::<Seq<char>>::empty() =~= prev);
                        assert(cur + Seq::<Seq<char>>::empty() =~= cur);
                    },
                }
            } else {
                assert(cur == prev);
            }
        }
    }
    proof {
        if state is Open {
            assert(spec_replies(ConnState::Open, events@, events@.len() as int) =~= Seq::<
                Seq<char>,
            >::empty());
        }
        assert(out@.map_values(|s: String| s@) + Seq::<Seq<char>>::empty() =~= out@.map_values(
            |s: String| s@,
        ));
    }
    out
}

// ---------------------------------------------------------------------------
// What holds of every session.
// ---------------------------------------------------------------------------

/// A closed connection sends nothing, whatever arrives.
pub proof fn lemma_closed_is_terminal(events: Seq<Event>, k: int)
    requires
        0 <= k <= events.len(),
    ensures
        spec_replies(ConnState::Closed, events, k) == Seq::<Seq<char>>::empty(),
{
}

/// A close frame ends the session: no frame is sent for it or after it.
pub proof fn lemma_close_ends_session(events: Seq<Event>, k: int)
    requires
        0 <= k < events.len(),
        events[k] matches Event::Received(Frame::Close),
    ensures
        spec_replies(ConnState::Open, events, k) == Seq::<Seq<char>>::empty(),
{
}

/// A text frame that is not the welcome envelope draws no reply and does not
/// close the connection: the session goes on exactly as it would from the
/// next event.
pub proof fn lemma_unrecognized_ignored(events: Seq<Event>, k: int)
    requires
        0 <= k < events.len(),
        events[k] matches Event::Received(Frame::Text(t)) && spec_parse_welcome(t@) is None,
    ensures
        spec_replies(ConnState::Open, events, k) == spec_replies(ConnState::Open, events, k + 1),
{
}

/// A session holding one canonical welcome envelope sends exactly one reply:
/// the thanks envelope carrying the same text, whatever that text is.
pub proof fn lemma_welcome_draws_one_reply(events: Seq<Event>, hello: Seq<char>)
    requires
        events.len() == 1,
        events[0] matches Event::Received(Frame::Text(t)) && t@ == welcome_json(hello),
    ensures
        spec_replies(ConnState::Open, events, 0) == seq![thanks_json(hello)],
{
    lemma_welcome_roundtrip(hello);
    assert(spec_replies(ConnState::Open, events, 1) =~= Seq::<Seq<char>>::empty());
    assert(seq![thanks_json(hello)] + Seq::<Seq<char>>::empty() =~= seq![thanks_json(hello)]);
}

} // verus!

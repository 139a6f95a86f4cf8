//! The bridge between one peer connection and the terminal's master side.
//!
//! The caller owns the connection and the master and waits on both. Each
//! time one of them reports something it hands the event to
//! [`Session::step`], performs the action that comes back, and leaves its
//! loop on [`Action::Finish`].

use vstd::prelude::*;
use crate::resize::{decode_resize, resize_of, WindowSize};

verus! {

/// A message from the peer, by kind.
#[derive(Clone, Copy, Debug, PartialEq, Eq)]
pub enum Frame<'a> {
    /// Keyboard input for the terminal.
    Text(&'a [u8]),
    /// A control message.
    Binary(&'a [u8]),
    /// The peer's half of the close handshake.
    Close,
    /// Any other kind of frame.
    Other,
}

/// What one of the two sides reported.
#[derive(Clone, Copy, Debug, PartialEq, Eq)]
pub enum Event<'a> {
    /// The connection delivered a message.
    Message(Frame<'a>),
    /// The connection has no more messages.
    Disconnected,
    /// A read from the master returned these bytes; none at end-of-stream.
    MasterRead(&'a [u8]),
    /// A read from the master failed.
    MasterFailed,
}

/// What the caller does in answer to an event.
#[derive(Clone, Copy, Debug, PartialEq, Eq)]
pub enum Action<'a> {
    /// Nothing.
    Idle,
    /// Write all of these bytes to the master.
    WriteMaster(&'a [u8]),
    /// Set the terminal's size on the master.
    Resize(WindowSize),
    /// Log that a binary message was not understood.
    Warn,
    /// Send these bytes to the peer as a text message.
    SendText(&'a [u8]),
    /// Send a close frame to the peer.
    SendClose,
    /// Leave the loop: the session is over.
    Finish,
}

/// The state of one session.
#[derive(Clone, Copy, Debug, PartialEq, Eq, Structural)]
pub struct Session {
    /// False once the master reached end-of-stream or failed.
    pub master_active: bool,
    /// True once this side has sent its close frame.
    pub close_send: bool,
    /// True once the session is over.
    pub closed: bool,
}

/// Whether an event makes an open session send its close frame, unless it
/// already has.
pub open spec fn asks_for_close(event: Event) -> bool {
    match event {
        Event::Message(Frame::Close) => true,
        Event::MasterRead(data) => data@.len() == 0,
        Event::MasterFailed => true,
        _ => false,
    }
}

/// How many close frames a run of actions sends.
pub open spec fn closes_sent(actions: Seq<Action>) -> nat
    decreases actions.len(),
{
    if actions.len() == 0 {
        0
    } else {
        closes_sent(actions.drop_last()) + if actions.last() is SendClose {
            1nat
        } else {
            0nat
        }
    }
}

impl Session {
    /// The state in which every session starts.
    pub open spec fn initial() -> Session {
        Session { master_active: true, close_send: false, closed: false }
    }

    /// A master that is no longer read implies a close frame already sent.
    pub open spec fn wf(self) -> bool {
        !self.master_active ==> self.close_send
    }

    /// Both sides are still served.
    pub open spec fn is_bridging(self) -> bool {
        !self.closed && self.master_active
    }

    /// Only the peer's close or disconnection is still awaited.
    pub open spec fn is_draining(self) -> bool {
        !self.closed && !self.master_active
    }

    /// Whether the caller waits on the master at all: it does exactly
    /// while both sides are served.
    pub open spec fn reads_master(self) -> bool {
        self.is_bridging()
    }

    /// The session without its master, its close frame sent.
    pub open spec fn master_ended(self) -> Session {
        Session { master_active: false, close_send: true, closed: self.closed }
    }

    /// The state after one event.
    pub open spec fn next(self, event: Event) -> Session {
        if self.closed {
            self
        } else {
            match event {
                Event::Message(Frame::Close) => if self.close_send {
                    Session { closed: true, ..self }
                } else {
                    Session { close_send: true, ..self }
                },
                Event::Message(_) => self,
                Event::Disconnected => Session { closed: true, ..self },
                Event::MasterRead(data) => if self.master_active && data@.len() == 0 {
                    self.master_ended()
                } else {
                    self
                },
                Event::MasterFailed => if self.master_active {
                    self.master_ended()
                } else {
                    self
                },
            }
        }
    }

    /// The action that answers one event.
    pub open spec fn action<'a>(self, event: Event<'a>) -> Action<'a> {
        if self.closed {
            Action::Idle
        } else {
            match event {
                Event::Message(Frame::Text(payload)) => if self.master_active {
                    Action::WriteMaster(payload)
                } else {
                    Action::Idle
                },
                Event::Message(Frame::Binary(payload)) => if self.master_active {
                    match resize_of(payload@) {
                        Some(size) => Action::Resize(size),
                        None => Action::Warn,
                    }
                } else {
                    Action::Idle
                },
                Event::Message(Frame::Close) => if self.close_send {
                    Action::Finish
                } else {
                    Action::SendClose
                },
                Event::Message(Frame::Other) => Action::Idle,
                Event::Disconnected => Action::Finish,
                Event::MasterRead(data) => if !self.master_active || self.close_send {
                    Action::Idle
                } else if data@.len() == 0 {
                    Action::SendClose
                } else {
                    Action::SendText(data)
                },
                Event::MasterFailed => if !self.master_active || self.close_send {
                    Action::Idle
                } else {
                    Action::SendClose
                },
            }
        }
    }

    /// The state after a run of events, oldest first.
    pub open spec fn after(self, events: Seq<Event>) -> Session
        decreases events.len(),
    {
        if events.len() == 0 {
            self
        } else {
            self.after(events.drop_last()).next(events.last())
        }
    }

    /// The actions that answer a run of events, one for each, in order.
    pub open spec fn answers<'a>(self, events: Seq<Event<'a>>) -> Seq<Action<'a>>
        decreases events.len(),
    {
        if events.len() == 0 {
            Seq::empty()
        } else {
            self.answers(events.drop_last()).push(
                self.after(events.drop_last()).action(events.last()),
            )
        }
    }

    /// Starts a session: the master is read and no close frame was sent.
    pub fn new() -> (s: Session)
        ensures
            s == Session::initial(),
            s.wf(),
    {
        Session { master_active: true, close_send: false, closed: false }
    }

    /// Whether the caller waits on the master in its next round.
    pub fn polls_master(&self) -> (r: bool)
        ensures
            r == self.reads_master(),
    {
        !self.closed && self.master_active
    }

    /// Takes one event, moves to the next state and says what to do.
    pub fn step<'a>(&mut self, event: Event<'a>) -> (action: Action<'a>)
        ensures
            *final(self) == old(self).next(event),
            action == old(self).action(event),
            old(self).wf() ==> final(self).wf(),
    {
        if self.closed {
            return Action::Idle;
        }
        match event {
            Event::Message(Frame::Text(payload)) => {
                if self.master_active {
                    Action::WriteMaster(payload)
                } else {
                    Action::Idle
                }
            },
            Event::Message(Frame::Binary(payload)) => {
                if self.master_active {
                    match decode_resize(payload) {
                        Some(size) => Action::Resize(size),
                        None => Action::Warn,
                    }
                } else {
                    Action::Idle
                }
            },
            Event::Message(Frame::Close) => {
                if self.close_send {
                    self.closed = true;
                    Action::Finish
                } else {
                    self.close_send = true;
                    Action::SendClose
                }
            },
            Event::Message(Frame::Other) => Action::Idle,
            Event::Disconnected => {
                self.closed = true;
                Action::Finish
            },
            Event::MasterRead(data) => {
                if !self.master_active {
                    Action::Idle
                } else if data.len() == 0 {
                    self.end_master()
                } else if self.close_send {
                    Action::Idle
                } else {
                    Action::SendText(data)
                }
            },
            Event::MasterFailed => {
                if self.master_active {
                    self.end_master()
                } else {
                    Action::Idle
                }
            },
        }
    }

    /// Stops reading the master and sends the close frame unless it was
    /// sent before.
    fn end_master<'a>(&mut self) -> (action: Action<'a>)
        requires
            !old(self).closed,
        ensures
            *final(self) == old(self).master_ended(),
            action == if old(self).close_send {
                Action::Idle
            } else {
                Action::SendClose
            },
    {
        self.master_active = false;
        if self.close_send {
            Action::Idle
        } else {
            self.close_send = true;
            Action::SendClose
        }
    }
}

/// A step keeps a well-formed state well-formed.
pub proof fn lemma_next_keeps_wf(s: Session, event: Event)
    requires
        s.wf(),
    ensures
        s.next(event).wf(),
{
}

/// Every state that a session can reach is well-formed.
pub proof fn lemma_reachable_is_wf(events: Seq<Event>)
    ensures
        Session::initial().after(events).wf(),
    decreases events.len(),
{
    if events.len() > 0 {
        lemma_reachable_is_wf(events.drop_last());
    }
}

/// A run in two parts ends where the second part ends when started from
/// the end of the first, and its answers are those of both parts in order.
pub proof fn lemma_run_in_two_parts(s: Session, first: Seq<Event>, second: Seq<Event>)
    ensures
        s.after(first + second) == s.after(first).after(second),
        s.answers(first + second) == s.answers(first) + s.after(first).answers(second),
    decreases second.len(),
{
    if second.len() == 0 {
        assert(first + second =~= first);
        assert(s.answers(first) + s.after(first).answers(second) =~= s.answers(first));
    } else {
        let shorter = second.drop_last();
        lemma_run_in_two_parts(s, first, shorter);
        assert((first + second).drop_last() =~= first + shorter);
        assert((first + second).last() == second.last());
        assert(s.answers(first + second) =~= s.answers(first) + s.after(first).answers(second));
    }
}

/// Each event gets exactly one answer.
pub proof fn lemma_one_answer_each(s: Session, events: Seq<Event>)
    ensures
        s.answers(events).len() == events.len(),
    decreases events.len(),
{
    if events.len() > 0 {
        lemma_one_answer_each(s, events.drop_last());
    }
}

/// End-of-stream or a failure at the master ends the reading of it.
pub proof fn lemma_master_end_stops_reading(s: Session, event: Event)
    requires
        event is MasterFailed || (event matches Event::MasterRead(data) && data@.len() == 0),
    ensures
        !s.next(event).reads_master(),
{
}

/// Once the master is no longer read, no run of events makes the session
/// read it again, and `master_active` stays false.
pub proof fn lemma_master_never_read_again(s: Session, events: Seq<Event>)
    ensures
        !s.master_active ==> !s.after(events).master_active,
        !s.reads_master() ==> !s.after(events).reads_master(),
    decreases events.len(),
{
    if events.len() > 0 {
        lemma_master_never_read_again(s, events.drop_last());
    }
}

/// A session ends in two ways only: the connection has no more messages,
/// or the peer's close frame arrives after this side sent its own.
pub proof fn lemma_session_ends_two_ways(s: Session, event: Event)
    requires
        !s.closed,
    ensures
        s.action(event) is Finish <==> event is Disconnected || (event == Event::Message(
            Frame::Close,
        ) && s.close_send),
        s.next(event).closed <==> s.action(event) is Finish,
{
}

/// A closed session stays closed, keeps its state and answers nothing.
pub proof fn lemma_closed_is_final(s: Session, events: Seq<Event>, i: int)
    requires
        s.closed,
        0 <= i < events.len(),
    ensures
        s.after(events) == s,
        s.answers(events)[i] is Idle,
    decreases events.len(),
{
    lemma_one_answer_each(s, events.drop_last());
    if events.len() > 1 {
        let j = if i < events.len() - 1 { i } else { 0 };
        lemma_closed_is_final(s, events.drop_last(), j);
    }
}

/// A close frame is sent in exactly those steps that turn `close_send`
/// from false to true, and `close_send` never turns back.
pub proof fn lemma_close_frame_marks_close_send(s: Session, event: Event)
    ensures
        s.action(event) is SendClose <==> !s.close_send && s.next(event).close_send,
        s.close_send ==> s.next(event).close_send,
{
}

/// Over any run of events a session sends at most one close frame: one if
/// `close_send` turned true during the run, none otherwise.
pub proof fn lemma_at_most_one_close(s: Session, events: Seq<Event>)
    ensures
        s.close_send ==> s.after(events).close_send,
        closes_sent(s.answers(events)) == if !s.close_send && s.after(events).close_send {
            1nat
        } else {
            0nat
        },
    decreases events.len(),
{
    if events.len() > 0 {
        let shorter = events.drop_last();
        lemma_at_most_one_close(s, shorter);
        lemma_close_frame_marks_close_send(s.after(shorter), events.last());
        assert(s.answers(events).drop_last() =~= s.answers(shorter));
    }
}

/// A session that meets a peer's close, the master's end-of-stream or a
/// failed read before it is over sends exactly one close frame, whatever
/// else happens and whichever of them comes first.
pub proof fn lemma_exactly_one_close(events: Seq<Event>, i: int)
    requires
        0 <= i < events.len(),
        asks_for_close(events[i]),
        !Session::initial().after(events.take(i)).closed,
    ensures
        closes_sent(Session::initial().answers(events)) == 1,
{
    let start = Session::initial();
    let head = events.take(i + 1);
    let tail = events.skip(i + 1);
    assert(head.drop_last() =~= events.take(i));
    assert(head.last() == events[i]);
    lemma_reachable_is_wf(events.take(i));
    assert(start.after(head).close_send);
    assert(events =~= head + tail);
    lemma_run_in_two_parts(start, head, tail);
    lemma_at_most_one_close(start.after(head), tail);
    lemma_at_most_one_close(start, events);
}

/// A binary message that is no resize command changes nothing: the state
/// stays as it is, no size is set and the session goes on. While the
/// master is read the answer is a warning.
pub proof fn lemma_malformed_resize_is_harmless(s: Session, payload: &[u8])
    requires
        payload@.len() != 5 || payload@[0] != 0xFF,
    ensures
        s.next(Event::Message(Frame::Binary(payload))) == s,
        s.is_bridging() ==> s.action(Event::Message(Frame::Binary(payload))) is Warn,
        !s.is_bridging() ==> s.action(Event::Message(Frame::Binary(payload))) is Idle,
{
}

/// While the master is read, text from the peer goes to the master as it
/// came and a resize command sets the size it spells.
pub proof fn lemma_peer_input_reaches_master(s: Session, payload: &[u8])
    requires
        s.is_bridging(),
    ensures
        s.action(Event::Message(Frame::Text(payload))) == Action::WriteMaster(payload),
        s.next(Event::Message(Frame::Text(payload))) == s,
        resize_of(payload@) matches Some(size) ==> s.action(
            Event::Message(Frame::Binary(payload)),
        ) == Action::Resize(size),
{
}

/// Output of the terminal reaches the peer as it came until the close
/// frame is sent; after that nothing more is sent to the peer.
pub proof fn lemma_no_frame_after_close(s: Session, event: Event)
    requires
        s.close_send,
    ensures
        !(s.action(event) is SendText),
        !(s.action(event) is SendClose),
{
}

} // verus!

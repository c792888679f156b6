//! Serving clients on websockets.

use vstd::prelude::*;

verus! {

/// The address that the websocket server listens on.
pub fn listen_address() -> (address: &'static str)
    ensures
        address@ == "127.0.0.1:9001"@,
{
    "127.0.0.1:9001"
}

/// What happened to the websocket server on the way to its clients.
#[derive(Debug)]
pub enum AcceptEvent<E> {
    /// The address was bound.
    Bound,
    BindFailed(E),
    /// A connection was accepted.
    Accepted,
    AcceptFailed(E),
    /// The websocket handshake on an accepted connection was made.
    HandshakeMade,
    HandshakeFailed,
    /// There will be no more connections.
    ConnectionsEnded,
}

/// What is to be done for the websocket server on the way to its clients.
#[derive(Debug)]
pub enum AcceptAction<E> {
    /// Make the websocket handshake.
    Handshake,
    /// Serve the client, beside all others, and wait for the next connection.
    Serve,
    /// Say what went wrong, and wait for the next connection.
    Report(E),
    /// Wait for the next connection.
    AwaitNext,
    /// Stop, with this outcome.
    Finish(Result<(), E>),
}

/// Decides what is to be done for the websocket server after an event. An address that cannot be
/// bound ends the server with that error, before any connection is waited for; a connection that
/// fails is no reason to stop.
pub fn start_websocket_server<E>(event: AcceptEvent<E>) -> (action: AcceptAction<E>)
    ensures
        action == match event {
            AcceptEvent::Bound => AcceptAction::AwaitNext,
            AcceptEvent::BindFailed(error) => AcceptAction::Finish(Err(error)),
            AcceptEvent::Accepted => AcceptAction::Handshake,
            AcceptEvent::HandshakeMade => AcceptAction::Serve,
            AcceptEvent::AcceptFailed(error) => AcceptAction::Report(error),
            AcceptEvent::HandshakeFailed => AcceptAction::AwaitNext,
            AcceptEvent::ConnectionsEnded => AcceptAction::Finish(Ok(())),
        },
        action matches AcceptAction::Finish(Err(error)) ==> event
            == AcceptEvent::BindFailed(error),
{
    match event {
        AcceptEvent::Bound => AcceptAction::AwaitNext,
        AcceptEvent::BindFailed(error) => AcceptAction::Finish(Err(error)),
        AcceptEvent::Accepted => AcceptAction::Handshake,
        AcceptEvent::HandshakeMade => AcceptAction::Serve,
        AcceptEvent::AcceptFailed(error) => AcceptAction::Report(error),
        AcceptEvent::HandshakeFailed => AcceptAction::AwaitNext,
        AcceptEvent::ConnectionsEnded => AcceptAction::Finish(Ok(())),
    }
}

/// Where the service of one client stands.
#[derive(Clone, Copy, Debug, PartialEq, Eq, Structural)]
pub enum Session {
    /// Its next message is being waited for.
    Reading,
    /// A message of its is being answered.
    Replying,
    /// It is no longer served.
    Over,
}

/// What happened in the service of one client.
#[derive(Debug)]
pub enum SocketEvent<R, E> {
    TextReceived,
    /// A message came that is not text.
    OtherReceived,
    /// A message could not be read.
    ReadFailed(R),
    /// The client sends no more messages.
    Closed,
    ReplySent,
    ReplyFailed(E),
}

/// What is to be done in the service of one client.
#[derive(Debug)]
pub enum SocketAction<R, E> {
    /// Wait for its next message.
    Read,
    /// Answer with this text.
    Reply(&'static str),
    /// Say what went wrong, if anything, then drop all clients that are no longer connected.
    DropDisconnected(Option<R>),
    /// Stop at once, with this error.
    Fail(E),
}

impl Session {
    /// Whether an event is one that can happen now.
    pub open spec fn expects<R, E>(self, event: SocketEvent<R, E>) -> bool {
        match self {
            Session::Reading => event is TextReceived || event is OtherReceived
                || event is ReadFailed || event is Closed,
            Session::Replying => event is ReplySent || event is ReplyFailed,
            Session::Over => false,
        }
    }
}

/// Takes in a new client: it belongs to the clients before its first message is read.
pub fn begin_session<T, R, E>(clients: &mut Vec<T>, client: T) -> (begun: (
    Session,
    SocketAction<R, E>,
))
    ensures
        final(clients)@ == old(clients)@.push(client),
        begun == (Session::Reading, SocketAction::<R, E>::Read),
{
    clients.push(client);
    (Session::Reading, SocketAction::Read)
}

/// Where the service stands once an action was decided on.
pub open spec fn standing<R, E>(action: SocketAction<R, E>) -> Session {
    match action {
        SocketAction::Read => Session::Reading,
        SocketAction::Reply(_) => Session::Replying,
        SocketAction::DropDisconnected(_) | SocketAction::Fail(_) => Session::Over,
    }
}

/// Decides what is to be done after an event in the service of a client: text is answered, other
/// messages are passed over, and the first message that cannot be read ends the service, as does
/// the end of the messages. An answer that cannot be sent is an error.
pub fn handle_ws<R, E>(session: &mut Session, event: SocketEvent<R, E>) -> (action: SocketAction<
    R,
    E,
>)
    requires
        old(session).expects(event),
    ensures
        *final(session) == standing(action),
        *final(session) == standing_after_event(event),
        event is TextReceived ==> *final(session) is Replying,
        event is OtherReceived || event is ReplySent ==> *final(session) is Reading,
        event is ReadFailed || event is Closed || event is ReplyFailed ==> *final(session) is Over,
        match event {
            SocketEvent::TextReceived => action matches SocketAction::Reply(text) && text@
                == "Received"@,
            SocketEvent::OtherReceived | SocketEvent::ReplySent => action is Read,
            SocketEvent::ReadFailed(error) => action == SocketAction::<R, E>::DropDisconnected(
                Some(error),
            ),
            SocketEvent::Closed => action == SocketAction::<R, E>::DropDisconnected(None),
            SocketEvent::ReplyFailed(error) => action == SocketAction::<R, E>::Fail(error),
        },
{
    match event {
        SocketEvent::TextReceived => {
            *session = Session::Replying;
            SocketAction::Reply("Received")
        },
        SocketEvent::OtherReceived | SocketEvent::ReplySent => {
            *session = Session::Reading;
            SocketAction::Read
        },
        SocketEvent::ReadFailed(error) => {
            *session = Session::Over;
            SocketAction::DropDisconnected(Some(error))
        },
        SocketEvent::Closed => {
            *session = Session::Over;
            SocketAction::DropDisconnected(None)
        },
        SocketEvent::ReplyFailed(error) => {
            *session = Session::Over;
            SocketAction::Fail(error)
        },
    }
}

/// Where the service stands after an event.
pub open spec fn standing_after_event<R, E>(event: SocketEvent<R, E>) -> Session {
    match event {
        SocketEvent::TextReceived => Session::Replying,
        SocketEvent::OtherReceived | SocketEvent::ReplySent => Session::Reading,
        SocketEvent::ReadFailed(_) | SocketEvent::Closed | SocketEvent::ReplyFailed(_) => {
            Session::Over
        },
    }
}

/// Where the service stands after `events`.
pub open spec fn standing_after<R, E>(events: Seq<SocketEvent<R, E>>) -> Session {
    if events.len() == 0 {
        Session::Reading
    } else {
        standing_after_event(events.last())
    }
}

/// Whether `events` can happen one after the other in the service of a client.
pub open spec fn possible<R, E>(events: Seq<SocketEvent<R, E>>) -> bool {
    forall|i: int|
        0 <= i < events.len() ==> standing_after(events.take(i)).expects(#[trigger] events[i])
}

/// The number of texts that were received.
pub open spec fn texts_received<R, E>(events: Seq<SocketEvent<R, E>>) -> nat
    decreases events.len(),
{
    if events.len() == 0 {
        0
    } else {
        texts_received(events.drop_last()) + if events.last() is TextReceived {
            1nat
        } else {
            0nat
        }
    }
}

/// The number of answers that were sent.
pub open spec fn answers_sent<R, E>(events: Seq<SocketEvent<R, E>>) -> nat
    decreases events.len(),
{
    if events.len() == 0 {
        0
    } else {
        answers_sent(events.drop_last()) + if events.last() is ReplySent {
            1nat
        } else {
            0nat
        }
    }
}

/// Every text is answered once: but for one whose answer is on its way or could not be sent, as
/// many answers were sent as texts were received.
pub proof fn lemma_every_text_answered<R, E>(events: Seq<SocketEvent<R, E>>)
    requires
        possible(events),
    ensures
        texts_received(events) == answers_sent(events) + if standing_after(events) is Replying || (
        events.len() > 0 && events.last() is ReplyFailed) {
            1nat
        } else {
            0nat
        },
    decreases events.len(),
{
    if events.len() > 0 {
        let earlier = events.drop_last();
        let last = events.len() - 1;
        assert forall|i: int| 0 <= i < earlier.len() implies standing_after(
            earlier.take(i),
        ).expects(#[trigger] earlier[i]) by {
            assert(standing_after(events.take(i)).expects(events[i]));
            assert(earlier.take(i) =~= events.take(i));
        }
        lemma_every_text_answered(earlier);
        assert(standing_after(events.take(last)).expects(events[last]));
        assert(events.take(last) =~= earlier);
    }
}

/// Each event can happen in exactly one standing, and none once a client is no longer served.
pub proof fn lemma_events_belong_to_standings<R, E>(session: Session, unread: R, unsent: E)
    ensures
        session.expects(SocketEvent::<R, E>::TextReceived) <==> session is Reading,
        session.expects(SocketEvent::<R, E>::OtherReceived) <==> session is Reading,
        session.expects(SocketEvent::<R, E>::ReadFailed(unread)) <==> session is Reading,
        session.expects(SocketEvent::<R, E>::Closed) <==> session is Reading,
        session.expects(SocketEvent::<R, E>::ReplySent) <==> session is Replying,
        session.expects(SocketEvent::<R, E>::ReplyFailed(unsent)) <==> session is Replying,
{
}

/// A client is served until a message cannot be read, the messages end or an answer cannot be
/// sent: no event but the last one is other than a message received or an answer sent.
pub proof fn lemma_served_to_the_end<R, E>(events: Seq<SocketEvent<R, E>>, i: int)
    requires
        possible(events),
        0 <= i < events.len() - 1,
    ensures
        events[i] is TextReceived || events[i] is OtherReceived || events[i] is ReplySent,
        events[i] is TextReceived <==> (events[i + 1] is ReplySent || events[i
            + 1] is ReplyFailed),
{
    assert(standing_after(events.take(i + 1)).expects(events[i + 1]));
    assert(events.take(i + 1).last() == events[i]);
}

} // verus!

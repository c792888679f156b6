use consumption_tracker::in_order::InOrder;
use consumption_tracker::retry::{
    lengthen_delay, track_weight_consumption, Connection, ConnectionAction, ConnectionEvent, Phase,
};
use consumption_tracker::subscription::{track_blocks, BlockAction, BlockEvent, Subscription};
use consumption_tracker::tracker::{self, TaskError, TrackingAction, TrackingEvent};
use consumption_tracker::types::Parachain;
use consumption_tracker::websocket::{
    begin_session, handle_ws, listen_address, start_websocket_server, AcceptAction, AcceptEvent, Session,
    SocketAction, SocketEvent,
};

fn para() -> Parachain {
    Parachain {
        para_id: 2000,
        relay_chain: "Polkadot".to_string(),
        rpcs: vec!["wss://a".to_string()],
    }
}

#[test]
fn tracking_needs_an_rpc() {
    let para = para();
    let url = "wss://a".to_string();
    let (connection, action) = Connection::start(&para, 0).unwrap();
    assert_eq!(connection, Connection { url: &url, phase: Phase::Connecting, delay_secs: 1 });
    assert_eq!(action, ConnectionAction::Connect { url: &url });
    assert!(Connection::start(&para, 1).is_none());
}

#[test]
fn waits_double_up_to_a_minute() {
    let para = para();
    let (mut connection, _) = Connection::start(&para, 0).unwrap();
    for secs in [1, 2, 4, 8, 16, 32, 60, 60] {
        assert_eq!(
            track_weight_consumption(&mut connection, ConnectionEvent::ConnectFailed),
            ConnectionAction::Sleep { secs }
        );
        assert_eq!(
            track_weight_consumption(&mut connection, ConnectionEvent::Waited),
            ConnectionAction::Connect { url: &para.rpcs[0] }
        );
    }
}

#[test]
fn a_connection_brings_the_first_wait_back() {
    let url = "wss://a".to_string();
    let mut connection = Connection { url: &url, phase: Phase::Connecting, delay_secs: 32 };
    assert_eq!(
        track_weight_consumption(&mut connection, ConnectionEvent::Connected),
        ConnectionAction::TrackBlocks
    );
    assert_eq!(
        track_weight_consumption(&mut connection, ConnectionEvent::TrackingEnded),
        ConnectionAction::Sleep { secs: 1 }
    );
    track_weight_consumption(&mut connection, ConnectionEvent::Waited);
    track_weight_consumption(&mut connection, ConnectionEvent::Connected);
    assert_eq!(
        track_weight_consumption(&mut connection, ConnectionEvent::TrackingFailed),
        ConnectionAction::Sleep { secs: 1 }
    );
}

#[test]
fn every_attempt_is_to_the_same_node() {
    let mut para = para();
    para.rpcs.push("wss://b".to_string());
    let (mut connection, action) = Connection::start(&para, 1).unwrap();
    assert_eq!(action, ConnectionAction::Connect { url: &para.rpcs[1] });
    track_weight_consumption(&mut connection, ConnectionEvent::Connected);
    track_weight_consumption(&mut connection, ConnectionEvent::TrackingFailed);
    assert_eq!(
        track_weight_consumption(&mut connection, ConnectionEvent::Waited),
        ConnectionAction::Connect { url: &para.rpcs[1] }
    );
}

#[test]
fn lengthened_delays() {
    assert_eq!(lengthen_delay(29), 58);
    assert_eq!(lengthen_delay(30), 60);
    assert_eq!(lengthen_delay(31), 60);
    assert_eq!(lengthen_delay(u64::MAX), 60);
}

#[test]
fn blocks_are_noted_and_waited_for() {
    let (mut subscription, action) = Subscription::start::<&str>();
    assert!(matches!(action, BlockAction::Subscribe));
    let action = track_blocks(&mut subscription, BlockEvent::<&str>::Subscribed);
    assert!(matches!(action, BlockAction::AwaitBlock { timeout_secs: Some(60) }));
    let action = track_blocks(&mut subscription, BlockEvent::<&str>::BlockReceived);
    assert!(matches!(action, BlockAction::NoteBlock));
    let action = track_blocks(&mut subscription, BlockEvent::NoteFailed("json"));
    assert!(matches!(action, BlockAction::AwaitBlock { timeout_secs: Some(60) }));
    assert_eq!(subscription, Subscription::Awaiting);
    track_blocks(&mut subscription, BlockEvent::<&str>::BlockReceived);
    let action = track_blocks(&mut subscription, BlockEvent::<&str>::Noted);
    assert!(matches!(action, BlockAction::AwaitBlock { timeout_secs: Some(60) }));
}

#[test]
fn subscriptions_end() {
    let mut subscription = Subscription::Subscribing;
    let action = track_blocks(&mut subscription, BlockEvent::SubscribeFailed("rpc"));
    assert!(matches!(action, BlockAction::Finish(Err("rpc"))));
    assert_eq!(subscription, Subscription::Finished);
    let mut subscription = Subscription::Awaiting;
    let action = track_blocks(&mut subscription, BlockEvent::BlockFailed("rpc"));
    assert!(matches!(action, BlockAction::Finish(Err("rpc"))));
    let mut subscription = Subscription::Awaiting;
    let action = track_blocks(&mut subscription, BlockEvent::<&str>::StreamEnded);
    assert!(matches!(action, BlockAction::Finish(Ok(()))));
    let mut subscription = Subscription::Awaiting;
    let action = track_blocks(&mut subscription, BlockEvent::<&str>::TimedOut);
    assert!(matches!(action, BlockAction::Finish(Ok(()))));
}

#[test]
fn websocket_subscriptions_end() {
    let mut subscription = Subscription::Noting;
    let action = tracker::track_blocks(&mut subscription, BlockEvent::NoteFailed("send"));
    assert!(matches!(action, BlockAction::Finish(Err("send"))));
    let mut subscription = Subscription::Awaiting;
    let action = tracker::track_blocks(&mut subscription, BlockEvent::BlockFailed("rpc"));
    assert!(matches!(action, BlockAction::Finish(Ok(()))));
    let mut subscription = Subscription::Awaiting;
    let action = tracker::track_blocks(&mut subscription, BlockEvent::<&str>::StreamEnded);
    assert!(matches!(action, BlockAction::Finish(Ok(()))));
    let mut subscription = Subscription::Subscribing;
    let action = tracker::track_blocks(&mut subscription, BlockEvent::SubscribeFailed("rpc"));
    assert!(matches!(action, BlockAction::Finish(Err("rpc"))));
}

#[test]
fn websocket_blocks_are_noted_and_waited_for() {
    let mut subscription = Subscription::Subscribing;
    let action = tracker::track_blocks(&mut subscription, BlockEvent::<&str>::Subscribed);
    assert!(matches!(action, BlockAction::AwaitBlock { timeout_secs: None }));
    let action = tracker::track_blocks(&mut subscription, BlockEvent::<&str>::BlockReceived);
    assert!(matches!(action, BlockAction::NoteBlock));
    let action = tracker::track_blocks(&mut subscription, BlockEvent::<&str>::Noted);
    assert!(matches!(action, BlockAction::AwaitBlock { timeout_secs: None }));
}

#[test]
fn websocket_tracking_ends_with_its_blocks() {
    let para = para();
    assert!(matches!(
        tracker::begin_tracking::<&str>(&para, 0),
        TrackingAction::Connect(url) if url == "wss://a"
    ));
    assert!(matches!(tracker::begin_tracking::<&str>(&para, 3), TrackingAction::Finish(Ok(()))));
    assert!(matches!(
        tracker::track_weight_consumption::<&str>(TrackingEvent::Connected),
        TrackingAction::TrackBlocks
    ));
    assert!(matches!(
        tracker::track_weight_consumption(TrackingEvent::ConnectFailed("rpc")),
        TrackingAction::Finish(Err("rpc"))
    ));
    assert!(matches!(
        tracker::track_weight_consumption(TrackingEvent::BlocksFinished(Err("send"))),
        TrackingAction::Finish(Err("send"))
    ));
}

#[test]
fn tasks_are_waited_for_in_order() {
    let mut tasks = InOrder::new(3);
    assert_eq!(tasks.current(), Some(0));
    assert!(tracker::start_tracking::<&str, &str>(&mut tasks, Ok(Ok(()))).is_ok());
    assert_eq!(tasks.current(), Some(1));
    let failed = tracker::start_tracking::<&str, &str>(&mut tasks, Ok(Err("rpc")));
    assert!(matches!(failed, Err(TaskError::Failed("rpc"))));
    assert_eq!(tasks.current(), Some(1));
    let aborted = tracker::start_tracking::<&str, &str>(&mut tasks, Err("panic"));
    assert!(matches!(aborted, Err(TaskError::Aborted("panic"))));
}

#[test]
fn a_pass_stops_at_the_first_failure() {
    let mut clients = InOrder::new(2);
    assert_eq!(clients.advance::<&str>(Ok(())), Ok(()));
    assert_eq!(clients.advance(Err("closed")), Err("closed"));
    assert_eq!(clients.current(), Some(1));
    assert_eq!(clients.advance::<&str>(Ok(())), Ok(()));
    assert_eq!(clients.current(), None);
    assert_eq!(InOrder::new(0).current(), None);
}

#[test]
fn text_is_answered() {
    let mut session = Session::Reading;
    let action = handle_ws(&mut session, SocketEvent::<&str, &str>::TextReceived);
    assert!(matches!(action, SocketAction::Reply("Received")));
    let action = handle_ws(&mut session, SocketEvent::<&str, &str>::ReplySent);
    assert!(matches!(action, SocketAction::Read));
    let action = handle_ws(&mut session, SocketEvent::<&str, &str>::OtherReceived);
    assert!(matches!(action, SocketAction::Read));
    assert_eq!(session, Session::Reading);
}

#[test]
fn sessions_end() {
    let mut session = Session::Reading;
    let action = handle_ws(&mut session, SocketEvent::<&str, &str>::ReadFailed("io"));
    assert!(matches!(action, SocketAction::DropDisconnected(Some("io"))));
    assert_eq!(session, Session::Over);
    let mut session = Session::Reading;
    let action = handle_ws(&mut session, SocketEvent::<&str, &str>::Closed);
    assert!(matches!(action, SocketAction::DropDisconnected(None)));
    let mut session = Session::Replying;
    let action = handle_ws(&mut session, SocketEvent::<&str, &str>::ReplyFailed("io"));
    assert!(matches!(action, SocketAction::Fail("io")));
}

#[test]
fn connections_are_served() {
    assert_eq!(listen_address(), "127.0.0.1:9001");
    assert!(matches!(start_websocket_server::<&str>(AcceptEvent::Accepted), AcceptAction::Handshake));
    assert!(matches!(start_websocket_server::<&str>(AcceptEvent::HandshakeMade), AcceptAction::Serve));
    assert!(matches!(
        start_websocket_server(AcceptEvent::AcceptFailed("io")),
        AcceptAction::Report("io")
    ));
    assert!(matches!(
        start_websocket_server::<&str>(AcceptEvent::HandshakeFailed),
        AcceptAction::AwaitNext
    ));
}

#[test]
fn a_failed_bind_ends_the_server() {
    assert!(matches!(
        start_websocket_server(AcceptEvent::BindFailed("in use")),
        AcceptAction::Finish(Err("in use"))
    ));
    assert!(matches!(start_websocket_server::<&str>(AcceptEvent::Bound), AcceptAction::AwaitNext));
    assert!(matches!(
        start_websocket_server::<&str>(AcceptEvent::ConnectionsEnded),
        AcceptAction::Finish(Ok(()))
    ));
}

#[test]
fn a_client_is_listed_before_it_is_read() {
    let mut clients = vec!['a', 'b'];
    let (session, action) = begin_session::<char, &str, &str>(&mut clients, 'c');
    assert_eq!(clients, vec!['a', 'b', 'c']);
    assert_eq!(session, Session::Reading);
    assert!(matches!(action, SocketAction::Read));
}

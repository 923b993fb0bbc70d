use ebb::bridge::{Connection, Delivery, Frame};
use ebb::protocol::{BingoMethod, CountdownMethod, WsCommand};

fn bingo() -> WsCommand {
    WsCommand::Bingo { method: BingoMethod::Next }
}

#[test]
fn valid_frame_is_forwarded() {
    let mut c = Connection::new();
    assert!(c.open());
    let cmd = WsCommand::Bulletin { preset: "p".to_string(), index: 2 };
    assert_eq!(c.on_frame(Frame::Text(Some(cmd.clone()))), Some(cmd));
    assert!(c.open());
}

#[test]
fn malformed_frame_is_discarded_and_connection_goes_on() {
    let mut c = Connection::new();
    assert_eq!(c.on_frame(Frame::Text(None)), None);
    assert!(c.open());
    assert_eq!(c.on_frame(Frame::Text(Some(bingo()))), Some(bingo()));
    assert!(c.open());
}

#[test]
fn other_frames_are_ignored() {
    let mut c = Connection::new();
    assert_eq!(c.on_frame(Frame::Other), None);
    assert!(c.open());
}

#[test]
fn close_frame_ends_the_connection() {
    let mut c = Connection::new();
    assert_eq!(c.on_frame(Frame::Close), None);
    assert!(!c.open());
    assert_eq!(c.on_frame(Frame::Text(Some(bingo()))), None);
    assert!(!c.open());
}

#[test]
fn transport_failure_ends_the_connection() {
    let mut c = Connection::new();
    assert_eq!(c.on_frame(Frame::Failed), None);
    assert!(!c.open());
}

#[test]
fn full_queue_drops_the_command_and_connection_goes_on() {
    let mut c = Connection::new();
    c.on_delivery(Delivery::Sent);
    assert!(c.open());
    c.on_delivery(Delivery::Full);
    assert!(c.open());
    let start = WsCommand::Countdown { method: CountdownMethod::Start };
    assert_eq!(c.on_frame(Frame::Text(Some(start.clone()))), Some(start));
}

#[test]
fn closed_queue_ends_the_connection() {
    let mut c = Connection::new();
    c.on_delivery(Delivery::Closed);
    assert!(!c.open());
    c.on_delivery(Delivery::Sent);
    assert!(!c.open());
}

#[test]
fn receive_forwards_to_the_command_queue() {
    let (sender, mut channel, _responses) = ebb::bridge::setup_websocket_server();
    let mut c = Connection::new();
    let first = WsCommand::Bulletin { preset: "p".to_string(), index: 1 };
    assert_eq!(c.receive(Frame::Text(Some(first.clone())), &sender), Some(Delivery::Sent));
    assert_eq!(c.receive(Frame::Text(None), &sender), None);
    assert_eq!(c.receive(Frame::Other, &sender), None);
    assert_eq!(c.receive(Frame::Text(Some(bingo())), &sender), Some(Delivery::Sent));
    assert!(c.open());
    assert_eq!(channel.drain(), vec![first, bingo()]);
    assert_eq!(channel.drain(), Vec::new());
}

#[test]
fn receive_after_close_forwards_nothing() {
    let (sender, mut channel, _responses) = ebb::bridge::setup_websocket_server();
    let mut c = Connection::new();
    assert_eq!(c.receive(Frame::Close, &sender), None);
    assert!(!c.open());
    assert_eq!(c.receive(Frame::Text(Some(bingo())), &sender), None);
    assert_eq!(channel.drain(), Vec::new());
}

#[test]
fn command_queue_holds_its_capacity_and_drops_the_rest() {
    let (sender, mut channel, _responses) = ebb::bridge::setup_websocket_server();
    assert_eq!(ebb::bridge::QUEUE_CAPACITY, 100);
    let mut c = Connection::new();
    for index in 0..100u32 {
        let cmd = WsCommand::Bulletin { preset: String::new(), index };
        assert_eq!(sender.offer(cmd), Delivery::Sent);
    }
    assert_eq!(sender.offer(bingo()), Delivery::Full);
    assert_eq!(c.receive(Frame::Text(Some(bingo())), &sender), Some(Delivery::Full));
    assert!(c.open());

    let drained = channel.drain();
    assert_eq!(drained.len(), 100);
    for (i, cmd) in drained.iter().enumerate() {
        assert_eq!(*cmd, WsCommand::Bulletin { preset: String::new(), index: i as u32 });
    }
    assert_eq!(c.receive(Frame::Text(Some(bingo())), &sender), Some(Delivery::Sent));
    assert_eq!(channel.drain(), vec![bingo()]);
}

#[test]
fn connection_ends_once_nobody_reads_the_command_queue() {
    let (sender, channel, _responses) = ebb::bridge::setup_websocket_server();
    drop(channel);
    let mut c = Connection::new();
    assert_eq!(c.receive(Frame::Text(Some(bingo())), &sender), Some(Delivery::Closed));
    assert!(!c.open());
    assert_eq!(c.receive(Frame::Text(Some(bingo())), &sender), None);
}

#[test]
fn senders_share_one_queue() {
    let (sender, mut channel, _responses) = ebb::bridge::setup_websocket_server();
    let other = sender.clone();
    assert_eq!(sender.offer(bingo()), Delivery::Sent);
    let start = WsCommand::Countdown { method: CountdownMethod::Start };
    assert_eq!(other.offer(start.clone()), Delivery::Sent);
    drop(sender);
    drop(other);
    assert_eq!(channel.drain(), vec![bingo(), start]);
}

#[test]
fn responses_reach_the_response_queue() {
    let (_sender, channel, mut responses) = ebb::bridge::setup_websocket_server();
    let response = ebb::protocol::WsResponse::Bingo(ebb::protocol::BingoResponse { current: 7, no: 1 });
    assert_eq!(channel.respond(response.clone()), Delivery::Sent);
    assert_eq!(responses.try_recv().ok(), Some(response.clone()));
    assert!(responses.try_recv().is_err());
    for _ in 0..100 {
        assert_eq!(channel.respond(response.clone()), Delivery::Sent);
    }
    assert_eq!(channel.respond(response.clone()), Delivery::Full);
    drop(responses);
    assert_eq!(channel.respond(response), Delivery::Closed);
}

#[test]
fn both_queues_are_made_to_hold_the_capacity() {
    let (sender, channel, responses) = ebb::bridge::setup_websocket_server();
    assert_eq!(channel.command_receiver.max_capacity(), ebb::bridge::QUEUE_CAPACITY);
    assert_eq!(sender.sender.max_capacity(), ebb::bridge::QUEUE_CAPACITY);
    assert_eq!(responses.max_capacity(), ebb::bridge::QUEUE_CAPACITY);
    assert_eq!(channel.response_sender.max_capacity(), ebb::bridge::QUEUE_CAPACITY);
    assert_eq!(channel.command_receiver.len(), 0);
    assert_eq!(responses.len(), 0);
}

#[test]
fn drain_takes_no_more_than_the_queue_holds_and_keeps_its_capacity() {
    let (sender, mut channel, _responses) = ebb::bridge::setup_websocket_server();
    for round in 0..3u32 {
        for index in 0..150u32 {
            sender.offer(WsCommand::Bulletin { preset: String::new(), index: round * 1000 + index });
        }
        let drained = channel.drain();
        assert_eq!(drained.len(), 100);
        assert_eq!(drained[0], WsCommand::Bulletin { preset: String::new(), index: round * 1000 });
        assert_eq!(
            drained[99],
            WsCommand::Bulletin { preset: String::new(), index: round * 1000 + 99 }
        );
        assert_eq!(channel.command_receiver.max_capacity(), 100);
        assert_eq!(channel.drain(), Vec::new());
    }
}

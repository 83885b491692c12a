use boinc_app_api::connection::{flush_connection, ClientState, OutgoingSlots};
use boinc_app_api::models::{
    AppStatusData, ControlMessage, Message, MsgChannel, ProcessControlRequest, StatusMessage,
    TrickleUpData,
};
use boinc_app_api::shmem::{AsyncSink, MSG_CHANNEL, SHARED_MEM};
use boinc_app_api::xml::ParseError;

fn fixture() -> AppStatusData {
    AppStatusData {
        current_cpu_time: "4".to_string(),
        checkpoint_cpu_time: "5".to_string(),
        want_network: true,
        fraction_done: "0.15".to_string(),
        other_pid: None,
        bytes_sent: Some("256".to_string()),
        bytes_received: Some("128".to_string()),
    }
}

#[test]
fn test_inmemory_stream() {
    let mut mem = SHARED_MEM::default();
    let mut client_connection = ClientState::new();
    let (c, data) = StatusMessage::AppStatus(fixture()).to_raw();
    assert!(client_connection.poll_ready());
    client_connection.start_send(MsgChannel::from(c), data);
    assert!(!client_connection.poll_ready());
    assert!(client_connection.poll_flush(&mut mem));
    assert!(client_connection.poll_ready());

    let result = mem.pull_status();
    assert_eq!(Some(StatusMessage::AppStatus(fixture())), result);
    assert_eq!(mem.pull_status(), None);
}

#[test]
fn slot_push_peek_pop() {
    let mut ch = MSG_CHANNEL::new();
    assert!(ch.is_empty());
    assert_eq!(ch.peek(), None);
    assert!(matches!(ch.push(b"hello".to_vec()), AsyncSink::Ready));
    assert!(!ch.is_empty());
    assert_eq!(ch.peek(), Some(b"hello".to_vec()));
    match ch.push(b"again".to_vec()) {
        AsyncSink::NotReady(v) => assert_eq!(v, b"again".to_vec()),
        AsyncSink::Ready => panic!("slot was full"),
    }
    assert_eq!(ch.pop(), Some(b"hello".to_vec()));
    assert!(ch.is_empty());
    assert_eq!(ch.pop(), None);
}

#[test]
fn slot_reads_at_most_1020_bytes() {
    let mut ch = MSG_CHANNEL::default();
    let long = vec![b'x'; 2000];
    ch.force_push(&long);
    assert_eq!(ch.peek(), Some(vec![b'x'; 1020]));
}

#[test]
fn slot_stops_at_zero_byte() {
    let mut ch = MSG_CHANNEL::new();
    ch.force_push(b"ab\0cd");
    assert_eq!(ch.peek(), Some(b"ab".to_vec()));
}

#[test]
fn slot_shorter_message_replaces_longer() {
    let mut ch = MSG_CHANNEL::new();
    ch.force_push(b"abcdef");
    ch.clear();
    ch.force_push(b"xy");
    assert_eq!(ch.peek(), Some(b"xy".to_vec()));
    ch.force_push(b"B");
    assert_eq!(ch.peek(), Some(b"B".to_vec()));
}

#[test]
fn receive_then_push_reads_new_message_only() {
    let mut mem = SHARED_MEM::default();
    let suspend = Message::Control(ControlMessage::ProcessControlRequest(ProcessControlRequest::Suspend));
    let quit = Message::Control(ControlMessage::ProcessControlRequest(ProcessControlRequest::Quit));
    assert!(matches!(mem.push(suspend), AsyncSink::Ready));
    assert_eq!(mem.receive(MsgChannel::ProcessControlRequest), Some(b"<suspend/>".to_vec()));
    assert!(matches!(mem.push(quit), AsyncSink::Ready));
    assert_eq!(mem.receive(MsgChannel::ProcessControlRequest), Some(b"<quit/>".to_vec()));
    assert!(mem.is_empty(MsgChannel::ProcessControlRequest));
}

#[test]
fn memory_push_and_pull_control() {
    let mut mem = SHARED_MEM::new();
    let m = Message::Control(ControlMessage::ProcessControlRequest(ProcessControlRequest::Quit));
    assert!(matches!(mem.push(m.clone()), AsyncSink::Ready));
    assert!(!mem.is_empty(MsgChannel::ProcessControlRequest));
    assert_eq!(mem.peek(MsgChannel::ProcessControlRequest), Some(b"<quit/>".to_vec()));
    match mem.push(m.clone()) {
        AsyncSink::NotReady(back) => assert_eq!(back, m),
        AsyncSink::Ready => panic!("channel was full"),
    }
    mem.push(Message::Control(ControlMessage::GraphicsRequest));
    assert_eq!(
        mem.pull_control(),
        Some(ControlMessage::ProcessControlRequest(ProcessControlRequest::Quit))
    );
    assert_eq!(mem.pull_control(), Some(ControlMessage::GraphicsRequest));
    assert_eq!(mem.pull_control(), None);
}

#[test]
fn memory_force_and_clear() {
    let mut mem = SHARED_MEM::new();
    mem.force_unchecked((MsgChannel::TrickleUp, b"one".to_vec()));
    mem.force_unchecked((MsgChannel::TrickleUp, b"two".to_vec()));
    assert_eq!(mem.receive(MsgChannel::TrickleUp), Some(b"two".to_vec()));
    assert_eq!(mem.receive(MsgChannel::TrickleUp), None);
    mem.force(Message::Status(StatusMessage::ProcessControlReply));
    assert!(!mem.is_empty(MsgChannel::ProcessControlReply));
    mem.clear(MsgChannel::ProcessControlReply);
    assert!(mem.is_empty(MsgChannel::ProcessControlReply));
}

#[test]
fn memory_push_unchecked_hands_back_when_full() {
    let mut mem = SHARED_MEM::new();
    assert!(matches!(mem.push_unchecked((MsgChannel::Heartbeat, b"a".to_vec())), AsyncSink::Ready));
    match mem.push_unchecked((MsgChannel::Heartbeat, b"b".to_vec())) {
        AsyncSink::NotReady((c, v)) => {
            assert_eq!(c, MsgChannel::Heartbeat);
            assert_eq!(v, b"b".to_vec());
        }
        AsyncSink::Ready => panic!("channel was full"),
    }
    assert_eq!(mem.get_channel(MsgChannel::Heartbeat).peek(), Some(b"a".to_vec()));
    mem.get_channel_mut(MsgChannel::Heartbeat).clear();
    assert!(mem.is_empty(MsgChannel::Heartbeat));
}

#[test]
fn try_pull_reports_unreadable_message_and_keeps_it() {
    let mut mem = SHARED_MEM::new();
    mem.force_unchecked((MsgChannel::AppStatus, b"<current_cpu_time>".to_vec()));
    assert_eq!(mem.try_pull_status(), Some(Err(ParseError::MalformedXml)));
    assert!(!mem.is_empty(MsgChannel::AppStatus));
    mem.force_unchecked((MsgChannel::ProcessControlRequest, b"<halt/>".to_vec()));
    assert_eq!(mem.try_pull_control(), Some(Err(ParseError::InvalidVariant)));
}

#[test]
fn try_pull_takes_readable_message() {
    let mut mem = SHARED_MEM::new();
    assert_eq!(mem.try_pull_status(), None);
    let up = TrickleUpData { have_new_trickle_up: true, have_new_upload_file: false };
    mem.push(Message::Status(StatusMessage::TrickleUp(up)));
    assert_eq!(mem.try_pull_status(), Some(Ok(StatusMessage::TrickleUp(up))));
    assert!(mem.is_empty(MsgChannel::TrickleUp));
    assert_eq!(mem.try_pull_control(), None);
}

#[test]
fn flush_keeps_messages_for_full_channels() {
    let mut mem = SHARED_MEM::new();
    mem.force_unchecked((MsgChannel::Heartbeat, b"busy".to_vec()));
    let mut slots = OutgoingSlots::new();
    assert!(slots.is_empty());
    assert_eq!(slots.insert(MsgChannel::Heartbeat, b"hb".to_vec()), None);
    assert_eq!(slots.insert(MsgChannel::TrickleDown, b"td".to_vec()), None);
    assert!(!flush_connection(&mut slots, &mut mem));
    assert_eq!(mem.peek(MsgChannel::Heartbeat), Some(b"busy".to_vec()));
    assert_eq!(mem.peek(MsgChannel::TrickleDown), Some(b"td".to_vec()));
    mem.clear(MsgChannel::Heartbeat);
    assert!(flush_connection(&mut slots, &mut mem));
    assert_eq!(mem.peek(MsgChannel::Heartbeat), Some(b"hb".to_vec()));
    assert_eq!(slots.remove(MsgChannel::Heartbeat), None);
}

#[test]
fn client_state_try_start_send_and_close() {
    let mut mem = SHARED_MEM::new();
    let mut state = ClientState::new();
    assert_eq!(state.try_start_send(MsgChannel::AppStatus, b"a".to_vec()), None);
    assert_eq!(state.try_start_send(MsgChannel::AppStatus, b"b".to_vec()), Some(b"b".to_vec()));
    assert!(state.poll_close(&mut mem));
    assert_eq!(mem.peek(MsgChannel::AppStatus), Some(b"a".to_vec()));
}

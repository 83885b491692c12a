use boinc_app_api::models::{
    AppStatusData, ControlMessage, ControlMsgChannel, GraphicsReplyData, Heartbeat, Message,
    MsgChannel, ProcessControlRequest, StatusMessage, StatusMsgChannel, TrickleDownData,
    TrickleUpData,
};
use boinc_app_api::xml::{parse_xml_data, ParseError, XmlField};

#[test]
fn test_from_ipc() {
    let expectation = StatusMessage::AppStatus(AppStatusData {
        current_cpu_time: "9999.0".to_string(),
        checkpoint_cpu_time: "8888.0".to_string(),
        want_network: true,
        fraction_done: "0.1".to_string(),
        other_pid: Some(345),

        bytes_received: None,
        bytes_sent: None,
    });

    let result = StatusMessage::from_raw(
        StatusMsgChannel::AppStatus,
        "
            <current_cpu_time>9999.0</current_cpu_time>\n
            <checkpoint_cpu_time>8888.0</checkpoint_cpu_time>\n
            <want_network />
            <fraction_done>0.1</fraction_done>
            <other_pid>345</other_pid>
        "
        .into(),
    )
    .unwrap();

    assert_eq!(expectation, result);
}

#[test]
fn test_graphics_reply_parse() {
    let expectation = GraphicsReplyData {
        web_graphics_url: Some("my_url_a".into()),
        remote_desktop_addr: Some("my_vnc_url".into()),
    };

    let fixture = "<web_graphics_url>my_url_a</web_graphics_url><remote_desktop_addr>my_vnc_url</remote_desktop_addr>".as_bytes();

    assert_eq!(expectation, GraphicsReplyData::from_xml(fixture).unwrap());
}

#[test]
fn test_trickle_up_parse() {
    let expectation = TrickleUpData {
        have_new_trickle_up: false,
        have_new_upload_file: true,
    };

    let fixture = "<have_new_upload_file>1</have_new_upload_file>".as_bytes();

    assert_eq!(expectation, TrickleUpData::from_xml(fixture).unwrap());
}

#[test]
fn channel_lists_are_complete() {
    assert_eq!(
        ControlMsgChannel::enum_iter(),
        vec![
            ControlMsgChannel::ProcessControlRequest,
            ControlMsgChannel::GraphicsRequest,
            ControlMsgChannel::Heartbeat,
            ControlMsgChannel::TrickleDown,
        ]
    );
    assert_eq!(
        StatusMsgChannel::enum_iter(),
        vec![
            StatusMsgChannel::ProcessControlReply,
            StatusMsgChannel::GraphicsReply,
            StatusMsgChannel::AppStatus,
            StatusMsgChannel::TrickleUp,
        ]
    );
}

#[test]
fn channels_map_to_slots() {
    assert_eq!(MsgChannel::from(ControlMsgChannel::Heartbeat), MsgChannel::Heartbeat);
    assert_eq!(MsgChannel::from(ControlMsgChannel::TrickleDown), MsgChannel::TrickleDown);
    assert_eq!(MsgChannel::from(StatusMsgChannel::AppStatus), MsgChannel::AppStatus);
    assert_eq!(MsgChannel::from(StatusMsgChannel::ProcessControlReply), MsgChannel::ProcessControlReply);
}

#[test]
fn process_control_request_writes_and_reads() {
    assert_eq!(ProcessControlRequest::Quit.to_xml(), b"<quit/>".to_vec());
    assert_eq!(ProcessControlRequest::Abort.to_xml(), b"<abort/>".to_vec());
    for r in [
        ProcessControlRequest::Quit,
        ProcessControlRequest::Suspend,
        ProcessControlRequest::Resume,
        ProcessControlRequest::Abort,
    ] {
        assert_eq!(ProcessControlRequest::from_xml(&r.to_xml()), Ok(r));
    }
}

#[test]
fn process_control_request_takes_last_element() {
    assert_eq!(
        ProcessControlRequest::from_xml(b"<quit/><resume/>"),
        Ok(ProcessControlRequest::Resume)
    );
}

#[test]
fn process_control_request_errors() {
    assert_eq!(ProcessControlRequest::from_xml(b""), Err(ParseError::NoVariant));
    assert_eq!(ProcessControlRequest::from_xml(b"<stop/>"), Err(ParseError::InvalidVariant));
    assert_eq!(ProcessControlRequest::from_xml(b"<quit>"), Err(ParseError::MalformedXml));
}

#[test]
fn graphics_reply_writes_exact_text() {
    let d = GraphicsReplyData {
        web_graphics_url: Some("http://x".to_string()),
        remote_desktop_addr: None,
    };
    assert_eq!(d.to_xml(), b"<web_graphics_url>http://x</web_graphics_url>\n".to_vec());
    assert_eq!(GraphicsReplyData::from_xml(&d.to_xml()), Ok(d));
    let empty = GraphicsReplyData { web_graphics_url: None, remote_desktop_addr: None };
    assert_eq!(empty.to_xml(), Vec::<u8>::new());
    assert_eq!(GraphicsReplyData::from_xml(&empty.to_xml()), Ok(empty));
}

#[test]
fn heartbeat_writes_and_reads() {
    let h = Heartbeat { wss: Some("1024".to_string()), max_wss: Some("2048.5".to_string()) };
    assert_eq!(h.to_xml(), b"<wss>1024</wss>\n<max_wss>2048.5</max_wss>\n".to_vec());
    assert_eq!(Heartbeat::from_xml(&h.to_xml()), Ok(h));
}

fn sample_status() -> AppStatusData {
    AppStatusData {
        current_cpu_time: "4".to_string(),
        checkpoint_cpu_time: "5".to_string(),
        want_network: true,
        fraction_done: "0.15".to_string(),
        other_pid: Some(-42),
        bytes_sent: Some("256".to_string()),
        bytes_received: Some("128".to_string()),
    }
}

#[test]
fn app_status_writes_exact_text() {
    let s = sample_status();
    let expected = "<current_cpu_time>4</current_cpu_time>\n\
<checkpoint_cpu_time>5</checkpoint_cpu_time>\n\
<want_network>1</want_network>\n\
<fraction_done>0.15</fraction_done>\n\
<other_pid>-42</other_pid>\n\
<bytes_sent>256</bytes_sent>\n\
<bytes_received>128</bytes_received>\n";
    assert_eq!(s.to_xml(), expected.as_bytes().to_vec());
    assert_eq!(AppStatusData::from_xml(&s.to_xml()), Ok(s));
}

#[test]
fn app_status_errors() {
    assert_eq!(
        AppStatusData::from_xml(b"<checkpoint_cpu_time>1</checkpoint_cpu_time><fraction_done>0</fraction_done>"),
        Err(ParseError::MissingValue)
    );
    assert_eq!(
        AppStatusData::from_xml(
            b"<current_cpu_time>1</current_cpu_time><checkpoint_cpu_time>1</checkpoint_cpu_time><fraction_done>0</fraction_done><other_pid>x1</other_pid>"
        ),
        Err(ParseError::InvalidValue)
    );
    assert_eq!(
        AppStatusData::from_xml(
            b"<current_cpu_time>1</current_cpu_time><checkpoint_cpu_time>1</checkpoint_cpu_time><fraction_done>0</fraction_done><other_pid>9223372036854775808</other_pid>"
        ),
        Err(ParseError::InvalidValue)
    );
}

#[test]
fn app_status_flag_zero_is_unset() {
    let r = AppStatusData::from_xml(
        b"<current_cpu_time>1</current_cpu_time><checkpoint_cpu_time>2</checkpoint_cpu_time><want_network>0</want_network><fraction_done>0.5</fraction_done>",
    )
    .unwrap();
    assert!(!r.want_network);
    assert_eq!(r.other_pid, None);
    assert_eq!(r.bytes_sent, None);
}

#[test]
fn trickle_flags_write_and_read() {
    let d = TrickleDownData { have_new_trickle_down: true, upload_file_status: false };
    assert_eq!(d.to_xml(), b"<have_new_trickle_down/>\n".to_vec());
    assert_eq!(TrickleDownData::from_xml(&d.to_xml()), Ok(d));
    let u = TrickleUpData { have_new_trickle_up: true, have_new_upload_file: true };
    assert_eq!(u.to_xml(), b"<have_new_trickle_up />\n<have_new_upload_file />\n".to_vec());
    assert_eq!(TrickleUpData::from_xml(&u.to_xml()), Ok(u));
}

#[test]
fn messages_name_their_channel_and_body() {
    let m = ControlMessage::ProcessControlRequest(ProcessControlRequest::Suspend);
    assert_eq!(m.channel(), ControlMsgChannel::ProcessControlRequest);
    assert_eq!(m.to_raw(), (ControlMsgChannel::ProcessControlRequest, b"<suspend/>".to_vec()));
    assert_eq!(ControlMessage::GraphicsRequest.to_raw(), (ControlMsgChannel::GraphicsRequest, vec![]));
    assert_eq!(
        StatusMessage::ProcessControlReply.to_raw(),
        (StatusMsgChannel::ProcessControlReply, vec![])
    );
    let all = Message::Status(StatusMessage::TrickleUp(TrickleUpData {
        have_new_trickle_up: false,
        have_new_upload_file: true,
    }));
    assert_eq!(all.to_raw(), (MsgChannel::TrickleUp, b"<have_new_upload_file />\n".to_vec()));
}

#[test]
fn messages_read_back_from_raw() {
    let msgs = vec![
        ControlMessage::ProcessControlRequest(ProcessControlRequest::Resume),
        ControlMessage::GraphicsRequest,
        ControlMessage::Heartbeat(Heartbeat { wss: Some("1.5".to_string()), max_wss: None }),
        ControlMessage::TrickleDown(TrickleDownData { have_new_trickle_down: false, upload_file_status: true }),
    ];
    for m in msgs {
        let (c, b) = m.to_raw();
        assert_eq!(ControlMessage::from_raw(c, b), Ok(m));
    }
    let (c, b) = StatusMessage::AppStatus(sample_status()).to_raw();
    assert_eq!(StatusMessage::from_raw(c, b), Ok(StatusMessage::AppStatus(sample_status())));
    assert_eq!(
        StatusMessage::from_raw(StatusMsgChannel::ProcessControlReply, b"anything".to_vec()),
        Ok(StatusMessage::ProcessControlReply)
    );
}

#[test]
fn from_fields_reads_given_elements() {
    let fields = vec![
        XmlField { name: "web_graphics_url".to_string(), text: Some("a".to_string()) },
        XmlField { name: "web_graphics_url".to_string(), text: Some("b".to_string()) },
    ];
    assert_eq!(
        GraphicsReplyData::from_fields(&fields),
        Ok(GraphicsReplyData { web_graphics_url: Some("a".to_string()), remote_desktop_addr: None })
    );
    let flags = vec![XmlField { name: "have_new_trickle_up".to_string(), text: None }];
    assert_eq!(
        TrickleUpData::from_fields(&flags),
        Ok(TrickleUpData { have_new_trickle_up: true, have_new_upload_file: false })
    );
}

#[test]
fn parse_xml_data_reads_top_level_elements() {
    let f = parse_xml_data(b"<a>x</a><b/>").unwrap();
    assert_eq!(
        f,
        vec![
            XmlField { name: "a".to_string(), text: Some("x".to_string()) },
            XmlField { name: "b".to_string(), text: None },
        ]
    );
    assert_eq!(parse_xml_data(b"<a>"), Err(ParseError::MalformedXml));
}

#[test]
fn parse_xml_data_replaces_invalid_utf8() {
    let f = parse_xml_data(b"<a>x\xffy</a>").unwrap();
    assert_eq!(f[0].text, Some("x\u{fffd}y".to_string()));
}

#[test]
fn numbers_must_be_numbers() {
    assert_eq!(Heartbeat::from_xml(b"<wss>lots</wss>"), Err(ParseError::InvalidValue));
    assert_eq!(
        Heartbeat::from_xml(b"<max_wss>1e9</max_wss>"),
        Ok(Heartbeat { wss: None, max_wss: Some("1e9".to_string()) })
    );
    assert_eq!(
        AppStatusData::from_xml(
            b"<current_cpu_time>x</current_cpu_time><checkpoint_cpu_time>1</checkpoint_cpu_time><fraction_done>0</fraction_done>"
        ),
        Err(ParseError::InvalidValue)
    );
    assert_eq!(
        AppStatusData::from_xml(
            b"<current_cpu_time>1</current_cpu_time><checkpoint_cpu_time>1</checkpoint_cpu_time><fraction_done>0</fraction_done><bytes_received>many</bytes_received>"
        ),
        Err(ParseError::InvalidValue)
    );
}

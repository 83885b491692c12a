use vstd::prelude::*;
use vstd::string::*;
use vstd::utf8::*;

use crate::num::{
    format_i64, law_parse_format_i64, spec_format_i64, spec_is_float_text, spec_parse_i64,
};
use crate::xml::{
    fields_view, find_bool, find_float0, find_float1, find_i64, find_value0, group_find_lemmas,
    group_render_lemmas, opt_view, parse_xml_data, parsed_fields, render_fields, spec_find,
    spec_find_bool, spec_find_float0,
    spec_find_float1, spec_find_i64, spec_find_text, FieldView, ParseError, XmlField,
};

verus! {

/// Channels on which the client sends to the application.
#[derive(Clone, Copy, Debug, PartialEq, Eq, Hash, Structural)]
pub enum ControlMsgChannel {
    ProcessControlRequest,
    GraphicsRequest,
    Heartbeat,
    TrickleDown,
}

impl ControlMsgChannel {
    /// Every control channel, each once, in the order in which they are polled.
    pub open spec fn spec_all() -> Seq<ControlMsgChannel> {
        seq![
            ControlMsgChannel::ProcessControlRequest,
            ControlMsgChannel::GraphicsRequest,
            ControlMsgChannel::Heartbeat,
            ControlMsgChannel::TrickleDown,
        ]
    }

    /// Every channel of this kind, in polling order.
    pub fn enum_iter() -> (r: Vec<Self>)
        ensures
            r@ == Self::spec_all(),
    {
        let r = vec![
            ControlMsgChannel::ProcessControlRequest,
            ControlMsgChannel::GraphicsRequest,
            ControlMsgChannel::Heartbeat,
            ControlMsgChannel::TrickleDown,
        ];
        assert(r@ =~= Self::spec_all());
        r
    }
}

/// The control channels are listed once each.
pub proof fn law_control_channels_listed_once(c: ControlMsgChannel)
    ensures
        ControlMsgChannel::spec_all().contains(c),
        forall|i: int, j: int|
            0 <= i < j < 4 ==> ControlMsgChannel::spec_all()[i] != ControlMsgChannel::spec_all()[j],
{
    let all = ControlMsgChannel::spec_all();
    match c {
        ControlMsgChannel::ProcessControlRequest => assert(all[0] == c),
        ControlMsgChannel::GraphicsRequest => assert(all[1] == c),
        ControlMsgChannel::Heartbeat => assert(all[2] == c),
        ControlMsgChannel::TrickleDown => assert(all[3] == c),
    }
}

/// Channels on which the application reports to the client.
#[derive(Clone, Copy, Debug, PartialEq, Eq, Hash, Structural)]
pub enum StatusMsgChannel {
    ProcessControlReply,
    GraphicsReply,
    AppStatus,
    TrickleUp,
}

impl StatusMsgChannel {
    /// Every status channel, each once, in the order in which they are polled.
    pub open spec fn spec_all() -> Seq<StatusMsgChannel> {
        seq![
            StatusMsgChannel::ProcessControlReply,
            StatusMsgChannel::GraphicsReply,
            StatusMsgChannel::AppStatus,
            StatusMsgChannel::TrickleUp,
        ]
    }

    /// Every channel of this kind, in polling order.
    pub fn enum_iter() -> (r: Vec<Self>)
        ensures
            r@ == Self::spec_all(),
    {
        let r = vec![
            StatusMsgChannel::ProcessControlReply,
            StatusMsgChannel::GraphicsReply,
            StatusMsgChannel::AppStatus,
            StatusMsgChannel::TrickleUp,
        ];
        assert(r@ =~= Self::spec_all());
        r
    }
}

/// The status channels are listed once each.
pub proof fn law_status_channels_listed_once(c: StatusMsgChannel)
    ensures
        StatusMsgChannel::spec_all().contains(c),
        forall|i: int, j: int|
            0 <= i < j < 4 ==> StatusMsgChannel::spec_all()[i] != StatusMsgChannel::spec_all()[j],
{
    let all = StatusMsgChannel::spec_all();
    match c {
        StatusMsgChannel::ProcessControlReply => assert(all[0] == c),
        StatusMsgChannel::GraphicsReply => assert(all[1] == c),
        StatusMsgChannel::AppStatus => assert(all[2] == c),
        StatusMsgChannel::TrickleUp => assert(all[3] == c),
    }
}

/// All eight slots of the shared memory segment.
#[derive(Clone, Copy, Debug, PartialEq, Eq, Hash, Structural)]
pub enum MsgChannel {
    ProcessControlRequest,
    ProcessControlReply,
    GraphicsRequest,
    GraphicsReply,
    Heartbeat,
    AppStatus,
    TrickleUp,
    TrickleDown,
}

/// The slot of the shared memory segment that a control channel uses.
pub open spec fn control_slot(m: ControlMsgChannel) -> MsgChannel {
    match m {
        ControlMsgChannel::ProcessControlRequest => MsgChannel::ProcessControlRequest,
        ControlMsgChannel::GraphicsRequest => MsgChannel::GraphicsRequest,
        ControlMsgChannel::Heartbeat => MsgChannel::Heartbeat,
        ControlMsgChannel::TrickleDown => MsgChannel::TrickleDown,
    }
}

/// The slot of the shared memory segment that a status channel uses.
pub open spec fn status_slot(m: StatusMsgChannel) -> MsgChannel {
    match m {
        StatusMsgChannel::ProcessControlReply => MsgChannel::ProcessControlReply,
        StatusMsgChannel::GraphicsReply => MsgChannel::GraphicsReply,
        StatusMsgChannel::AppStatus => MsgChannel::AppStatus,
        StatusMsgChannel::TrickleUp => MsgChannel::TrickleUp,
    }
}

impl From<ControlMsgChannel> for MsgChannel {
    fn from(m: ControlMsgChannel) -> (r: MsgChannel) {
        match m {
            ControlMsgChannel::ProcessControlRequest => MsgChannel::ProcessControlRequest,
            ControlMsgChannel::GraphicsRequest => MsgChannel::GraphicsRequest,
            ControlMsgChannel::Heartbeat => MsgChannel::Heartbeat,
            ControlMsgChannel::TrickleDown => MsgChannel::TrickleDown,
        }
    }
}

impl vstd::std_specs::convert::FromSpecImpl<ControlMsgChannel> for MsgChannel {
    open spec fn obeys_from_spec() -> bool {
        true
    }

    open spec fn from_spec(m: ControlMsgChannel) -> MsgChannel {
        control_slot(m)
    }
}

impl From<StatusMsgChannel> for MsgChannel {
    fn from(m: StatusMsgChannel) -> (r: MsgChannel) {
        match m {
            StatusMsgChannel::ProcessControlReply => MsgChannel::ProcessControlReply,
            StatusMsgChannel::GraphicsReply => MsgChannel::GraphicsReply,
            StatusMsgChannel::AppStatus => MsgChannel::AppStatus,
            StatusMsgChannel::TrickleUp => MsgChannel::TrickleUp,
        }
    }
}

impl vstd::std_specs::convert::FromSpecImpl<StatusMsgChannel> for MsgChannel {
    open spec fn obeys_from_spec() -> bool {
        true
    }

    open spec fn from_spec(m: StatusMsgChannel) -> MsgChannel {
        status_slot(m)
    }
}

/// Control and status channels use disjoint slots, and no two channels of
/// one kind share a slot.
pub proof fn law_slots_distinct(a: ControlMsgChannel, b: ControlMsgChannel, s: StatusMsgChannel, t: StatusMsgChannel)
    ensures
        control_slot(a) == control_slot(b) ==> a == b,
        status_slot(s) == status_slot(t) ==> s == t,
        control_slot(a) != status_slot(s),
{
}

/// `name` equals the text `lit`.
fn name_is(name: &String, lit: &str) -> (r: bool)
    ensures
        r == (name@ == lit@),
{
    *name == String::from_str(lit)
}

/// The body as bytes: the UTF-8 encoding of `out`.
fn into_bytes(out: String) -> (r: Vec<u8>)
    ensures
        r@ == encode_utf8(out@),
{
    out.as_str().as_bytes_vec()
}

/// `<name>text</name>` and a line break, written with the opening tag `open`
/// and the closing tag `close`.
pub open spec fn element(open: Seq<char>, text: Seq<char>, close: Seq<char>) -> Seq<char> {
    open + text + close
}

/// An element for an optional value: nothing where the value is absent.
pub open spec fn opt_element(open: Seq<char>, text: Option<Seq<char>>, close: Seq<char>) -> Seq<char> {
    match text {
        Some(t) => element(open, t, close),
        None => Seq::empty(),
    }
}

/// The element read back from an element with text `text`.
pub open spec fn opt_field(name: Seq<char>, text: Option<Seq<char>>) -> Seq<FieldView> {
    match text {
        Some(t) => seq![(name, Some(t))],
        None => Seq::empty(),
    }
}

/// The element read back from an empty element `name`, written only when `present`.
pub open spec fn flag_field(name: Seq<char>, present: bool) -> Seq<FieldView> {
    if present {
        seq![(name, None)]
    } else {
        Seq::empty()
    }
}

/// Looking an element up among those read back from an optional value.
pub broadcast proof fn lemma_find_opt_field(name: Seq<char>, text: Option<Seq<char>>, key: Seq<char>)
    ensures
        #[trigger] spec_find(opt_field(name, text), key) == if text is Some && name == key {
            Some((name, text))
        } else {
            None
        },
{
    broadcast use group_find_lemmas;

}

/// Looking an element up among those read back from a flag.
pub broadcast proof fn lemma_find_flag_field(name: Seq<char>, present: bool, key: Seq<char>)
    ensures
        #[trigger] spec_find(flag_field(name, present), key) == if present && name == key {
            Some((name, None::<Seq<char>>))
        } else {
            None
        },
{
    broadcast use group_find_lemmas;

}

/// Appends an element for an optional value.
fn append_opt(out: &mut String, open: &str, text: &Option<String>, close: &str)
    ensures
        final(out)@ == old(out)@ + opt_element(open@, opt_view(*text), close@),
{
    match text {
        Some(t) => {
            out.append(open);
            out.append(t.as_str());
            out.append(close);
        },
        None => {
            assert(old(out)@ + Seq::<char>::empty() =~= old(out)@);
        },
    }
}

/// A request from the client to the application to change its run state.
#[derive(Clone, Copy, Debug, PartialEq, Eq, Structural)]
pub enum ProcessControlRequest {
    Quit,
    Suspend,
    Resume,
    Abort,
}

impl ProcessControlRequest {
    /// The XML body of this request.
    pub open spec fn spec_xml(self) -> Seq<char> {
        match self {
            ProcessControlRequest::Quit => "<quit/>"@,
            ProcessControlRequest::Suspend => "<suspend/>"@,
            ProcessControlRequest::Resume => "<resume/>"@,
            ProcessControlRequest::Abort => "<abort/>"@,
        }
    }

    /// The elements that the body of this request holds.
    pub open spec fn spec_fields(self) -> Seq<FieldView> {
        match self {
            ProcessControlRequest::Quit => seq![("quit"@, None)],
            ProcessControlRequest::Suspend => seq![("suspend"@, None)],
            ProcessControlRequest::Resume => seq![("resume"@, None)],
            ProcessControlRequest::Abort => seq![("abort"@, None)],
        }
    }

    /// The request named by the last element of a body.
    pub open spec fn spec_from_fields(f: Seq<FieldView>) -> Result<Self, ParseError> {
        if f.len() == 0 {
            Err(ParseError::NoVariant)
        } else if f.last().0 == "quit"@ {
            Ok(ProcessControlRequest::Quit)
        } else if f.last().0 == "suspend"@ {
            Ok(ProcessControlRequest::Suspend)
        } else if f.last().0 == "resume"@ {
            Ok(ProcessControlRequest::Resume)
        } else if f.last().0 == "abort"@ {
            Ok(ProcessControlRequest::Abort)
        } else {
            Err(ParseError::InvalidVariant)
        }
    }

    /// The request read from the body `b`.
    pub open spec fn spec_from_xml(b: Seq<u8>) -> Result<Self, ParseError> {
        match parsed_fields(b) {
            Some(f) => Self::spec_from_fields(f),
            None => Err(ParseError::MalformedXml),
        }
    }

    /// Reads the value from the top-level elements of its body.
    pub fn from_fields(fields: &Vec<XmlField>) -> (r: Result<Self, ParseError>)
        ensures
            r == Self::spec_from_fields(fields_view(fields@)),
    {
        let n: usize = fields.len();
        if n == 0 {
            return Err(ParseError::NoVariant);
        }
        let name = &fields[n - 1].name;
        assert(fields_view(fields@).last().0 == name@);
        if name_is(name, "quit") {
            Ok(ProcessControlRequest::Quit)
        } else if name_is(name, "suspend") {
            Ok(ProcessControlRequest::Suspend)
        } else if name_is(name, "resume") {
            Ok(ProcessControlRequest::Resume)
        } else if name_is(name, "abort") {
            Ok(ProcessControlRequest::Abort)
        } else {
            Err(ParseError::InvalidVariant)
        }
    }

    /// Reads the value from its XML body.
    pub fn from_xml(s: &[u8]) -> (r: Result<Self, ParseError>)
        ensures
            r == Self::spec_from_xml(s@),
    {
        let fields = parse_xml_data(s)?;
        Self::from_fields(&fields)
    }

    /// Writes the XML body of the value.
    pub fn to_xml(&self) -> (r: Vec<u8>)
        ensures
            r@ == encode_utf8(self.spec_xml()),
    {
        let s = match *self {
            ProcessControlRequest::Quit => "<quit/>",
            ProcessControlRequest::Suspend => "<suspend/>",
            ProcessControlRequest::Resume => "<resume/>",
            ProcessControlRequest::Abort => "<abort/>",
        };
        into_bytes(String::from_str(s))
    }
}

/// Where the application offers its graphics.
#[derive(Clone, Debug, PartialEq)]
pub struct GraphicsReplyData {
    pub web_graphics_url: Option<String>,
    pub remote_desktop_addr: Option<String>,
}

/// The value of a `GraphicsReplyData`.
pub struct GraphicsReplyDataView {
    pub web_graphics_url: Option<Seq<char>>,
    pub remote_desktop_addr: Option<Seq<char>>,
}

impl View for GraphicsReplyData {
    type V = GraphicsReplyDataView;

    open spec fn view(&self) -> GraphicsReplyDataView {
        GraphicsReplyDataView {
            web_graphics_url: opt_view(self.web_graphics_url),
            remote_desktop_addr: opt_view(self.remote_desktop_addr),
        }
    }
}

impl GraphicsReplyDataView {
    pub open spec fn spec_xml(self) -> Seq<char> {
        opt_element("<web_graphics_url>"@, self.web_graphics_url, "</web_graphics_url>\n"@)
            + opt_element("<remote_desktop_addr>"@, self.remote_desktop_addr, "</remote_desktop_addr>\n"@)
    }

    pub open spec fn spec_fields(self) -> Seq<FieldView> {
        opt_field("web_graphics_url"@, self.web_graphics_url) + opt_field(
            "remote_desktop_addr"@,
            self.remote_desktop_addr,
        )
    }

    pub open spec fn spec_from_fields(f: Seq<FieldView>) -> Result<Self, ParseError> {
        Ok(
            GraphicsReplyDataView {
                web_graphics_url: spec_find_text(f, "web_graphics_url"@),
                remote_desktop_addr: spec_find_text(f, "remote_desktop_addr"@),
            },
        )
    }

    pub open spec fn spec_from_xml(b: Seq<u8>) -> Result<Self, ParseError> {
        match parsed_fields(b) {
            Some(f) => Self::spec_from_fields(f),
            None => Err(ParseError::MalformedXml),
        }
    }
}

impl GraphicsReplyData {
    /// Reads the value from the top-level elements of its body.
    pub fn from_fields(fields: &Vec<XmlField>) -> (r: Result<Self, ParseError>)
        ensures
            r matches Ok(v) && GraphicsReplyDataView::spec_from_fields(fields_view(fields@)) == Ok::<GraphicsReplyDataView, ParseError>(v@),
    {
        Ok(
            GraphicsReplyData {
                web_graphics_url: find_value0(fields, "web_graphics_url"),
                remote_desktop_addr: find_value0(fields, "remote_desktop_addr"),
            },
        )
    }

    /// Reads the value from its XML body.
    pub fn from_xml(s: &[u8]) -> (r: Result<Self, ParseError>)
        ensures
            r matches Ok(v) ==> GraphicsReplyDataView::spec_from_xml(s@) == Ok::<GraphicsReplyDataView, ParseError>(v@),
            r matches Err(e) ==> GraphicsReplyDataView::spec_from_xml(s@) == Err::<GraphicsReplyDataView, ParseError>(e),
    {
        let fields = parse_xml_data(s)?;
        Self::from_fields(&fields)
    }

    /// Writes the XML body of the value.
    pub fn to_xml(&self) -> (r: Vec<u8>)
        ensures
            r@ == encode_utf8(self@.spec_xml()),
    {
        let mut out = String::new();
        append_opt(&mut out, "<web_graphics_url>", &self.web_graphics_url, "</web_graphics_url>\n");
        append_opt(&mut out, "<remote_desktop_addr>", &self.remote_desktop_addr, "</remote_desktop_addr>\n");
        assert(out@ =~= self@.spec_xml());
        into_bytes(out)
    }
}

/// Memory use reported to the application; each value is kept as the text of
/// a number, which `from_xml` accepts only where `str::parse::<f64>` would.
#[derive(Clone, Debug, PartialEq)]
pub struct Heartbeat {
    pub wss: Option<String>,
    pub max_wss: Option<String>,
}

/// The value of a `Heartbeat`.
pub struct HeartbeatView {
    pub wss: Option<Seq<char>>,
    pub max_wss: Option<Seq<char>>,
}

impl View for Heartbeat {
    type V = HeartbeatView;

    open spec fn view(&self) -> HeartbeatView {
        HeartbeatView { wss: opt_view(self.wss), max_wss: opt_view(self.max_wss) }
    }
}

impl HeartbeatView {
    pub open spec fn spec_xml(self) -> Seq<char> {
        opt_element("<wss>"@, self.wss, "</wss>\n"@) + opt_element(
            "<max_wss>"@,
            self.max_wss,
            "</max_wss>\n"@,
        )
    }

    pub open spec fn spec_fields(self) -> Seq<FieldView> {
        opt_field("wss"@, self.wss) + opt_field("max_wss"@, self.max_wss)
    }

    pub open spec fn spec_from_fields(f: Seq<FieldView>) -> Result<Self, ParseError> {
        match spec_find_float0(f, "wss"@) {
            Err(e) => Err(e),
            Ok(wss) => match spec_find_float0(f, "max_wss"@) {
                Err(e) => Err(e),
                Ok(max_wss) => Ok(HeartbeatView { wss, max_wss }),
            },
        }
    }

    /// Each value present is text that `str::parse::<f64>` accepts.
    pub open spec fn numbers_valid(self) -> bool {
        opt_float_text(self.wss) && opt_float_text(self.max_wss)
    }

    pub open spec fn spec_from_xml(b: Seq<u8>) -> Result<Self, ParseError> {
        match parsed_fields(b) {
            Some(f) => Self::spec_from_fields(f),
            None => Err(ParseError::MalformedXml),
        }
    }
}

impl Heartbeat {
    /// Reads the value from the top-level elements of its body.
    pub fn from_fields(fields: &Vec<XmlField>) -> (r: Result<Self, ParseError>)
        ensures
            r matches Ok(v) ==> HeartbeatView::spec_from_fields(fields_view(fields@)) == Ok::<HeartbeatView, ParseError>(v@),
            r matches Err(e) ==> HeartbeatView::spec_from_fields(fields_view(fields@)) == Err::<HeartbeatView, ParseError>(e),
    {
        let wss = find_float0(fields, "wss")?;
        let max_wss = find_float0(fields, "max_wss")?;
        Ok(Heartbeat { wss, max_wss })
    }

    /// Reads the value from its XML body.
    pub fn from_xml(s: &[u8]) -> (r: Result<Self, ParseError>)
        ensures
            r matches Ok(v) ==> HeartbeatView::spec_from_xml(s@) == Ok::<HeartbeatView, ParseError>(v@),
            r matches Err(e) ==> HeartbeatView::spec_from_xml(s@) == Err::<HeartbeatView, ParseError>(e),
    {
        let fields = parse_xml_data(s)?;
        Self::from_fields(&fields)
    }

    /// Writes the XML body of the value.
    pub fn to_xml(&self) -> (r: Vec<u8>)
        ensures
            r@ == encode_utf8(self@.spec_xml()),
    {
        let mut out = String::new();
        append_opt(&mut out, "<wss>", &self.wss, "</wss>\n");
        append_opt(&mut out, "<max_wss>", &self.max_wss, "</max_wss>\n");
        assert(out@ =~= self@.spec_xml());
        into_bytes(out)
    }
}

/// The application's progress report; each time and byte count is kept as the
/// text of a number, which `from_xml` accepts only where `str::parse::<f64>`
/// would.
#[derive(Clone, Debug, PartialEq)]
pub struct AppStatusData {
    pub current_cpu_time: String,
    pub checkpoint_cpu_time: String,
    pub want_network: bool,
    pub fraction_done: String,
    pub other_pid: Option<i64>,
    pub bytes_sent: Option<String>,
    pub bytes_received: Option<String>,
}

/// The value of an `AppStatusData`.
pub struct AppStatusDataView {
    pub current_cpu_time: Seq<char>,
    pub checkpoint_cpu_time: Seq<char>,
    pub want_network: bool,
    pub fraction_done: Seq<char>,
    pub other_pid: Option<i64>,
    pub bytes_sent: Option<Seq<char>>,
    pub bytes_received: Option<Seq<char>>,
}

impl View for AppStatusData {
    type V = AppStatusDataView;

    open spec fn view(&self) -> AppStatusDataView {
        AppStatusDataView {
            current_cpu_time: self.current_cpu_time@,
            checkpoint_cpu_time: self.checkpoint_cpu_time@,
            want_network: self.want_network,
            fraction_done: self.fraction_done@,
            other_pid: self.other_pid,
            bytes_sent: opt_view(self.bytes_sent),
            bytes_received: opt_view(self.bytes_received),
        }
    }
}

/// An absent value, or text that `str::parse::<f64>` accepts.
pub open spec fn opt_float_text(t: Option<Seq<char>>) -> bool {
    match t {
        Some(v) => spec_is_float_text(v),
        None => true,
    }
}

/// The decimal text of an optional integer.
pub open spec fn opt_format_i64(n: Option<i64>) -> Option<Seq<char>> {
    match n {
        Some(v) => Some(spec_format_i64(v)),
        None => None,
    }
}

impl AppStatusDataView {
    pub open spec fn spec_xml(self) -> Seq<char> {
        element("<current_cpu_time>"@, self.current_cpu_time, "</current_cpu_time>\n"@)
            + element("<checkpoint_cpu_time>"@, self.checkpoint_cpu_time, "</checkpoint_cpu_time>\n"@)
            + (if self.want_network {
            "<want_network>1</want_network>\n"@
        } else {
            Seq::empty()
        }) + element("<fraction_done>"@, self.fraction_done, "</fraction_done>\n"@)
            + opt_element("<other_pid>"@, opt_format_i64(self.other_pid), "</other_pid>\n"@)
            + opt_element("<bytes_sent>"@, self.bytes_sent, "</bytes_sent>\n"@) + opt_element(
            "<bytes_received>"@,
            self.bytes_received,
            "</bytes_received>\n"@,
        )
    }

    pub open spec fn spec_fields(self) -> Seq<FieldView> {
        seq![("current_cpu_time"@, Some(self.current_cpu_time))] + seq![
            ("checkpoint_cpu_time"@, Some(self.checkpoint_cpu_time)),
        ] + opt_field(
            "want_network"@,
            if self.want_network {
                Some(seq!['1'])
            } else {
                None
            },
        ) + seq![("fraction_done"@, Some(self.fraction_done))] + opt_field(
            "other_pid"@,
            opt_format_i64(self.other_pid),
        ) + opt_field("bytes_sent"@, self.bytes_sent) + opt_field(
            "bytes_received"@,
            self.bytes_received,
        )
    }

    pub open spec fn spec_from_fields(f: Seq<FieldView>) -> Result<Self, ParseError> {
        match spec_find_float1(f, "current_cpu_time"@) {
            Err(e) => Err(e),
            Ok(cur) => match spec_find_float1(f, "checkpoint_cpu_time"@) {
                Err(e) => Err(e),
                Ok(chk) => match spec_find_float1(f, "fraction_done"@) {
                    Err(e) => Err(e),
                    Ok(frac) => match spec_find_i64(f, "other_pid"@) {
                        Err(e) => Err(e),
                        Ok(pid) => match spec_find_float0(f, "bytes_sent"@) {
                            Err(e) => Err(e),
                            Ok(sent) => match spec_find_float0(f, "bytes_received"@) {
                                Err(e) => Err(e),
                                Ok(received) => Ok(
                                    AppStatusDataView {
                                        current_cpu_time: cur,
                                        checkpoint_cpu_time: chk,
                                        want_network: spec_find_bool(f, "want_network"@),
                                        fraction_done: frac,
                                        other_pid: pid,
                                        bytes_sent: sent,
                                        bytes_received: received,
                                    },
                                ),
                            },
                        },
                    },
                },
            },
        }
    }

    /// Each time and byte count is text that `str::parse::<f64>` accepts.
    pub open spec fn numbers_valid(self) -> bool {
        &&& spec_is_float_text(self.current_cpu_time)
        &&& spec_is_float_text(self.checkpoint_cpu_time)
        &&& spec_is_float_text(self.fraction_done)
        &&& opt_float_text(self.bytes_sent)
        &&& opt_float_text(self.bytes_received)
    }

    pub open spec fn spec_from_xml(b: Seq<u8>) -> Result<Self, ParseError> {
        match parsed_fields(b) {
            Some(f) => Self::spec_from_fields(f),
            None => Err(ParseError::MalformedXml),
        }
    }
}

impl AppStatusData {
    /// Reads the value from the top-level elements of its body.
    pub fn from_fields(fields: &Vec<XmlField>) -> (r: Result<Self, ParseError>)
        ensures
            r matches Ok(v) ==> AppStatusDataView::spec_from_fields(fields_view(fields@)) == Ok::<AppStatusDataView, ParseError>(v@),
            r matches Err(e) ==> AppStatusDataView::spec_from_fields(fields_view(fields@)) == Err::<AppStatusDataView, ParseError>(e),
    {
        let current_cpu_time = find_float1(fields, "current_cpu_time")?;
        let checkpoint_cpu_time = find_float1(fields, "checkpoint_cpu_time")?;
        let want_network = find_bool(fields, "want_network");
        let fraction_done = find_float1(fields, "fraction_done")?;
        let other_pid = find_i64(fields, "other_pid")?;
        let bytes_sent = find_float0(fields, "bytes_sent")?;
        let bytes_received = find_float0(fields, "bytes_received")?;
        Ok(
            AppStatusData {
                current_cpu_time,
                checkpoint_cpu_time,
                want_network,
                fraction_done,
                other_pid,
                bytes_sent,
                bytes_received,
            },
        )
    }

    /// Reads the value from its XML body.
    pub fn from_xml(s: &[u8]) -> (r: Result<Self, ParseError>)
        ensures
            r matches Ok(v) ==> AppStatusDataView::spec_from_xml(s@) == Ok::<AppStatusDataView, ParseError>(v@),
            r matches Err(e) ==> AppStatusDataView::spec_from_xml(s@) == Err::<AppStatusDataView, ParseError>(e),
    {
        let fields = parse_xml_data(s)?;
        Self::from_fields(&fields)
    }

    /// Writes the XML body of the value.
    pub fn to_xml(&self) -> (r: Vec<u8>)
        ensures
            r@ == encode_utf8(self@.spec_xml()),
    {
        let mut out = String::new();
        out.append("<current_cpu_time>");
        out.append(self.current_cpu_time.as_str());
        out.append("</current_cpu_time>\n");
        out.append("<checkpoint_cpu_time>");
        out.append(self.checkpoint_cpu_time.as_str());
        out.append("</checkpoint_cpu_time>\n");
        if self.want_network {
            out.append("<want_network>1</want_network>\n");
        }
        out.append("<fraction_done>");
        out.append(self.fraction_done.as_str());
        out.append("</fraction_done>\n");
        let pid = match self.other_pid {
            Some(v) => Some(format_i64(v)),
            None => None,
        };
        append_opt(&mut out, "<other_pid>", &pid, "</other_pid>\n");
        append_opt(&mut out, "<bytes_sent>", &self.bytes_sent, "</bytes_sent>\n");
        append_opt(&mut out, "<bytes_received>", &self.bytes_received, "</bytes_received>\n");
        assert(out@ =~= self@.spec_xml());
        into_bytes(out)
    }
}

/// What the client tells the application about trickle messages and uploads.
#[derive(Clone, Copy, Debug, PartialEq, Eq, Structural)]
pub struct TrickleDownData {
    pub have_new_trickle_down: bool,
    pub upload_file_status: bool,
}

impl TrickleDownData {
    pub open spec fn spec_xml(self) -> Seq<char> {
        (if self.have_new_trickle_down {
            "<have_new_trickle_down/>\n"@
        } else {
            Seq::empty()
        }) + (if self.upload_file_status {
            "<upload_file_status/>\n"@
        } else {
            Seq::empty()
        })
    }

    pub open spec fn spec_fields(self) -> Seq<FieldView> {
        flag_field("have_new_trickle_down"@, self.have_new_trickle_down) + flag_field(
            "upload_file_status"@,
            self.upload_file_status,
        )
    }

    pub open spec fn spec_from_fields(f: Seq<FieldView>) -> Result<Self, ParseError> {
        Ok(
            TrickleDownData {
                have_new_trickle_down: spec_find_bool(f, "have_new_trickle_down"@),
                upload_file_status: spec_find_bool(f, "upload_file_status"@),
            },
        )
    }

    pub open spec fn spec_from_xml(b: Seq<u8>) -> Result<Self, ParseError> {
        match parsed_fields(b) {
            Some(f) => Self::spec_from_fields(f),
            None => Err(ParseError::MalformedXml),
        }
    }

    /// Reads the value from the top-level elements of its body.
    pub fn from_fields(fields: &Vec<XmlField>) -> (r: Result<Self, ParseError>)
        ensures
            r == Self::spec_from_fields(fields_view(fields@)),
    {
        Ok(
            TrickleDownData {
                have_new_trickle_down: find_bool(fields, "have_new_trickle_down"),
                upload_file_status: find_bool(fields, "upload_file_status"),
            },
        )
    }

    /// Reads the value from its XML body.
    pub fn from_xml(s: &[u8]) -> (r: Result<Self, ParseError>)
        ensures
            r == Self::spec_from_xml(s@),
    {
        let fields = parse_xml_data(s)?;
        Self::from_fields(&fields)
    }

    /// Writes the XML body of the value.
    pub fn to_xml(&self) -> (r: Vec<u8>)
        ensures
            r@ == encode_utf8(self.spec_xml()),
    {
        let mut out = String::new();
        if self.have_new_trickle_down {
            out.append("<have_new_trickle_down/>\n");
        }
        if self.upload_file_status {
            out.append("<upload_file_status/>\n");
        }
        assert(out@ =~= self.spec_xml());
        into_bytes(out)
    }
}

/// What the application tells the client about trickle messages and uploads.
#[derive(Clone, Copy, Debug, PartialEq, Eq, Structural)]
pub struct TrickleUpData {
    pub have_new_trickle_up: bool,
    pub have_new_upload_file: bool,
}

impl TrickleUpData {
    pub open spec fn spec_xml(self) -> Seq<char> {
        (if self.have_new_trickle_up {
            "<have_new_trickle_up />\n"@
        } else {
            Seq::empty()
        }) + (if self.have_new_upload_file {
            "<have_new_upload_file />\n"@
        } else {
            Seq::empty()
        })
    }

    pub open spec fn spec_fields(self) -> Seq<FieldView> {
        flag_field("have_new_trickle_up"@, self.have_new_trickle_up) + flag_field(
            "have_new_upload_file"@,
            self.have_new_upload_file,
        )
    }

    pub open spec fn spec_from_fields(f: Seq<FieldView>) -> Result<Self, ParseError> {
        Ok(
            TrickleUpData {
                have_new_trickle_up: spec_find_bool(f, "have_new_trickle_up"@),
                have_new_upload_file: spec_find_bool(f, "have_new_upload_file"@),
            },
        )
    }

    pub open spec fn spec_from_xml(b: Seq<u8>) -> Result<Self, ParseError> {
        match parsed_fields(b) {
            Some(f) => Self::spec_from_fields(f),
            None => Err(ParseError::MalformedXml),
        }
    }

    /// Reads the value from the top-level elements of its body.
    pub fn from_fields(fields: &Vec<XmlField>) -> (r: Result<Self, ParseError>)
        ensures
            r == Self::spec_from_fields(fields_view(fields@)),
    {
        Ok(
            TrickleUpData {
                have_new_trickle_up: find_bool(fields, "have_new_trickle_up"),
                have_new_upload_file: find_bool(fields, "have_new_upload_file"),
            },
        )
    }

    /// Reads the value from its XML body.
    pub fn from_xml(s: &[u8]) -> (r: Result<Self, ParseError>)
        ensures
            r == Self::spec_from_xml(s@),
    {
        let fields = parse_xml_data(s)?;
        Self::from_fields(&fields)
    }

    /// Writes the XML body of the value.
    pub fn to_xml(&self) -> (r: Vec<u8>)
        ensures
            r@ == encode_utf8(self.spec_xml()),
    {
        let mut out = String::new();
        if self.have_new_trickle_up {
            out.append("<have_new_trickle_up />\n");
        }
        if self.have_new_upload_file {
            out.append("<have_new_upload_file />\n");
        }
        assert(out@ =~= self.spec_xml());
        into_bytes(out)
    }
}

/// A request written by `to_xml` is read back by `from_xml`, provided treexml
/// reads the element that was written.
pub proof fn law_process_control_request_roundtrip(x: ProcessControlRequest)
    requires
        parsed_fields(encode_utf8(x.spec_xml())) == Some(x.spec_fields()),
    ensures
        ProcessControlRequest::spec_from_xml(encode_utf8(x.spec_xml())) == Ok::<ProcessControlRequest, ParseError>(x),
{
    reveal_strlit("quit");
    assert("quit"@.len() == 4);
    reveal_strlit("suspend");
    assert("suspend"@.len() == 7);
    reveal_strlit("resume");
    assert("resume"@.len() == 6);
    reveal_strlit("abort");
    assert("abort"@.len() == 5);
    assert(ProcessControlRequest::spec_from_fields(x.spec_fields()) == Ok::<ProcessControlRequest, ParseError>(x)) by {
        match x {
            ProcessControlRequest::Quit => {
                let f = ProcessControlRequest::Quit.spec_fields();
                assert(f.last().0 == "quit"@);
            },
            ProcessControlRequest::Suspend => {
                let f = ProcessControlRequest::Suspend.spec_fields();
                assert(f.last().0 == "suspend"@);
            },
            ProcessControlRequest::Resume => {
                let f = ProcessControlRequest::Resume.spec_fields();
                assert(f.last().0 == "resume"@);
            },
            ProcessControlRequest::Abort => {
                let f = ProcessControlRequest::Abort.spec_fields();
                assert(f.last().0 == "abort"@);
            },
        }
    }
}

/// Graphics data written by `to_xml` is read back by `from_xml`, provided
/// treexml reads the elements that were written.
pub proof fn law_graphics_reply_roundtrip(x: GraphicsReplyDataView)
    requires
        parsed_fields(encode_utf8(x.spec_xml())) == Some(x.spec_fields()),
    ensures
        GraphicsReplyDataView::spec_from_xml(encode_utf8(x.spec_xml())) == Ok::<GraphicsReplyDataView, ParseError>(x),
{
    broadcast use group_find_lemmas, lemma_find_opt_field, lemma_find_flag_field;

    reveal_strlit("web_graphics_url");
    assert("web_graphics_url"@.len() == 16);
    reveal_strlit("remote_desktop_addr");
    assert("remote_desktop_addr"@.len() == 19);
}

/// A heartbeat whose values are numbers, written by `to_xml`, is read back by
/// `from_xml`, provided treexml reads the elements that were written.
pub proof fn law_heartbeat_roundtrip(x: HeartbeatView)
    requires
        x.numbers_valid(),
        parsed_fields(encode_utf8(x.spec_xml())) == Some(x.spec_fields()),
    ensures
        HeartbeatView::spec_from_xml(encode_utf8(x.spec_xml())) == Ok::<HeartbeatView, ParseError>(x),
{
    broadcast use group_find_lemmas, lemma_find_opt_field, lemma_find_flag_field;

    reveal_strlit("wss");
    assert("wss"@.len() == 3);
    reveal_strlit("max_wss");
    assert("max_wss"@.len() == 7);
}

/// A status report whose times and byte counts are numbers, written by
/// `to_xml`, is read back by `from_xml`, provided treexml reads the elements
/// that were written.
pub proof fn law_app_status_roundtrip(x: AppStatusDataView)
    requires
        x.numbers_valid(),
        parsed_fields(encode_utf8(x.spec_xml())) == Some(x.spec_fields()),
    ensures
        AppStatusDataView::spec_from_xml(encode_utf8(x.spec_xml())) == Ok::<AppStatusDataView, ParseError>(x),
{
    broadcast use group_find_lemmas, lemma_find_opt_field, lemma_find_flag_field;

    reveal_strlit("current_cpu_time");
    assert("current_cpu_time"@.len() == 16);
    reveal_strlit("checkpoint_cpu_time");
    assert("checkpoint_cpu_time"@.len() == 19);
    reveal_strlit("want_network");
    assert("want_network"@.len() == 12);
    reveal_strlit("fraction_done");
    assert("fraction_done"@.len() == 13);
    reveal_strlit("other_pid");
    assert("other_pid"@.len() == 9);
    reveal_strlit("bytes_sent");
    assert("bytes_sent"@.len() == 10);
    reveal_strlit("bytes_received");
    assert("bytes_received"@.len() == 14);
    if let Some(p) = x.other_pid {
        law_parse_format_i64(p);
    }
    let f = x.spec_fields();
    assert(spec_find_float1(f, "current_cpu_time"@) == Ok::<Seq<char>, ParseError>(x.current_cpu_time));
    assert(spec_find_float1(f, "checkpoint_cpu_time"@) == Ok::<Seq<char>, ParseError>(x.checkpoint_cpu_time));
    assert(spec_find_float1(f, "fraction_done"@) == Ok::<Seq<char>, ParseError>(x.fraction_done));
    assert(spec_find_i64(f, "other_pid"@) == Ok::<Option<i64>, ParseError>(x.other_pid));
    assert(seq!['1'] != seq!['0']) by {
        assert(seq!['1'][0] != seq!['0'][0]);
    }
    assert(spec_find_bool(f, "want_network"@) == x.want_network);
    assert(spec_find_float0(f, "bytes_sent"@) == Ok::<Option<Seq<char>>, ParseError>(x.bytes_sent));
    assert(spec_find_float0(f, "bytes_received"@) == Ok::<Option<Seq<char>>, ParseError>(x.bytes_received));
}

/// Trickle-down flags written by `to_xml` are read back by `from_xml`,
/// provided treexml reads the elements that were written.
pub proof fn law_trickle_down_roundtrip(x: TrickleDownData)
    requires
        parsed_fields(encode_utf8(x.spec_xml())) == Some(x.spec_fields()),
    ensures
        TrickleDownData::spec_from_xml(encode_utf8(x.spec_xml())) == Ok::<TrickleDownData, ParseError>(x),
{
    broadcast use group_find_lemmas, lemma_find_opt_field, lemma_find_flag_field;

    reveal_strlit("have_new_trickle_down");
    assert("have_new_trickle_down"@.len() == 21);
    reveal_strlit("upload_file_status");
    assert("upload_file_status"@.len() == 18);
}

/// Trickle-up flags written by `to_xml` are read back by `from_xml`,
/// provided treexml reads the elements that were written.
pub proof fn law_trickle_up_roundtrip(x: TrickleUpData)
    requires
        parsed_fields(encode_utf8(x.spec_xml())) == Some(x.spec_fields()),
    ensures
        TrickleUpData::spec_from_xml(encode_utf8(x.spec_xml())) == Ok::<TrickleUpData, ParseError>(x),
{
    broadcast use group_find_lemmas, lemma_find_opt_field, lemma_find_flag_field;

    reveal_strlit("have_new_trickle_up");
    assert("have_new_trickle_up"@.len() == 19);
    reveal_strlit("have_new_upload_file");
    assert("have_new_upload_file"@.len() == 20);
}

/// An element for an optional value, written with the tags of `name`, is the
/// text of the element read back from it.
proof fn lemma_opt_element_text(
    name: Seq<char>,
    open: Seq<char>,
    close: Seq<char>,
    t: Option<Seq<char>>,
    c: Seq<char>,
)
    requires
        open == seq!['<'] + name + seq!['>'],
        close == seq!['<', '/'] + name + seq!['>', '\n'],
    ensures
        opt_element(open, t, close) == render_fields(opt_field(name, t), c),
{
    broadcast use group_render_lemmas;

    if let Some(v) = t {
        assert(element(open, v, close) =~= seq!['<'] + name + seq!['>'] + v + seq!['<', '/'] + name
            + seq!['>', '\n']);
    }
}

/// An element for a required value, written with the tags of `name`, is the
/// text of the element read back from it.
proof fn lemma_element_text(name: Seq<char>, open: Seq<char>, close: Seq<char>, t: Seq<char>, c: Seq<char>)
    requires
        open == seq!['<'] + name + seq!['>'],
        close == seq!['<', '/'] + name + seq!['>', '\n'],
    ensures
        element(open, t, close) == render_fields(seq![(name, Some(t))], c),
{
    lemma_opt_element_text(name, open, close, Some(t), c);
}

/// A flag written as the empty element `tag` when `present` is the text of
/// the element read back from it.
proof fn lemma_flag_text(name: Seq<char>, tag: Seq<char>, present: bool, c: Seq<char>)
    requires
        tag == seq!['<'] + name + c,
    ensures
        (if present {
            tag
        } else {
            Seq::<char>::empty()
        }) == render_fields(flag_field(name, present), c),
{
    broadcast use group_render_lemmas;

}

/// The body of a request is its one empty element, `<quit/>`, `<suspend/>`,
/// `<resume/>` or `<abort/>`, with no line break.
pub proof fn law_process_control_request_body(x: ProcessControlRequest)
    ensures
        x.spec_xml() == render_fields(x.spec_fields(), seq!['/', '>']),
        x.spec_fields().len() == 1,
{
    broadcast use group_render_lemmas;

    reveal_strlit("quit");
    reveal_strlit("<quit/>");
    reveal_strlit("suspend");
    reveal_strlit("<suspend/>");
    reveal_strlit("resume");
    reveal_strlit("<resume/>");
    reveal_strlit("abort");
    reveal_strlit("<abort/>");
    match x {
        ProcessControlRequest::Quit => {
            assert("<quit/>"@ =~= seq!['<'] + "quit"@ + seq!['/', '>']);
        },
        ProcessControlRequest::Suspend => {
            assert("<suspend/>"@ =~= seq!['<'] + "suspend"@ + seq!['/', '>']);
        },
        ProcessControlRequest::Resume => {
            assert("<resume/>"@ =~= seq!['<'] + "resume"@ + seq!['/', '>']);
        },
        ProcessControlRequest::Abort => {
            assert("<abort/>"@ =~= seq!['<'] + "abort"@ + seq!['/', '>']);
        },
    }
}

/// The body of graphics data is an element for each address present, each on
/// a line of its own: `web_graphics_url`, then `remote_desktop_addr`.
pub proof fn law_graphics_reply_body(x: GraphicsReplyDataView)
    ensures
        x.spec_xml() == render_fields(x.spec_fields(), seq!['/', '>', '\n']),
{
    broadcast use group_render_lemmas;

    let c = seq!['/', '>', '\n'];
    reveal_strlit("web_graphics_url");
    reveal_strlit("<web_graphics_url>");
    reveal_strlit("</web_graphics_url>\n");
    reveal_strlit("remote_desktop_addr");
    reveal_strlit("<remote_desktop_addr>");
    reveal_strlit("</remote_desktop_addr>\n");
    assert("<web_graphics_url>"@ =~= seq!['<'] + "web_graphics_url"@ + seq!['>']);
    assert("</web_graphics_url>\n"@ =~= seq!['<', '/'] + "web_graphics_url"@ + seq!['>', '\n']);
    assert("<remote_desktop_addr>"@ =~= seq!['<'] + "remote_desktop_addr"@ + seq!['>']);
    assert("</remote_desktop_addr>\n"@ =~= seq!['<', '/'] + "remote_desktop_addr"@ + seq!['>', '\n']);
    lemma_opt_element_text("web_graphics_url"@, "<web_graphics_url>"@, "</web_graphics_url>\n"@, x.web_graphics_url, c);
    lemma_opt_element_text("remote_desktop_addr"@, "<remote_desktop_addr>"@, "</remote_desktop_addr>\n"@, x.remote_desktop_addr, c);
}

/// The body of a heartbeat is an element for each value present, each on a
/// line of its own: `wss`, then `max_wss`.
pub proof fn law_heartbeat_body(x: HeartbeatView)
    ensures
        x.spec_xml() == render_fields(x.spec_fields(), seq!['/', '>', '\n']),
{
    broadcast use group_render_lemmas;

    let c = seq!['/', '>', '\n'];
    reveal_strlit("wss");
    reveal_strlit("<wss>");
    reveal_strlit("</wss>\n");
    reveal_strlit("max_wss");
    reveal_strlit("<max_wss>");
    reveal_strlit("</max_wss>\n");
    assert("<wss>"@ =~= seq!['<'] + "wss"@ + seq!['>']);
    assert("</wss>\n"@ =~= seq!['<', '/'] + "wss"@ + seq!['>', '\n']);
    assert("<max_wss>"@ =~= seq!['<'] + "max_wss"@ + seq!['>']);
    assert("</max_wss>\n"@ =~= seq!['<', '/'] + "max_wss"@ + seq!['>', '\n']);
    lemma_opt_element_text("wss"@, "<wss>"@, "</wss>\n"@, x.wss, c);
    lemma_opt_element_text("max_wss"@, "<max_wss>"@, "</max_wss>\n"@, x.max_wss, c);
}

/// The body of a status report is an element for each value, each on a line
/// of its own, in the order `current_cpu_time`, `checkpoint_cpu_time`,
/// `want_network`, `fraction_done`, `other_pid`, `bytes_sent`,
/// `bytes_received`. The `want_network` element, `<want_network>1</want_network>`,
/// is there exactly when the application wants the network; the last three
/// only when their values are present.
pub proof fn law_app_status_body(x: AppStatusDataView)
    ensures
        x.spec_xml() == render_fields(x.spec_fields(), seq!['/', '>', '\n']),
        spec_find(x.spec_fields(), "want_network"@) == (if x.want_network {
            Some(("want_network"@, Some(seq!['1'])))
        } else {
            None::<FieldView>
        }),
{
    broadcast use group_render_lemmas, group_find_lemmas, lemma_find_opt_field;

    let c = seq!['/', '>', '\n'];
    reveal_strlit("current_cpu_time");
    reveal_strlit("<current_cpu_time>");
    reveal_strlit("</current_cpu_time>\n");
    reveal_strlit("checkpoint_cpu_time");
    reveal_strlit("<checkpoint_cpu_time>");
    reveal_strlit("</checkpoint_cpu_time>\n");
    reveal_strlit("want_network");
    reveal_strlit("<want_network>1</want_network>\n");
    reveal_strlit("fraction_done");
    reveal_strlit("<fraction_done>");
    reveal_strlit("</fraction_done>\n");
    reveal_strlit("other_pid");
    reveal_strlit("<other_pid>");
    reveal_strlit("</other_pid>\n");
    reveal_strlit("bytes_sent");
    reveal_strlit("<bytes_sent>");
    reveal_strlit("</bytes_sent>\n");
    reveal_strlit("bytes_received");
    reveal_strlit("<bytes_received>");
    reveal_strlit("</bytes_received>\n");
    assert("<current_cpu_time>"@ =~= seq!['<'] + "current_cpu_time"@ + seq!['>']);
    assert("</current_cpu_time>\n"@ =~= seq!['<', '/'] + "current_cpu_time"@ + seq!['>', '\n']);
    assert("<checkpoint_cpu_time>"@ =~= seq!['<'] + "checkpoint_cpu_time"@ + seq!['>']);
    assert("</checkpoint_cpu_time>\n"@ =~= seq!['<', '/'] + "checkpoint_cpu_time"@ + seq!['>', '\n']);
    assert("<fraction_done>"@ =~= seq!['<'] + "fraction_done"@ + seq!['>']);
    assert("</fraction_done>\n"@ =~= seq!['<', '/'] + "fraction_done"@ + seq!['>', '\n']);
    assert("<other_pid>"@ =~= seq!['<'] + "other_pid"@ + seq!['>']);
    assert("</other_pid>\n"@ =~= seq!['<', '/'] + "other_pid"@ + seq!['>', '\n']);
    assert("<bytes_sent>"@ =~= seq!['<'] + "bytes_sent"@ + seq!['>']);
    assert("</bytes_sent>\n"@ =~= seq!['<', '/'] + "bytes_sent"@ + seq!['>', '\n']);
    assert("<bytes_received>"@ =~= seq!['<'] + "bytes_received"@ + seq!['>']);
    assert("</bytes_received>\n"@ =~= seq!['<', '/'] + "bytes_received"@ + seq!['>', '\n']);
    let net = if x.want_network {
        Some(seq!['1'])
    } else {
        None
    };
    assert((if x.want_network {
        "<want_network>1</want_network>\n"@
    } else {
        Seq::<char>::empty()
    }) == render_fields(opt_field("want_network"@, net), c)) by {
        if x.want_network {
            assert("<want_network>1</want_network>\n"@ =~= seq!['<'] + "want_network"@ + seq!['>']
                + seq!['1'] + seq!['<', '/'] + "want_network"@ + seq!['>', '\n']);
        }
    }
    lemma_element_text("current_cpu_time"@, "<current_cpu_time>"@, "</current_cpu_time>\n"@, x.current_cpu_time, c);
    lemma_element_text("checkpoint_cpu_time"@, "<checkpoint_cpu_time>"@, "</checkpoint_cpu_time>\n"@, x.checkpoint_cpu_time, c);
    lemma_element_text("fraction_done"@, "<fraction_done>"@, "</fraction_done>\n"@, x.fraction_done, c);
    lemma_opt_element_text("other_pid"@, "<other_pid>"@, "</other_pid>\n"@, opt_format_i64(x.other_pid), c);
    lemma_opt_element_text("bytes_sent"@, "<bytes_sent>"@, "</bytes_sent>\n"@, x.bytes_sent, c);
    lemma_opt_element_text("bytes_received"@, "<bytes_received>"@, "</bytes_received>\n"@, x.bytes_received, c);
    assert("current_cpu_time"@.len() == 16);
    assert("checkpoint_cpu_time"@.len() == 19);
    assert("want_network"@.len() == 12);
    assert("fraction_done"@.len() == 13);
    assert("other_pid"@.len() == 9);
    assert("bytes_sent"@.len() == 10);
    assert("bytes_received"@.len() == 14);
}

/// The body of trickle-down flags is an empty element for each flag that is
/// set, each on a line of its own: `<have_new_trickle_down/>`, then
/// `<upload_file_status/>`.
pub proof fn law_trickle_down_body(x: TrickleDownData)
    ensures
        x.spec_xml() == render_fields(x.spec_fields(), seq!['/', '>', '\n']),
{
    broadcast use group_render_lemmas;

    let c = seq!['/', '>', '\n'];
    reveal_strlit("have_new_trickle_down");
    reveal_strlit("<have_new_trickle_down/>\n");
    reveal_strlit("upload_file_status");
    reveal_strlit("<upload_file_status/>\n");
    assert("<have_new_trickle_down/>\n"@ =~= seq!['<'] + "have_new_trickle_down"@ + c);
    assert("<upload_file_status/>\n"@ =~= seq!['<'] + "upload_file_status"@ + c);
    lemma_flag_text("have_new_trickle_down"@, "<have_new_trickle_down/>\n"@, x.have_new_trickle_down, c);
    lemma_flag_text("upload_file_status"@, "<upload_file_status/>\n"@, x.upload_file_status, c);
}

/// The body of trickle-up flags is an empty element for each flag that is
/// set, each on a line of its own: `<have_new_trickle_up />`, then
/// `<have_new_upload_file />`.
pub proof fn law_trickle_up_body(x: TrickleUpData)
    ensures
        x.spec_xml() == render_fields(x.spec_fields(), seq![' ', '/', '>', '\n']),
{
    broadcast use group_render_lemmas;

    let c = seq![' ', '/', '>', '\n'];
    reveal_strlit("have_new_trickle_up");
    reveal_strlit("<have_new_trickle_up />\n");
    reveal_strlit("have_new_upload_file");
    reveal_strlit("<have_new_upload_file />\n");
    assert("<have_new_trickle_up />\n"@ =~= seq!['<'] + "have_new_trickle_up"@ + c);
    assert("<have_new_upload_file />\n"@ =~= seq!['<'] + "have_new_upload_file"@ + c);
    lemma_flag_text("have_new_trickle_up"@, "<have_new_trickle_up />\n"@, x.have_new_trickle_up, c);
    lemma_flag_text("have_new_upload_file"@, "<have_new_upload_file />\n"@, x.have_new_upload_file, c);
}

/// A request is named by the last element of its body, whatever comes
/// before it; a body with no element names none, and one whose last element
/// has another name names one that does not exist.
pub proof fn law_process_control_request_last_element(
    f: Seq<FieldView>,
    x: ProcessControlRequest,
    name: Seq<char>,
    text: Option<Seq<char>>,
)
    ensures
        ProcessControlRequest::spec_from_fields(Seq::empty()) == Err::<ProcessControlRequest, ParseError>(
            ParseError::NoVariant,
        ),
        ProcessControlRequest::spec_from_fields(f + x.spec_fields()) == Ok::<ProcessControlRequest, ParseError>(x),
        name != "quit"@ && name != "suspend"@ && name != "resume"@ && name != "abort"@
            ==> ProcessControlRequest::spec_from_fields(f + seq![(name, text)]) == Err::<ProcessControlRequest, ParseError>(
            ParseError::InvalidVariant,
        ),
{
    reveal_strlit("quit");
    assert("quit"@.len() == 4);
    reveal_strlit("suspend");
    assert("suspend"@.len() == 7);
    reveal_strlit("resume");
    assert("resume"@.len() == 6);
    reveal_strlit("abort");
    assert("abort"@.len() == 5);
    let g = f + x.spec_fields();
    assert(g.last() == x.spec_fields()[0]);
    assert((f + seq![(name, text)]).last() == (name, text));
}

/// Every graphics body is read, whatever elements it holds: each address is
/// the text of the first element of its name, absent where there is none.
pub proof fn law_graphics_reply_reads(f: Seq<FieldView>)
    ensures
        GraphicsReplyDataView::spec_from_fields(f) matches Ok(v) && v.web_graphics_url == spec_find_text(
            f,
            "web_graphics_url"@,
        ) && v.remote_desktop_addr == spec_find_text(f, "remote_desktop_addr"@),
{
}

/// A heartbeat is read exactly when each of its values is absent or a
/// number, and then holds the text of the first element of each name; it is
/// refused only for a value that is not a number.
pub proof fn law_heartbeat_reads(f: Seq<FieldView>)
    ensures
        HeartbeatView::spec_from_fields(f) is Ok <==> opt_float_text(spec_find_text(f, "wss"@))
            && opt_float_text(spec_find_text(f, "max_wss"@)),
        HeartbeatView::spec_from_fields(f) matches Ok(v) ==> v.wss == spec_find_text(f, "wss"@)
            && v.max_wss == spec_find_text(f, "max_wss"@),
        HeartbeatView::spec_from_fields(f) matches Err(e) ==> e == ParseError::InvalidValue,
{
}

/// A status report is read exactly when its three times are present and
/// numbers, its process id is absent or an integer, and its byte counts are
/// absent or numbers; it then holds the text of the first element of each
/// name. A missing time is refused as missing; any other refusal is for a
/// value that is not a number.
pub proof fn law_app_status_reads(f: Seq<FieldView>)
    ensures
        AppStatusDataView::spec_from_fields(f) is Ok <==> {
            &&& spec_find_text(f, "current_cpu_time"@) matches Some(t) && spec_is_float_text(t)
            &&& spec_find_text(f, "checkpoint_cpu_time"@) matches Some(t) && spec_is_float_text(t)
            &&& spec_find_text(f, "fraction_done"@) matches Some(t) && spec_is_float_text(t)
            &&& spec_find_text(f, "other_pid"@) matches Some(t) ==> spec_parse_i64(t) is Some
            &&& opt_float_text(spec_find_text(f, "bytes_sent"@))
            &&& opt_float_text(spec_find_text(f, "bytes_received"@))
        },
        AppStatusDataView::spec_from_fields(f) matches Ok(v) ==> {
            &&& spec_find_text(f, "current_cpu_time"@) == Some(v.current_cpu_time)
            &&& spec_find_text(f, "checkpoint_cpu_time"@) == Some(v.checkpoint_cpu_time)
            &&& spec_find_text(f, "fraction_done"@) == Some(v.fraction_done)
            &&& v.other_pid == match spec_find_text(f, "other_pid"@) {
                Some(t) => spec_parse_i64(t),
                None => None,
            }
            &&& v.bytes_sent == spec_find_text(f, "bytes_sent"@)
            &&& v.bytes_received == spec_find_text(f, "bytes_received"@)
        },
        AppStatusDataView::spec_from_fields(f) == Err::<AppStatusDataView, ParseError>(
            ParseError::MissingValue,
        ) ==> spec_find_text(f, "current_cpu_time"@) is None || spec_find_text(
            f,
            "checkpoint_cpu_time"@,
        ) is None || spec_find_text(f, "fraction_done"@) is None,
        AppStatusDataView::spec_from_fields(f) matches Err(e) ==> e == ParseError::MissingValue || e
            == ParseError::InvalidValue,
{
}

/// Every trickle-down body is read, whatever elements it holds: each flag is
/// set exactly when the first element of its name is present and its text is
/// not `0` (an empty element or `<upload_file_status>1</upload_file_status>`
/// sets it).
pub proof fn law_trickle_down_flags(f: Seq<FieldView>)
    ensures
        match TrickleDownData::spec_from_fields(f) {
            Ok(v) => {
                &&& v.have_new_trickle_down == (spec_find(f, "have_new_trickle_down"@) matches Some(e)
                    && e.1 != Some(seq!['0']))
                &&& v.upload_file_status == (spec_find(f, "upload_file_status"@) matches Some(e)
                    && e.1 != Some(seq!['0']))
            },
            Err(_) => false,
        },
{
}

/// Every trickle-up body is read, whatever elements it holds: each flag is
/// set exactly when the first element of its name is present and its text is
/// not `0`.
pub proof fn law_trickle_up_flags(f: Seq<FieldView>)
    ensures
        match TrickleUpData::spec_from_fields(f) {
            Ok(v) => {
                &&& v.have_new_trickle_up == (spec_find(f, "have_new_trickle_up"@) matches Some(e)
                    && e.1 != Some(seq!['0']))
                &&& v.have_new_upload_file == (spec_find(f, "have_new_upload_file"@) matches Some(e)
                    && e.1 != Some(seq!['0']))
            },
            Err(_) => false,
        },
{
}

/// A status report that is read says the application wants the network
/// exactly when the first `want_network` element is present and its text is
/// not `0`.
pub proof fn law_app_status_want_network(f: Seq<FieldView>)
    ensures
        AppStatusDataView::spec_from_fields(f) matches Ok(v) ==> v.want_network == (spec_find(
            f,
            "want_network"@,
        ) matches Some(e) && e.1 != Some(seq!['0'])),
{
}

/// A message from the client to the application.
#[derive(Clone, Debug, PartialEq)]
pub enum ControlMessage {
    ProcessControlRequest(ProcessControlRequest),
    GraphicsRequest,
    Heartbeat(Heartbeat),
    TrickleDown(TrickleDownData),
}

/// The value of a `ControlMessage`.
pub enum ControlMessageView {
    ProcessControlRequest(ProcessControlRequest),
    GraphicsRequest,
    Heartbeat(HeartbeatView),
    TrickleDown(TrickleDownData),
}

impl View for ControlMessage {
    type V = ControlMessageView;

    open spec fn view(&self) -> ControlMessageView {
        match self {
            ControlMessage::ProcessControlRequest(v) => ControlMessageView::ProcessControlRequest(*v),
            ControlMessage::GraphicsRequest => ControlMessageView::GraphicsRequest,
            ControlMessage::Heartbeat(v) => ControlMessageView::Heartbeat(v@),
            ControlMessage::TrickleDown(v) => ControlMessageView::TrickleDown(*v),
        }
    }
}

impl ControlMessageView {
    /// The channel that carries this message.
    pub open spec fn spec_channel(self) -> ControlMsgChannel {
        match self {
            ControlMessageView::ProcessControlRequest(_) => ControlMsgChannel::ProcessControlRequest,
            ControlMessageView::GraphicsRequest => ControlMsgChannel::GraphicsRequest,
            ControlMessageView::Heartbeat(_) => ControlMsgChannel::Heartbeat,
            ControlMessageView::TrickleDown(_) => ControlMsgChannel::TrickleDown,
        }
    }

    /// The body that carries this message.
    pub open spec fn spec_body(self) -> Seq<u8> {
        match self {
            ControlMessageView::ProcessControlRequest(v) => encode_utf8(v.spec_xml()),
            ControlMessageView::GraphicsRequest => Seq::empty(),
            ControlMessageView::Heartbeat(v) => encode_utf8(v.spec_xml()),
            ControlMessageView::TrickleDown(v) => encode_utf8(v.spec_xml()),
        }
    }

    /// The message read from body `b` on channel `c`.
    pub open spec fn spec_from_raw(c: ControlMsgChannel, b: Seq<u8>) -> Result<Self, ParseError> {
        match c {
            ControlMsgChannel::ProcessControlRequest => match ProcessControlRequest::spec_from_xml(b) {
                Ok(v) => Ok(ControlMessageView::ProcessControlRequest(v)),
                Err(e) => Err(e),
            },
            ControlMsgChannel::GraphicsRequest => Ok(ControlMessageView::GraphicsRequest),
            ControlMsgChannel::Heartbeat => match HeartbeatView::spec_from_xml(b) {
                Ok(v) => Ok(ControlMessageView::Heartbeat(v)),
                Err(e) => Err(e),
            },
            ControlMsgChannel::TrickleDown => match TrickleDownData::spec_from_xml(b) {
                Ok(v) => Ok(ControlMessageView::TrickleDown(v)),
                Err(e) => Err(e),
            },
        }
    }
}

impl ControlMessage {
    /// The channel that carries this message.
    pub fn channel(&self) -> (r: ControlMsgChannel)
        ensures
            r == self@.spec_channel(),
    {
        match self {
            ControlMessage::ProcessControlRequest(_) => ControlMsgChannel::ProcessControlRequest,
            ControlMessage::GraphicsRequest => ControlMsgChannel::GraphicsRequest,
            ControlMessage::Heartbeat(_) => ControlMsgChannel::Heartbeat,
            ControlMessage::TrickleDown(_) => ControlMsgChannel::TrickleDown,
        }
    }

    /// Reads the message that body `b` carries on channel `c`.
    pub fn from_raw(c: ControlMsgChannel, b: Vec<u8>) -> (r: Result<Self, ParseError>)
        ensures
            r matches Ok(v) ==> ControlMessageView::spec_from_raw(c, b@) == Ok::<ControlMessageView, ParseError>(v@),
            r matches Err(e) ==> ControlMessageView::spec_from_raw(c, b@) == Err::<ControlMessageView, ParseError>(e),
    {
        match c {
            ControlMsgChannel::ProcessControlRequest => match ProcessControlRequest::from_xml(b.as_slice()) {
                Ok(v) => Ok(ControlMessage::ProcessControlRequest(v)),
                Err(e) => Err(e),
            },
            ControlMsgChannel::GraphicsRequest => Ok(ControlMessage::GraphicsRequest),
            ControlMsgChannel::Heartbeat => match Heartbeat::from_xml(b.as_slice()) {
                Ok(v) => Ok(ControlMessage::Heartbeat(v)),
                Err(e) => Err(e),
            },
            ControlMsgChannel::TrickleDown => match TrickleDownData::from_xml(b.as_slice()) {
                Ok(v) => Ok(ControlMessage::TrickleDown(v)),
                Err(e) => Err(e),
            },
        }
    }

    /// The channel and body that carry this message.
    pub fn to_raw(&self) -> (r: (ControlMsgChannel, Vec<u8>))
        ensures
            r.0 == self@.spec_channel(),
            r.1@ == self@.spec_body(),
    {
        match self {
            ControlMessage::ProcessControlRequest(v) => (ControlMsgChannel::ProcessControlRequest, v.to_xml()),
            ControlMessage::GraphicsRequest => (ControlMsgChannel::GraphicsRequest, Vec::new()),
            ControlMessage::Heartbeat(v) => (ControlMsgChannel::Heartbeat, v.to_xml()),
            ControlMessage::TrickleDown(v) => (ControlMsgChannel::TrickleDown, v.to_xml()),
        }
    }
}

/// A message from the application to the client.
#[derive(Clone, Debug, PartialEq)]
pub enum StatusMessage {
    ProcessControlReply,
    GraphicsReply(GraphicsReplyData),
    AppStatus(AppStatusData),
    TrickleUp(TrickleUpData),
}

/// The value of a `StatusMessage`.
pub enum StatusMessageView {
    ProcessControlReply,
    GraphicsReply(GraphicsReplyDataView),
    AppStatus(AppStatusDataView),
    TrickleUp(TrickleUpData),
}

impl View for StatusMessage {
    type V = StatusMessageView;

    open spec fn view(&self) -> StatusMessageView {
        match self {
            StatusMessage::ProcessControlReply => StatusMessageView::ProcessControlReply,
            StatusMessage::GraphicsReply(v) => StatusMessageView::GraphicsReply(v@),
            StatusMessage::AppStatus(v) => StatusMessageView::AppStatus(v@),
            StatusMessage::TrickleUp(v) => StatusMessageView::TrickleUp(*v),
        }
    }
}

impl StatusMessageView {
    /// The channel that carries this message.
    pub open spec fn spec_channel(self) -> StatusMsgChannel {
        match self {
            StatusMessageView::ProcessControlReply => StatusMsgChannel::ProcessControlReply,
            StatusMessageView::GraphicsReply(_) => StatusMsgChannel::GraphicsReply,
            StatusMessageView::AppStatus(_) => StatusMsgChannel::AppStatus,
            StatusMessageView::TrickleUp(_) => StatusMsgChannel::TrickleUp,
        }
    }

    /// The body that carries this message.
    pub open spec fn spec_body(self) -> Seq<u8> {
        match self {
            StatusMessageView::ProcessControlReply => Seq::empty(),
            StatusMessageView::GraphicsReply(v) => encode_utf8(v.spec_xml()),
            StatusMessageView::AppStatus(v) => encode_utf8(v.spec_xml()),
            StatusMessageView::TrickleUp(v) => encode_utf8(v.spec_xml()),
        }
    }

    /// The message read from body `b` on channel `c`.
    pub open spec fn spec_from_raw(c: StatusMsgChannel, b: Seq<u8>) -> Result<Self, ParseError> {
        match c {
            StatusMsgChannel::ProcessControlReply => Ok(StatusMessageView::ProcessControlReply),
            StatusMsgChannel::GraphicsReply => match GraphicsReplyDataView::spec_from_xml(b) {
                Ok(v) => Ok(StatusMessageView::GraphicsReply(v)),
                Err(e) => Err(e),
            },
            StatusMsgChannel::AppStatus => match AppStatusDataView::spec_from_xml(b) {
                Ok(v) => Ok(StatusMessageView::AppStatus(v)),
                Err(e) => Err(e),
            },
            StatusMsgChannel::TrickleUp => match TrickleUpData::spec_from_xml(b) {
                Ok(v) => Ok(StatusMessageView::TrickleUp(v)),
                Err(e) => Err(e),
            },
        }
    }
}

impl StatusMessage {
    /// Reads the message that body `b` carries on channel `c`.
    pub fn from_raw(c: StatusMsgChannel, b: Vec<u8>) -> (r: Result<Self, ParseError>)
        ensures
            r matches Ok(v) ==> StatusMessageView::spec_from_raw(c, b@) == Ok::<StatusMessageView, ParseError>(v@),
            r matches Err(e) ==> StatusMessageView::spec_from_raw(c, b@) == Err::<StatusMessageView, ParseError>(e),
    {
        match c {
            StatusMsgChannel::ProcessControlReply => Ok(StatusMessage::ProcessControlReply),
            StatusMsgChannel::GraphicsReply => match GraphicsReplyData::from_xml(b.as_slice()) {
                Ok(v) => Ok(StatusMessage::GraphicsReply(v)),
                Err(e) => Err(e),
            },
            StatusMsgChannel::AppStatus => match AppStatusData::from_xml(b.as_slice()) {
                Ok(v) => Ok(StatusMessage::AppStatus(v)),
                Err(e) => Err(e),
            },
            StatusMsgChannel::TrickleUp => match TrickleUpData::from_xml(b.as_slice()) {
                Ok(v) => Ok(StatusMessage::TrickleUp(v)),
                Err(e) => Err(e),
            },
        }
    }

    /// The channel that carries this message.
    pub fn channel(&self) -> (r: StatusMsgChannel)
        ensures
            r == self@.spec_channel(),
    {
        match self {
            StatusMessage::ProcessControlReply => StatusMsgChannel::ProcessControlReply,
            StatusMessage::GraphicsReply(_) => StatusMsgChannel::GraphicsReply,
            StatusMessage::AppStatus(_) => StatusMsgChannel::AppStatus,
            StatusMessage::TrickleUp(_) => StatusMsgChannel::TrickleUp,
        }
    }

    /// The channel and body that carry this message.
    pub fn to_raw(&self) -> (r: (StatusMsgChannel, Vec<u8>))
        ensures
            r.0 == self@.spec_channel(),
            r.1@ == self@.spec_body(),
    {
        match self {
            StatusMessage::ProcessControlReply => (StatusMsgChannel::ProcessControlReply, Vec::new()),
            StatusMessage::GraphicsReply(v) => (StatusMsgChannel::GraphicsReply, v.to_xml()),
            StatusMessage::AppStatus(v) => (StatusMsgChannel::AppStatus, v.to_xml()),
            StatusMessage::TrickleUp(v) => (StatusMsgChannel::TrickleUp, v.to_xml()),
        }
    }
}

/// A message in either direction.
#[derive(Clone, Debug, PartialEq)]
pub enum Message {
    Control(ControlMessage),
    Status(StatusMessage),
}

/// The value of a `Message`.
pub enum MessageView {
    Control(ControlMessageView),
    Status(StatusMessageView),
}

impl View for Message {
    type V = MessageView;

    open spec fn view(&self) -> MessageView {
        match self {
            Message::Control(m) => MessageView::Control(m@),
            Message::Status(m) => MessageView::Status(m@),
        }
    }
}

impl MessageView {
    /// The slot that carries this message.
    pub open spec fn spec_channel(self) -> MsgChannel {
        match self {
            MessageView::Control(m) => control_slot(m.spec_channel()),
            MessageView::Status(m) => status_slot(m.spec_channel()),
        }
    }

    /// The body that carries this message.
    pub open spec fn spec_body(self) -> Seq<u8> {
        match self {
            MessageView::Control(m) => m.spec_body(),
            MessageView::Status(m) => m.spec_body(),
        }
    }
}

impl Message {
    /// The slot and body that carry this message.
    pub fn to_raw(&self) -> (r: (MsgChannel, Vec<u8>))
        ensures
            r.0 == self@.spec_channel(),
            r.1@ == self@.spec_body(),
    {
        match self {
            Message::Control(m) => {
                let (id, payload) = m.to_raw();
                (MsgChannel::from(id), payload)
            },
            Message::Status(m) => {
                let (id, payload) = m.to_raw();
                (MsgChannel::from(id), payload)
            },
        }
    }
}

/// Each control message travels on the channel of its own name, and each
/// control channel on the slot of the same name.
pub proof fn law_control_message_channel(m: ControlMessageView)
    ensures
        (m.spec_channel() == ControlMsgChannel::ProcessControlRequest) == (m is ProcessControlRequest),
        (m.spec_channel() == ControlMsgChannel::GraphicsRequest) == (m is GraphicsRequest),
        (m.spec_channel() == ControlMsgChannel::Heartbeat) == (m is Heartbeat),
        (m.spec_channel() == ControlMsgChannel::TrickleDown) == (m is TrickleDown),
        control_slot(ControlMsgChannel::ProcessControlRequest) == MsgChannel::ProcessControlRequest,
        control_slot(ControlMsgChannel::GraphicsRequest) == MsgChannel::GraphicsRequest,
        control_slot(ControlMsgChannel::Heartbeat) == MsgChannel::Heartbeat,
        control_slot(ControlMsgChannel::TrickleDown) == MsgChannel::TrickleDown,
        MessageView::Control(m).spec_channel() == control_slot(m.spec_channel()),
{
}

/// Each status message travels on the channel of its own name, and each
/// status channel on the slot of the same name.
pub proof fn law_status_message_channel(m: StatusMessageView)
    ensures
        (m.spec_channel() == StatusMsgChannel::ProcessControlReply) == (m is ProcessControlReply),
        (m.spec_channel() == StatusMsgChannel::GraphicsReply) == (m is GraphicsReply),
        (m.spec_channel() == StatusMsgChannel::AppStatus) == (m is AppStatus),
        (m.spec_channel() == StatusMsgChannel::TrickleUp) == (m is TrickleUp),
        status_slot(StatusMsgChannel::ProcessControlReply) == MsgChannel::ProcessControlReply,
        status_slot(StatusMsgChannel::GraphicsReply) == MsgChannel::GraphicsReply,
        status_slot(StatusMsgChannel::AppStatus) == MsgChannel::AppStatus,
        status_slot(StatusMsgChannel::TrickleUp) == MsgChannel::TrickleUp,
        MessageView::Status(m).spec_channel() == status_slot(m.spec_channel()),
{
}

/// A body read on a control channel gives a message of the kind that the
/// channel names, with the value that the body of that kind reads as; a
/// graphics request is read from any body, the others fail exactly where
/// their body does, with its error.
pub proof fn law_control_from_raw(c: ControlMsgChannel, b: Seq<u8>)
    ensures
        ControlMessageView::spec_from_raw(c, b) matches Ok(m) ==> m.spec_channel() == c,
        c == ControlMsgChannel::ProcessControlRequest ==> match ProcessControlRequest::spec_from_xml(b) {
            Ok(v) => ControlMessageView::spec_from_raw(c, b) == Ok::<ControlMessageView, ParseError>(
                ControlMessageView::ProcessControlRequest(v),
            ),
            Err(e) => ControlMessageView::spec_from_raw(c, b) == Err::<ControlMessageView, ParseError>(e),
        },
        c == ControlMsgChannel::GraphicsRequest ==> ControlMessageView::spec_from_raw(c, b)
            == Ok::<ControlMessageView, ParseError>(ControlMessageView::GraphicsRequest),
        c == ControlMsgChannel::Heartbeat ==> match HeartbeatView::spec_from_xml(b) {
            Ok(v) => ControlMessageView::spec_from_raw(c, b) == Ok::<ControlMessageView, ParseError>(
                ControlMessageView::Heartbeat(v),
            ),
            Err(e) => ControlMessageView::spec_from_raw(c, b) == Err::<ControlMessageView, ParseError>(e),
        },
        c == ControlMsgChannel::TrickleDown ==> match TrickleDownData::spec_from_xml(b) {
            Ok(v) => ControlMessageView::spec_from_raw(c, b) == Ok::<ControlMessageView, ParseError>(
                ControlMessageView::TrickleDown(v),
            ),
            Err(e) => ControlMessageView::spec_from_raw(c, b) == Err::<ControlMessageView, ParseError>(e),
        },
{
}

/// A body read on a status channel gives a message of the kind that the
/// channel names, with the value that the body of that kind reads as; a
/// process-control reply is read from any body, the others fail exactly
/// where their body does, with its error.
pub proof fn law_status_from_raw(c: StatusMsgChannel, b: Seq<u8>)
    ensures
        StatusMessageView::spec_from_raw(c, b) matches Ok(m) ==> m.spec_channel() == c,
        c == StatusMsgChannel::ProcessControlReply ==> StatusMessageView::spec_from_raw(c, b)
            == Ok::<StatusMessageView, ParseError>(StatusMessageView::ProcessControlReply),
        c == StatusMsgChannel::GraphicsReply ==> match GraphicsReplyDataView::spec_from_xml(b) {
            Ok(v) => StatusMessageView::spec_from_raw(c, b) == Ok::<StatusMessageView, ParseError>(
                StatusMessageView::GraphicsReply(v),
            ),
            Err(e) => StatusMessageView::spec_from_raw(c, b) == Err::<StatusMessageView, ParseError>(e),
        },
        c == StatusMsgChannel::AppStatus ==> match AppStatusDataView::spec_from_xml(b) {
            Ok(v) => StatusMessageView::spec_from_raw(c, b) == Ok::<StatusMessageView, ParseError>(
                StatusMessageView::AppStatus(v),
            ),
            Err(e) => StatusMessageView::spec_from_raw(c, b) == Err::<StatusMessageView, ParseError>(e),
        },
        c == StatusMsgChannel::TrickleUp ==> match TrickleUpData::spec_from_xml(b) {
            Ok(v) => StatusMessageView::spec_from_raw(c, b) == Ok::<StatusMessageView, ParseError>(
                StatusMessageView::TrickleUp(v),
            ),
            Err(e) => StatusMessageView::spec_from_raw(c, b) == Err::<StatusMessageView, ParseError>(e),
        },
{
}

} // verus!

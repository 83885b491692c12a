use vstd::prelude::*;

use crate::models::{
    control_slot, status_slot, ControlMessage, ControlMessageView, ControlMsgChannel, Message,
    MessageView, MsgChannel, StatusMessage, StatusMessageView, StatusMsgChannel,
};
use crate::xml::ParseError;

verus! {

/// Size in bytes of one message channel in the shared memory segment.
pub const MSG_CHANNEL_SIZE: usize = 1024;

/// The bytes of `s` up to (not including) its first zero byte.
pub open spec fn c_str(s: Seq<u8>) -> Seq<u8>
    decreases s.len(),
{
    if s.len() == 0 || s[0] == 0 {
        Seq::empty()
    } else {
        seq![s[0]] + c_str(s.drop_first())
    }
}

/// If the first `i` bytes of `s` are non-zero and `s` ends or has a zero at `i`,
/// then the C string of `s` is its first `i` bytes.
pub proof fn lemma_c_str_take(s: Seq<u8>, i: int)
    requires
        0 <= i <= s.len(),
        forall|j: int| 0 <= j < i ==> s[j] != 0,
        i == s.len() || s[i] == 0,
    ensures
        c_str(s) == s.take(i),
    decreases i,
{
    if i == 0 {
        assert(s.take(0) =~= Seq::<u8>::empty());
    } else {
        lemma_c_str_take(s.drop_first(), i - 1);
        assert(seq![s[0]] + s.drop_first().take(i - 1) =~= s.take(i));
    }
}

/// What a read gives back of a write: whatever a slot held before, after
/// `force_push(msg)` it reads back as `msg` up to its first zero byte, cut to
/// the 1020 bytes a slot holds.
pub proof fn law_peek_after_force_push(b: Seq<u8>, msg: Seq<u8>)
    requires
        b.len() == 1024,
    ensures
        MSG_CHANNEL::spec_peek(spec_force_push(b, msg)) == Some(
            msg.take(
                if c_str(msg).len() < 1020 {
                    c_str(msg).len() as int
                } else {
                    1020
                },
            ),
        ),
{
    lemma_c_str_shape(msg);
    let l: int = c_str(msg).len() as int;
    let k: int = if l < 1020 {
        l
    } else {
        1020
    };
    let nb = spec_force_push(b, msg);
    let s = nb.subrange(1, 1021);
    assert forall|j: int| 0 <= j < k implies s[j] != 0 by {
        assert(s[j] == nb[j + 1]);
    }
    if k < 1020 {
        assert(s[k] == nb[k + 1]);
    }
    lemma_c_str_take(s, k);
    assert(s.take(k) =~= msg.take(k));
}

/// A slot that was written holds a message: a second `push` is refused
/// until the slot is emptied.
pub proof fn law_force_push_fills_slot(b: Seq<u8>, msg: Seq<u8>)
    ensures
        spec_force_push(b, msg)[0] != 0,
        MSG_CHANNEL::spec_peek(spec_force_push(b, msg)) is Some,
{
}

/// Emptying a slot (as `clear` and `pop` do) leaves nothing to read.
pub proof fn law_cleared_slot_is_empty(b: Seq<u8>)
    requires
        b.len() == MSG_CHANNEL_SIZE,
    ensures
        MSG_CHANNEL::spec_peek(b.update(0, 0u8)) is None,
{
}

/// One message slot: byte 0 tells whether a message is present, the
/// message itself follows as a zero-terminated string.
#[allow(non_camel_case_types)]
pub struct MSG_CHANNEL {
    buf: [u8; 1024],
}

impl View for MSG_CHANNEL {
    type V = Seq<u8>;

    closed spec fn view(&self) -> Seq<u8> {
        self.buf@
    }
}

/// Result of offering a message to a slot that may still be occupied.
pub enum AsyncSink<T> {
    /// The message was taken.
    Ready,
    /// The slot was occupied; the message is handed back.
    NotReady(T),
}

/// Number of message bytes that `force_push` copies into a slot: up to and
/// including the first zero byte, and never more than the slot holds.
pub open spec fn written_len(msg: Seq<u8>) -> int {
    let z: int = (c_str(msg).len() + 1) as int;
    let n: int = if z < msg.len() { z } else { msg.len() as int };
    if n < 1022 { n } else { 1022 }
}

/// `force_push(msg)` copies no zero byte and stops short of the slot's end,
/// so it writes a zero byte after the message to end it.
pub open spec fn needs_terminator(msg: Seq<u8>) -> bool {
    c_str(msg).len() == msg.len() && msg.len() < 1022
}

/// The bytes of a slot after `force_push(msg)` on a slot that held `b`.
pub open spec fn spec_force_push(b: Seq<u8>, msg: Seq<u8>) -> Seq<u8> {
    Seq::new(
        1024,
        |i: int|
            if i == 0 {
                1u8
            } else if i == 1023 {
                0u8
            } else if i <= written_len(msg) {
                msg[i - 1]
            } else if i == written_len(msg) + 1 && needs_terminator(msg) {
                0u8
            } else {
                b[i]
            },
    )
}

/// `c_str(msg)` is a prefix of `msg` without zero bytes, followed by a zero
/// byte or the end of `msg`.
pub proof fn lemma_c_str_shape(msg: Seq<u8>)
    ensures
        c_str(msg).len() <= msg.len(),
        c_str(msg) == msg.take(c_str(msg).len() as int),
        forall|j: int| 0 <= j < c_str(msg).len() ==> msg[j] != 0,
        c_str(msg).len() < msg.len() ==> msg[c_str(msg).len() as int] == 0,
    decreases msg.len(),
{
    if msg.len() == 0 || msg[0] == 0 {
        assert(msg.take(0) =~= Seq::<u8>::empty());
    } else {
        lemma_c_str_shape(msg.drop_first());
        let t = msg.drop_first();
        assert(seq![msg[0]] + t.take(c_str(t).len() as int) =~= msg.take(c_str(t).len() + 1 as int));
        assert forall|j: int| 0 <= j < c_str(msg).len() implies msg[j] != 0 by {
            if j > 0 {
                assert(msg[j] == t[j - 1]);
            }
        }
    }
}

/// A slot always has its full size.
pub broadcast proof fn lemma_channel_len(c: MSG_CHANNEL)
    ensures
        #[trigger] c@.len() == MSG_CHANNEL_SIZE,
{
}

impl MSG_CHANNEL {
    /// The message that `peek` reads back from the raw bytes `b` of a slot.
    pub open spec fn spec_peek(b: Seq<u8>) -> Option<Seq<u8>> {
        if b[0] == 0 {
            None
        } else {
            Some(c_str(b.subrange(1, 1021)))
        }
    }

    /// Whether the slot holds no message.
    pub fn is_empty(&self) -> (r: bool)
        ensures
            r == (self@[0] == 0),
    {
        self.buf[0] == 0
    }

    /// Marks the slot empty.
    pub fn clear(&mut self)
        ensures
            final(self)@ == old(self)@.update(0, 0u8),
    {
        self.buf[0] = 0;
    }

    /// The message in the slot, left in place.
    pub fn peek(&self) -> (r: Option<Vec<u8>>)
        ensures
            r matches Some(v) ==> Self::spec_peek(self@) == Some(v@),
            r is None ==> Self::spec_peek(self@) is None,
    {
        if self.is_empty() {
            None
        } else {
            let mut v: Vec<u8> = Vec::new();
            let mut i: usize = 1;
            while i < 1021 && self.buf[i] != 0
                invariant
                    1 <= i <= 1021,
                    self@.len() == 1024,
                    v@ == self@.subrange(1, i as int),
                    forall|j: int| 1 <= j < i ==> self@[j] != 0,
                decreases 1021 - i,
            {
                v.push(self.buf[i]);
                i = i + 1;
            }
            proof {
                let s = self@.subrange(1, 1021);
                lemma_c_str_take(s, i - 1);
                assert(s.take(i - 1) =~= self@.subrange(1, i as int));
            }
            Some(v)
        }
    }

    /// The bytes of a slot that held `b` after the flag byte is set and the
    /// first `i` bytes of `msg` are copied in.
    pub open spec fn written_prefix(b: Seq<u8>, msg: Seq<u8>, i: int) -> Seq<u8> {
        Seq::new(
            1024,
            |k: int|
                if k == 0 {
                    1u8
                } else if 1 <= k <= i {
                    msg[k - 1]
                } else {
                    b[k]
                },
        )
    }

    /// Takes the message out of the slot, if there is one.
    pub fn pop(&mut self) -> (r: Option<Vec<u8>>)
        ensures
            r matches Some(v) ==> Self::spec_peek(old(self)@) == Some(v@),
            r is None ==> Self::spec_peek(old(self)@) is None,
            final(self)@ == old(self)@.update(0, 0u8),
    {
        let v = self.peek();
        self.clear();
        v
    }

    /// Writes `msg` into the slot whether or not it is occupied, and ends it
    /// with a zero byte where it has none of its own and room is left, so that
    /// nothing of an earlier message is read after it.
    pub fn force_push(&mut self, msg: &[u8])
        ensures
            final(self)@ == spec_force_push(old(self)@, msg@),
    {
        let ghost old_buf = self@;
        proof {
            lemma_c_str_shape(msg@);
        }
        self.buf[0] = 1;
        let n: usize = if msg.len() < 1022 { msg.len() } else { 1022 };
        let mut i: usize = 0;
        assert(self@ =~= Self::written_prefix(old_buf, msg@, 0));
        while i < n
            invariant_except_break
                i <= n,
                n <= 1022,
                n <= msg@.len(),
                n == msg@.len() || n == 1022,
                forall|j: int| 0 <= j < i ==> msg@[j] != 0,
                self@ == Self::written_prefix(old_buf, msg@, i as int),
            ensures
                i <= n,
                n <= 1022,
                n <= msg@.len(),
                n == msg@.len() || n == 1022,
                self@ == Self::written_prefix(old_buf, msg@, i as int),
                (i == n && forall|j: int| 0 <= j < i ==> msg@[j] != 0) || (1 <= i && msg@[i - 1]
                    == 0 && forall|j: int| 0 <= j < i - 1 ==> msg@[j] != 0),
            decreases n - i,
        {
            let c: u8 = msg[i];
            self.buf[i + 1] = c;
            i = i + 1;
            assert(self@ =~= Self::written_prefix(old_buf, msg@, i as int));
            if c == 0 {
                break;
            }
        }
        proof {
            lemma_c_str_shape(msg@);
            let l: int = c_str(msg@).len() as int;
            if i == n && forall|j: int| 0 <= j < i ==> msg@[j] != 0 {
                if l < n {
                    assert(msg@[l] == 0);
                }
            } else {
                if l < i - 1 {
                    assert(msg@[l] == 0);
                } else if l > i - 1 {
                    assert(msg@[i - 1] != 0);
                }
            }
            assert(written_len(msg@) == i);
        }
        let ended = i > 0 && msg[i - 1] == 0;
        if !ended && i < 1022 {
            self.buf[i + 1] = 0;
        }
        proof {
            lemma_c_str_shape(msg@);
            assert(needs_terminator(msg@) == (!ended && i < 1022));
        }
        self.buf[1023] = 0;
        assert(self@ =~= spec_force_push(old_buf, msg@));
    }

    /// Writes `msg` into the slot only if the slot is empty.
    pub fn push(&mut self, msg: Vec<u8>) -> (r: AsyncSink<Vec<u8>>)
        ensures
            old(self)@[0] != 0 ==> r == AsyncSink::NotReady(msg) && final(self)@ == old(self)@,
            old(self)@[0] == 0 ==> r == AsyncSink::<Vec<u8>>::Ready && final(self)@
                == spec_force_push(old(self)@, msg@),
    {
        if !self.is_empty() {
            AsyncSink::NotReady(msg)
        } else {
            self.force_push(msg.as_slice());
            AsyncSink::Ready
        }
    }

    /// A slot holding the raw bytes `buf`, as laid out in shared memory.
    pub fn from_bytes(buf: [u8; 1024]) -> (r: Self)
        ensures
            r@ == buf@,
    {
        MSG_CHANNEL { buf }
    }

    /// The raw bytes of the slot, as laid out in shared memory.
    pub fn to_bytes(&self) -> (r: [u8; 1024])
        ensures
            r@ == self@,
    {
        self.buf
    }

    /// An empty slot with every byte zero.
    pub fn new() -> (r: Self)
        ensures
            r@ == Seq::new(1024, |i: int| 0u8),
    {
        let r = MSG_CHANNEL { buf: [0u8; 1024] };
        assert(r@ =~= Seq::new(1024, |i: int| 0u8));
        r
    }
}

/// The memory segment shared by client and application: one slot per channel.
#[allow(non_camel_case_types)]
pub struct SHARED_MEM {
    pub process_control_request: MSG_CHANNEL,
    pub process_control_reply: MSG_CHANNEL,
    pub graphics_request: MSG_CHANNEL,
    pub graphics_reply: MSG_CHANNEL,
    pub heartbeat: MSG_CHANNEL,
    pub app_status: MSG_CHANNEL,
    pub trickle_up: MSG_CHANNEL,
    pub trickle_down: MSG_CHANNEL,
}

impl SHARED_MEM {
    /// The slot that channel `m` uses.
    pub open spec fn spec_channel(&self, m: MsgChannel) -> MSG_CHANNEL {
        match m {
            MsgChannel::ProcessControlRequest => self.process_control_request,
            MsgChannel::ProcessControlReply => self.process_control_reply,
            MsgChannel::GraphicsRequest => self.graphics_request,
            MsgChannel::GraphicsReply => self.graphics_reply,
            MsgChannel::Heartbeat => self.heartbeat,
            MsgChannel::AppStatus => self.app_status,
            MsgChannel::TrickleUp => self.trickle_up,
            MsgChannel::TrickleDown => self.trickle_down,
        }
    }

    /// The bytes of the slot that channel `m` uses.
    pub open spec fn slot(&self, m: MsgChannel) -> Seq<u8> {
        self.spec_channel(m)@
    }

    /// This memory with the slot of channel `m` replaced by `c`.
    pub open spec fn with_channel(self, m: MsgChannel, c: MSG_CHANNEL) -> SHARED_MEM {
        match m {
            MsgChannel::ProcessControlRequest => SHARED_MEM { process_control_request: c, ..self },
            MsgChannel::ProcessControlReply => SHARED_MEM { process_control_reply: c, ..self },
            MsgChannel::GraphicsRequest => SHARED_MEM { graphics_request: c, ..self },
            MsgChannel::GraphicsReply => SHARED_MEM { graphics_reply: c, ..self },
            MsgChannel::Heartbeat => SHARED_MEM { heartbeat: c, ..self },
            MsgChannel::AppStatus => SHARED_MEM { app_status: c, ..self },
            MsgChannel::TrickleUp => SHARED_MEM { trickle_up: c, ..self },
            MsgChannel::TrickleDown => SHARED_MEM { trickle_down: c, ..self },
        }
    }

    /// Memory with every byte zero.
    pub fn new() -> (r: Self)
        ensures
            forall|m: MsgChannel| #[trigger] r.slot(m) == Seq::new(1024, |i: int| 0u8),
    {
        SHARED_MEM {
            process_control_request: MSG_CHANNEL::new(),
            process_control_reply: MSG_CHANNEL::new(),
            graphics_request: MSG_CHANNEL::new(),
            graphics_reply: MSG_CHANNEL::new(),
            heartbeat: MSG_CHANNEL::new(),
            app_status: MSG_CHANNEL::new(),
            trickle_up: MSG_CHANNEL::new(),
            trickle_down: MSG_CHANNEL::new(),
        }
    }

    /// The slot of channel `m`.
    pub fn get_channel(&self, m: MsgChannel) -> (r: &MSG_CHANNEL)
        ensures
            *r == self.spec_channel(m),
    {
        match m {
            MsgChannel::ProcessControlRequest => &self.process_control_request,
            MsgChannel::ProcessControlReply => &self.process_control_reply,
            MsgChannel::GraphicsRequest => &self.graphics_request,
            MsgChannel::GraphicsReply => &self.graphics_reply,
            MsgChannel::Heartbeat => &self.heartbeat,
            MsgChannel::AppStatus => &self.app_status,
            MsgChannel::TrickleUp => &self.trickle_up,
            MsgChannel::TrickleDown => &self.trickle_down,
        }
    }

    /// The slot of channel `m`, to change it.
    pub fn get_channel_mut(&mut self, m: MsgChannel) -> (r: &mut MSG_CHANNEL)
        ensures
            *r == old(self).spec_channel(m),
            *final(self) == old(self).with_channel(m, *final(r)),
    {
        match m {
            MsgChannel::ProcessControlRequest => &mut self.process_control_request,
            MsgChannel::ProcessControlReply => &mut self.process_control_reply,
            MsgChannel::GraphicsRequest => &mut self.graphics_request,
            MsgChannel::GraphicsReply => &mut self.graphics_reply,
            MsgChannel::Heartbeat => &mut self.heartbeat,
            MsgChannel::AppStatus => &mut self.app_status,
            MsgChannel::TrickleUp => &mut self.trickle_up,
            MsgChannel::TrickleDown => &mut self.trickle_down,
        }
    }

    /// Whether channel `c` holds no message.
    pub fn is_empty(&self, c: MsgChannel) -> (r: bool)
        ensures
            r == (self.slot(c)[0] == 0),
    {
        self.get_channel(c).is_empty()
    }

    /// The message in channel `c`, left in place.
    pub fn peek(&self, c: MsgChannel) -> (r: Option<Vec<u8>>)
        ensures
            r matches Some(v) ==> MSG_CHANNEL::spec_peek(self.slot(c)) == Some(v@),
            r is None ==> MSG_CHANNEL::spec_peek(self.slot(c)) is None,
    {
        self.get_channel(c).peek()
    }

    /// Takes the message out of channel `c`.
    pub fn receive(&mut self, c: MsgChannel) -> (r: Option<Vec<u8>>)
        ensures
            r matches Some(v) ==> MSG_CHANNEL::spec_peek(old(self).slot(c)) == Some(v@),
            r is None ==> MSG_CHANNEL::spec_peek(old(self).slot(c)) is None,
            final(self).slot(c) == old(self).slot(c).update(0, 0u8),
            forall|o: MsgChannel| o != c ==> #[trigger] final(self).slot(o) == old(self).slot(o),
    {
        self.get_channel_mut(c).pop()
    }

    /// Empties channel `c`.
    pub fn clear(&mut self, c: MsgChannel)
        ensures
            final(self).slot(c) == old(self).slot(c).update(0, 0u8),
            forall|o: MsgChannel| o != c ==> #[trigger] final(self).slot(o) == old(self).slot(o),
    {
        self.get_channel_mut(c).clear()
    }

    /// Writes `m.1` into channel `m.0` if that channel is empty; otherwise
    /// hands `m` back.
    pub fn push_unchecked(&mut self, m: (MsgChannel, Vec<u8>)) -> (r: AsyncSink<(MsgChannel, Vec<u8>)>)
        ensures
            old(self).slot(m.0)[0] != 0 ==> r == AsyncSink::NotReady(m) && *final(self) == *old(self),
            old(self).slot(m.0)[0] == 0 ==> r is Ready && final(self).slot(m.0) == spec_force_push(
                old(self).slot(m.0),
                m.1@,
            ),
            forall|o: MsgChannel| o != m.0 ==> #[trigger] final(self).slot(o) == old(self).slot(o),
    {
        let (c, v) = m;
        if !self.is_empty(c) {
            AsyncSink::NotReady((c, v))
        } else {
            self.get_channel_mut(c).force_push(v.as_slice());
            AsyncSink::Ready
        }
    }

    /// Writes `m.1` into channel `m.0`, replacing what it held.
    pub fn force_unchecked(&mut self, m: (MsgChannel, Vec<u8>))
        ensures
            final(self).slot(m.0) == spec_force_push(old(self).slot(m.0), m.1@),
            forall|o: MsgChannel| o != m.0 ==> #[trigger] final(self).slot(o) == old(self).slot(o),
    {
        let (c, v) = m;
        self.get_channel_mut(c).force_push(v.as_slice());
    }
}

/// Each channel uses the slot of its own name in the shared memory, and
/// replacing the slot of a channel changes that slot and no other.
pub proof fn law_channels_use_their_own_slots(mem: SHARED_MEM, m: MsgChannel, o: MsgChannel, c: MSG_CHANNEL)
    ensures
        mem.spec_channel(MsgChannel::ProcessControlRequest) == mem.process_control_request,
        mem.spec_channel(MsgChannel::ProcessControlReply) == mem.process_control_reply,
        mem.spec_channel(MsgChannel::GraphicsRequest) == mem.graphics_request,
        mem.spec_channel(MsgChannel::GraphicsReply) == mem.graphics_reply,
        mem.spec_channel(MsgChannel::Heartbeat) == mem.heartbeat,
        mem.spec_channel(MsgChannel::AppStatus) == mem.app_status,
        mem.spec_channel(MsgChannel::TrickleUp) == mem.trickle_up,
        mem.spec_channel(MsgChannel::TrickleDown) == mem.trickle_down,
        mem.with_channel(m, c).spec_channel(m) == c,
        o != m ==> mem.with_channel(m, c).spec_channel(o) == mem.spec_channel(o),
{
}

/// The body of the message in a slot with bytes `b` (meaningful when the slot is full).
pub open spec fn slot_body(b: Seq<u8>) -> Seq<u8> {
    c_str(b.subrange(1, 1021))
}

/// The first of the status channels `ids` whose slot holds a message.
pub open spec fn first_full_status(mem: SHARED_MEM, ids: Seq<StatusMsgChannel>) -> Option<
    StatusMsgChannel,
>
    decreases ids.len(),
{
    if ids.len() == 0 {
        None
    } else if mem.slot(status_slot(ids[0]))[0] != 0 {
        Some(ids[0])
    } else {
        first_full_status(mem, ids.drop_first())
    }
}

/// The first of the control channels `ids` whose slot holds a message.
pub open spec fn first_full_control(mem: SHARED_MEM, ids: Seq<ControlMsgChannel>) -> Option<
    ControlMsgChannel,
>
    decreases ids.len(),
{
    if ids.len() == 0 {
        None
    } else if mem.slot(control_slot(ids[0]))[0] != 0 {
        Some(ids[0])
    } else {
        first_full_control(mem, ids.drop_first())
    }
}

/// The status channel found holds a message.
pub proof fn lemma_first_full_status(mem: SHARED_MEM, ids: Seq<StatusMsgChannel>)
    ensures
        first_full_status(mem, ids) matches Some(c) ==> mem.slot(status_slot(c))[0] != 0,
    decreases ids.len(),
{
    if ids.len() > 0 {
        lemma_first_full_status(mem, ids.drop_first());
    }
}

/// The control channel found holds a message.
pub proof fn lemma_first_full_control(mem: SHARED_MEM, ids: Seq<ControlMsgChannel>)
    ensures
        first_full_control(mem, ids) matches Some(c) ==> mem.slot(control_slot(c))[0] != 0,
    decreases ids.len(),
{
    if ids.len() > 0 {
        lemma_first_full_control(mem, ids.drop_first());
    }
}

impl SHARED_MEM {
    /// The status channel that `pull_status` takes a message from.
    pub open spec fn next_status(self) -> Option<StatusMsgChannel> {
        first_full_status(self, StatusMsgChannel::spec_all())
    }

    /// The control channel that `pull_control` takes a message from.
    pub open spec fn next_control(self) -> Option<ControlMsgChannel> {
        first_full_control(self, ControlMsgChannel::spec_all())
    }

    /// The message that `pull_status` reads, if it can be read.
    pub open spec fn spec_pull_status(self) -> Option<Result<StatusMessageView, ParseError>> {
        match self.next_status() {
            Some(c) => Some(StatusMessageView::spec_from_raw(c, slot_body(self.slot(status_slot(c))))),
            None => None,
        }
    }

    /// The message that `pull_control` reads, if it can be read.
    pub open spec fn spec_pull_control(self) -> Option<Result<ControlMessageView, ParseError>> {
        match self.next_control() {
            Some(c) => Some(ControlMessageView::spec_from_raw(c, slot_body(self.slot(control_slot(c))))),
            None => None,
        }
    }

    /// Finds the status channel that holds the next message.
    pub fn find_next_status(&self) -> (r: Option<StatusMsgChannel>)
        ensures
            r == self.next_status(),
    {
        let ids = StatusMsgChannel::enum_iter();
        let mut k: usize = 0;
        assert(ids@.subrange(0, ids@.len() as int) =~= ids@);
        while k < ids.len()
            invariant
                ids@ == StatusMsgChannel::spec_all(),
                k <= ids@.len(),
                self.next_status() == first_full_status(*self, ids@.subrange(k as int, ids@.len() as int)),
            decreases ids.len() - k,
        {
            let id = ids[k];
            if !self.is_empty(MsgChannel::from(id)) {
                return Some(id);
            }
            assert(ids@.subrange(k as int, ids@.len() as int).drop_first() =~= ids@.subrange(
                k + 1,
                ids@.len() as int,
            ));
            k = k + 1;
        }
        None
    }

    /// Finds the control channel that holds the next message.
    pub fn find_next_control(&self) -> (r: Option<ControlMsgChannel>)
        ensures
            r == self.next_control(),
    {
        let ids = ControlMsgChannel::enum_iter();
        let mut k: usize = 0;
        assert(ids@.subrange(0, ids@.len() as int) =~= ids@);
        while k < ids.len()
            invariant
                ids@ == ControlMsgChannel::spec_all(),
                k <= ids@.len(),
                self.next_control() == first_full_control(*self, ids@.subrange(k as int, ids@.len() as int)),
            decreases ids.len() - k,
        {
            let id = ids[k];
            if !self.is_empty(MsgChannel::from(id)) {
                return Some(id);
            }
            assert(ids@.subrange(k as int, ids@.len() as int).drop_first() =~= ids@.subrange(
                k + 1,
                ids@.len() as int,
            ));
            k = k + 1;
        }
        None
    }
}

impl SHARED_MEM {
    /// Takes the next status message: the one in the first status channel, in
    /// polling order, that holds a message. That message must be readable.
    pub fn pull_status(&mut self) -> (r: Option<StatusMessage>)
        requires
            !(old(self).spec_pull_status() matches Some(Err(_))),
        ensures
            match old(self).next_status() {
                None => r is None,
                Some(c) => r matches Some(m) && old(self).spec_pull_status() == Some(
                    Ok::<StatusMessageView, ParseError>(m@),
                ) && final(self).slot(status_slot(c)) == old(self).slot(status_slot(c)).update(0, 0u8),
            },
            forall|m: MsgChannel|
                !(old(self).next_status() matches Some(c) && m == status_slot(c))
                    ==> #[trigger] final(self).slot(m) == old(self).slot(m),
    {
        let ghost old_mem = *self;
        let ids = StatusMsgChannel::enum_iter();
        let mut k: usize = 0;
        assert(ids@.subrange(0, ids@.len() as int) =~= ids@);
        while k < ids.len()
            invariant
                ids@ == StatusMsgChannel::spec_all(),
                old_mem == *old(self),
                k <= ids@.len(),
                old_mem.next_status() == first_full_status(old_mem, ids@.subrange(k as int, ids@.len() as int)),
                forall|m: MsgChannel| #[trigger] self.slot(m) == old_mem.slot(m),
                !(old_mem.spec_pull_status() matches Some(Err(_))),
            decreases ids.len() - k,
        {
            let id = ids[k];
            let ghost before = *self;
            let popped = self.receive(MsgChannel::from(id));
            match popped {
                Some(v) => {
                    assert(old_mem.next_status() == Some(id));
                    match StatusMessage::from_raw(id, v) {
                        Ok(m) => {
                            return Some(m);
                        },
                        Err(_) => {
                            proof {
                                assert(false);
                            }
                            return None;
                        },
                    }
                },
                None => {
                    proof {
                        let c = status_slot(id);
                        assert(self.slot(c) =~= old_mem.slot(c));
                        assert forall|m: MsgChannel| #[trigger] self.slot(m) == old_mem.slot(m) by {
                            if m != c {
                                assert(self.slot(m) == before.slot(m));
                            }
                        }
                    }
                },
            }
            assert(ids@.subrange(k as int, ids@.len() as int).drop_first() =~= ids@.subrange(
                k + 1,
                ids@.len() as int,
            ));
            k = k + 1;
        }
        None
    }

    /// Takes the next control message: the one in the first control channel,
    /// in polling order, that holds a message. That message must be readable.
    pub fn pull_control(&mut self) -> (r: Option<ControlMessage>)
        requires
            !(old(self).spec_pull_control() matches Some(Err(_))),
        ensures
            match old(self).next_control() {
                None => r is None,
                Some(c) => r matches Some(m) && old(self).spec_pull_control() == Some(
                    Ok::<ControlMessageView, ParseError>(m@),
                ) && final(self).slot(control_slot(c)) == old(self).slot(control_slot(c)).update(0, 0u8),
            },
            forall|m: MsgChannel|
                !(old(self).next_control() matches Some(c) && m == control_slot(c))
                    ==> #[trigger] final(self).slot(m) == old(self).slot(m),
    {
        let ghost old_mem = *self;
        let ids = ControlMsgChannel::enum_iter();
        let mut k: usize = 0;
        assert(ids@.subrange(0, ids@.len() as int) =~= ids@);
        while k < ids.len()
            invariant
                ids@ == ControlMsgChannel::spec_all(),
                old_mem == *old(self),
                k <= ids@.len(),
                old_mem.next_control() == first_full_control(old_mem, ids@.subrange(k as int, ids@.len() as int)),
                forall|m: MsgChannel| #[trigger] self.slot(m) == old_mem.slot(m),
                !(old_mem.spec_pull_control() matches Some(Err(_))),
            decreases ids.len() - k,
        {
            let id = ids[k];
            let ghost before = *self;
            let popped = self.receive(MsgChannel::from(id));
            match popped {
                Some(v) => {
                    assert(old_mem.next_control() == Some(id));
                    match ControlMessage::from_raw(id, v) {
                        Ok(m) => {
                            return Some(m);
                        },
                        Err(_) => {
                            proof {
                                assert(false);
                            }
                            return None;
                        },
                    }
                },
                None => {
                    proof {
                        let c = control_slot(id);
                        assert(self.slot(c) =~= old_mem.slot(c));
                        assert forall|m: MsgChannel| #[trigger] self.slot(m) == old_mem.slot(m) by {
                            if m != c {
                                assert(self.slot(m) == before.slot(m));
                            }
                        }
                    }
                },
            }
            assert(ids@.subrange(k as int, ids@.len() as int).drop_first() =~= ids@.subrange(
                k + 1,
                ids@.len() as int,
            ));
            k = k + 1;
        }
        None
    }
}

impl SHARED_MEM {
    /// Takes the next status message if it can be read. Where the first status
    /// channel that holds a message holds one that cannot be read, the error is
    /// returned and the memory is left as it was.
    pub fn try_pull_status(&mut self) -> (r: Option<Result<StatusMessage, ParseError>>)
        ensures
            old(self).spec_pull_status() is None ==> r is None,
            old(self).spec_pull_status() matches Some(Err(e)) ==> r == Some(Err::<StatusMessage, ParseError>(e)),
            old(self).spec_pull_status() matches Some(Ok(v)) ==> r matches Some(Ok(m)) && m@ == v,
            old(self).spec_pull_status() matches Some(Ok(_)) ==> final(self).slot(status_slot(old(self).next_status().unwrap()))
                == old(self).slot(status_slot(old(self).next_status().unwrap())).update(0, 0u8),
            forall|m: MsgChannel|
                !(old(self).spec_pull_status() matches Some(Ok(_)) && m == status_slot(old(self).next_status().unwrap()))
                    ==> #[trigger] final(self).slot(m) == old(self).slot(m),
    {
        proof {
            lemma_first_full_status(*self, StatusMsgChannel::spec_all());
        }
        match self.find_next_status() {
            None => None,
            Some(c) => {
                let body = self.peek(MsgChannel::from(c));
                match body {
                    None => {
                        proof {
                            assert(false);
                        }
                        None
                    },
                    Some(v) => match StatusMessage::from_raw(c, v) {
                        Err(e) => Some(Err(e)),
                        Ok(_) => match self.pull_status() {
                            Some(m) => Some(Ok(m)),
                            None => {
                                proof {
                                    assert(false);
                                }
                                None
                            },
                        },
                    },
                }
            },
        }
    }
}

impl SHARED_MEM {
    /// Takes the next control message if it can be read. Where the first control
    /// channel that holds a message holds one that cannot be read, the error is
    /// returned and the memory is left as it was.
    pub fn try_pull_control(&mut self) -> (r: Option<Result<ControlMessage, ParseError>>)
        ensures
            old(self).spec_pull_control() is None ==> r is None,
            old(self).spec_pull_control() matches Some(Err(e)) ==> r == Some(Err::<ControlMessage, ParseError>(e)),
            old(self).spec_pull_control() matches Some(Ok(v)) ==> r matches Some(Ok(m)) && m@ == v,
            old(self).spec_pull_control() matches Some(Ok(_)) ==> final(self).slot(control_slot(old(self).next_control().unwrap()))
                == old(self).slot(control_slot(old(self).next_control().unwrap())).update(0, 0u8),
            forall|m: MsgChannel|
                !(old(self).spec_pull_control() matches Some(Ok(_)) && m == control_slot(old(self).next_control().unwrap()))
                    ==> #[trigger] final(self).slot(m) == old(self).slot(m),
    {
        proof {
            lemma_first_full_control(*self, ControlMsgChannel::spec_all());
        }
        match self.find_next_control() {
            None => None,
            Some(c) => {
                let body = self.peek(MsgChannel::from(c));
                match body {
                    None => {
                        proof {
                            assert(false);
                        }
                        None
                    },
                    Some(v) => match ControlMessage::from_raw(c, v) {
                        Err(e) => Some(Err(e)),
                        Ok(_) => match self.pull_control() {
                            Some(m) => Some(Ok(m)),
                            None => {
                                proof {
                                    assert(false);
                                }
                                None
                            },
                        },
                    },
                }
            },
        }
    }
}

impl SHARED_MEM {
    /// Sends `m` on its channel if that channel is empty; otherwise hands `m` back.
    pub fn push(&mut self, m: Message) -> (r: AsyncSink<Message>)
        ensures
            old(self).slot(m@.spec_channel())[0] != 0 ==> r == AsyncSink::NotReady(m) && forall|o: MsgChannel|
                #[trigger] final(self).slot(o) == old(self).slot(o),
            old(self).slot(m@.spec_channel())[0] == 0 ==> r is Ready && final(self).slot(m@.spec_channel())
                == spec_force_push(old(self).slot(m@.spec_channel()), m@.spec_body()),
            forall|o: MsgChannel|
                o != m@.spec_channel() ==> #[trigger] final(self).slot(o) == old(self).slot(o),
    {
        let (c, v) = m.to_raw();
        match self.push_unchecked((c, v)) {
            AsyncSink::Ready => AsyncSink::Ready,
            AsyncSink::NotReady(_) => AsyncSink::NotReady(m),
        }
    }

    /// Sends `m` on its channel, replacing what the channel held.
    pub fn force(&mut self, m: Message)
        ensures
            final(self).slot(m@.spec_channel()) == spec_force_push(
                old(self).slot(m@.spec_channel()),
                m@.spec_body(),
            ),
            forall|o: MsgChannel|
                o != m@.spec_channel() ==> #[trigger] final(self).slot(o) == old(self).slot(o),
    {
        let raw = m.to_raw();
        self.force_unchecked(raw);
    }
}

impl Default for MSG_CHANNEL {
    fn default() -> (r: Self)
        ensures
            r@ == Seq::new(1024, |i: int| 0u8),
    {
        MSG_CHANNEL::new()
    }
}

impl Default for SHARED_MEM {
    fn default() -> (r: Self)
        ensures
            forall|m: MsgChannel| #[trigger] r.slot(m) == Seq::new(1024, |i: int| 0u8),
    {
        SHARED_MEM::new()
    }
}

} // verus!

use vstd::prelude::*;

use crate::models::MsgChannel;
use crate::shmem::{
    c_str, law_peek_after_force_push, lemma_channel_len, spec_force_push, AsyncSink, MSG_CHANNEL,
    SHARED_MEM,
};

verus! {

/// Messages waiting to be written to the shared memory: at most one per channel.
pub struct OutgoingSlots {
    process_control_request: Option<Vec<u8>>,
    process_control_reply: Option<Vec<u8>>,
    graphics_request: Option<Vec<u8>>,
    graphics_reply: Option<Vec<u8>>,
    heartbeat: Option<Vec<u8>>,
    app_status: Option<Vec<u8>>,
    trickle_up: Option<Vec<u8>>,
    trickle_down: Option<Vec<u8>>,
}

/// The bytes of an optional buffer.
pub open spec fn opt_bytes(o: Option<Vec<u8>>) -> Option<Seq<u8>> {
    match o {
        Some(v) => Some(v@),
        None => None,
    }
}

impl OutgoingSlots {
    /// The message waiting for channel `m`.
    pub closed spec fn spec_slot(&self, m: MsgChannel) -> Option<Seq<u8>> {
        opt_bytes(
            match m {
                MsgChannel::ProcessControlRequest => self.process_control_request,
                MsgChannel::ProcessControlReply => self.process_control_reply,
                MsgChannel::GraphicsRequest => self.graphics_request,
                MsgChannel::GraphicsReply => self.graphics_reply,
                MsgChannel::Heartbeat => self.heartbeat,
                MsgChannel::AppStatus => self.app_status,
                MsgChannel::TrickleUp => self.trickle_up,
                MsgChannel::TrickleDown => self.trickle_down,
            },
        )
    }

    fn slot_mut(&mut self, m: MsgChannel) -> (r: &mut Option<Vec<u8>>)
        ensures
            opt_bytes(*r) == old(self).spec_slot(m),
            final(self).spec_slot(m) == opt_bytes(*final(r)),
            forall|o: MsgChannel| o != m ==> #[trigger] final(self).spec_slot(o) == old(self).spec_slot(o),
    {
        match m {
            MsgChannel::ProcessControlRequest => &mut self.process_control_request,
            MsgChannel::ProcessControlReply => &mut self.process_control_reply,
            MsgChannel::GraphicsRequest => &mut self.graphics_request,
            MsgChannel::GraphicsReply => &mut self.graphics_reply,
            MsgChannel::Heartbeat => &mut self.heartbeat,
            MsgChannel::AppStatus => &mut self.app_status,
            MsgChannel::TrickleUp => &mut self.trickle_up,
            MsgChannel::TrickleDown => &mut self.trickle_down,
        }
    }
}

impl View for OutgoingSlots {
    type V = Map<MsgChannel, Seq<u8>>;

    open spec fn view(&self) -> Map<MsgChannel, Seq<u8>> {
        Map::new(|m: MsgChannel| self.spec_slot(m) is Some, |m: MsgChannel| self.spec_slot(m).unwrap())
    }
}

impl OutgoingSlots {
    /// No waiting messages.
    pub fn new() -> (r: Self)
        ensures
            r@ == Map::<MsgChannel, Seq<u8>>::empty(),
    {
        let r = OutgoingSlots {
            process_control_request: None,
            process_control_reply: None,
            graphics_request: None,
            graphics_reply: None,
            heartbeat: None,
            app_status: None,
            trickle_up: None,
            trickle_down: None,
        };
        assert(r@ =~= Map::<MsgChannel, Seq<u8>>::empty());
        r
    }

    /// Whether no message is waiting.
    pub fn is_empty(&self) -> (r: bool)
        ensures
            r == (self@ == Map::<MsgChannel, Seq<u8>>::empty()),
    {
        let r = self.process_control_request.is_none() && self.process_control_reply.is_none()
            && self.graphics_request.is_none() && self.graphics_reply.is_none()
            && self.heartbeat.is_none() && self.app_status.is_none() && self.trickle_up.is_none()
            && self.trickle_down.is_none();
        proof {
            if r {
                assert(self@ =~= Map::<MsgChannel, Seq<u8>>::empty());
            } else {
                assert(self@ != Map::<MsgChannel, Seq<u8>>::empty()) by {
                    if self.process_control_request.is_some() {
                        assert(self@.contains_key(MsgChannel::ProcessControlRequest));
                    } else if self.process_control_reply.is_some() {
                        assert(self@.contains_key(MsgChannel::ProcessControlReply));
                    } else if self.graphics_request.is_some() {
                        assert(self@.contains_key(MsgChannel::GraphicsRequest));
                    } else if self.graphics_reply.is_some() {
                        assert(self@.contains_key(MsgChannel::GraphicsReply));
                    } else if self.heartbeat.is_some() {
                        assert(self@.contains_key(MsgChannel::Heartbeat));
                    } else if self.app_status.is_some() {
                        assert(self@.contains_key(MsgChannel::AppStatus));
                    } else if self.trickle_up.is_some() {
                        assert(self@.contains_key(MsgChannel::TrickleUp));
                    } else {
                        assert(self@.contains_key(MsgChannel::TrickleDown));
                    }
                }
            }
        }
        r
    }

    /// Puts `data` in the slot of channel `c`, and returns what it held.
    pub fn insert(&mut self, c: MsgChannel, data: Vec<u8>) -> (r: Option<Vec<u8>>)
        ensures
            final(self)@ == old(self)@.insert(c, data@),
            opt_bytes(r) == (if old(self)@.contains_key(c) {
                Some(old(self)@[c])
            } else {
                None
            }),
    {
        let slot = self.slot_mut(c);
        let prev = slot.take();
        *slot = Some(data);
        assert(self@ =~= old(self)@.insert(c, data@));
        prev
    }

    /// Takes the message waiting for channel `c`.
    pub fn remove(&mut self, c: MsgChannel) -> (r: Option<Vec<u8>>)
        ensures
            final(self)@ == old(self)@.remove(c),
            opt_bytes(r) == (if old(self)@.contains_key(c) {
                Some(old(self)@[c])
            } else {
                None
            }),
    {
        let slot = self.slot_mut(c);
        let prev = slot.take();
        assert(self@ =~= old(self)@.remove(c));
        prev
    }
}

/// The messages still waiting after a flush: those whose channel was occupied.
pub open spec fn spec_flush_slots(slots: Map<MsgChannel, Seq<u8>>, mem: SHARED_MEM) -> Map<
    MsgChannel,
    Seq<u8>,
> {
    Map::new(|c: MsgChannel| slots.contains_key(c) && mem.slot(c)[0] != 0, |c: MsgChannel| slots[c])
}

/// The bytes of the slot of channel `c` after a flush: a waiting message is
/// written where the channel was empty.
pub open spec fn spec_flush_slot(slots: Map<MsgChannel, Seq<u8>>, mem: SHARED_MEM, c: MsgChannel) -> Seq<u8> {
    if slots.contains_key(c) && mem.slot(c)[0] == 0 {
        spec_force_push(mem.slot(c), slots[c])
    } else {
        mem.slot(c)
    }
}

/// Every channel, each once.
pub open spec fn all_channels_spec() -> Seq<MsgChannel> {
    seq![
        MsgChannel::ProcessControlRequest,
        MsgChannel::ProcessControlReply,
        MsgChannel::GraphicsRequest,
        MsgChannel::GraphicsReply,
        MsgChannel::Heartbeat,
        MsgChannel::AppStatus,
        MsgChannel::TrickleUp,
        MsgChannel::TrickleDown,
    ]
}

fn all_channels() -> (r: Vec<MsgChannel>)
    ensures
        r@ == all_channels_spec(),
{
    let r = vec![
        MsgChannel::ProcessControlRequest,
        MsgChannel::ProcessControlReply,
        MsgChannel::GraphicsRequest,
        MsgChannel::GraphicsReply,
        MsgChannel::Heartbeat,
        MsgChannel::AppStatus,
        MsgChannel::TrickleUp,
        MsgChannel::TrickleDown,
    ];
    assert(r@ =~= all_channels_spec());
    r
}

/// Writes the message waiting for channel `c`, if any, where that channel is empty.
fn flush_one(slots: &mut OutgoingSlots, mem: &mut SHARED_MEM, c: MsgChannel)
    ensures
        final(slots)@ == (if old(slots)@.contains_key(c) && old(mem).slot(c)[0] == 0 {
            old(slots)@.remove(c)
        } else {
            old(slots)@
        }),
        final(mem).slot(c) == spec_flush_slot(old(slots)@, *old(mem), c),
        forall|o: MsgChannel| o != c ==> #[trigger] final(mem).slot(o) == old(mem).slot(o),
{
    match slots.remove(c) {
        None => {
            assert(slots@ =~= old(slots)@);
        },
        Some(v) => match mem.push_unchecked((c, v)) {
            AsyncSink::Ready => {},
            AsyncSink::NotReady((_, v)) => {
                slots.insert(c, v);
                assert(slots@ =~= old(slots)@);
            },
        },
    }
}

/// Writes each waiting message into its channel where that channel is empty;
/// the others keep waiting. Returns whether no message is left waiting.
pub fn flush_connection(outgoing_slots: &mut OutgoingSlots, mem: &mut SHARED_MEM) -> (ready: bool)
    ensures
        final(outgoing_slots)@ == spec_flush_slots(old(outgoing_slots)@, *old(mem)),
        forall|c: MsgChannel| #[trigger] final(mem).slot(c) == spec_flush_slot(old(outgoing_slots)@, *old(mem), c),
        ready == (final(outgoing_slots)@ == Map::<MsgChannel, Seq<u8>>::empty()),
        forall|c: MsgChannel|
            old(outgoing_slots)@.contains_key(c) && #[trigger] old(mem).slot(c)[0] != 0
                ==> final(outgoing_slots)@.contains_key(c) && final(outgoing_slots)@[c] == old(
                outgoing_slots,
            )@[c] && final(mem).slot(c) == old(mem).slot(c),
        forall|c: MsgChannel| #[trigger]
            final(outgoing_slots)@.contains_key(c) ==> old(outgoing_slots)@.contains_key(c) && old(
                mem,
            ).slot(c)[0] != 0,
{
    let ghost old_slots = outgoing_slots@;
    let ghost old_mem = *mem;
    let ids = all_channels();
    let mut k: usize = 0;
    assert(outgoing_slots@ =~= Map::new(
        |o: MsgChannel| old_slots.contains_key(o) && (!ids@.take(0).contains(o) || old_mem.slot(o)[0] != 0),
        |o: MsgChannel| old_slots[o],
    ));
    while k < ids.len()
        invariant
            ids@ == all_channels_spec(),
            k <= ids@.len(),
            outgoing_slots@ == Map::new(
                |o: MsgChannel| old_slots.contains_key(o) && (!ids@.take(k as int).contains(o) || old_mem.slot(o)[0] != 0),
                |o: MsgChannel| old_slots[o],
            ),
            forall|o: MsgChannel| #[trigger] mem.slot(o) == if ids@.take(k as int).contains(o) {
                spec_flush_slot(old_slots, old_mem, o)
            } else {
                old_mem.slot(o)
            },
        decreases ids.len() - k,
    {
        let c = ids[k];
        let ghost before_slots = outgoing_slots@;
        let ghost before_mem = *mem;
        let ghost done = ids@.take(k as int);
        assert(!done.contains(c)) by {
            if done.contains(c) {
                let j = choose|j: int| 0 <= j < done.len() && done[j] == c;
                assert(ids@[j] == ids@[k as int]);
            }
        }
        assert(before_slots.contains_key(c) == old_slots.contains_key(c));
        assert(before_mem.slot(c) == old_mem.slot(c));
        flush_one(outgoing_slots, mem, c);
        k = k + 1;
        assert(ids@.take(k as int) =~= done.push(c));
        assert forall|o: MsgChannel| #[trigger] ids@.take(k as int).contains(o) == (done.contains(o) || o == c) by {
            if ids@.take(k as int).contains(o) {
                let j = choose|j: int| 0 <= j < k && ids@.take(k as int)[j] == o;
                if j < k - 1 {
                    assert(done[j] == o);
                }
            }
            if done.contains(o) {
                let j = choose|j: int| 0 <= j < done.len() && done[j] == o;
                assert(ids@.take(k as int)[j] == o);
            }
            if o == c {
                assert(ids@.take(k as int)[k - 1] == o);
            }
        }
        assert forall|o: MsgChannel| #[trigger] mem.slot(o) == if ids@.take(k as int).contains(o) {
            spec_flush_slot(old_slots, old_mem, o)
        } else {
            old_mem.slot(o)
        } by {
            if o != c {
                assert(mem.slot(o) == before_mem.slot(o));
            }
        }
        assert(outgoing_slots@ =~= Map::new(
            |o: MsgChannel| old_slots.contains_key(o) && (!ids@.take(k as int).contains(o) || old_mem.slot(o)[0] != 0),
            |o: MsgChannel| old_slots[o],
        ));
    }
    assert(forall|o: MsgChannel| ids@.take(k as int).contains(o)) by {
        assert forall|o: MsgChannel| ids@.take(k as int).contains(o) by {
            assert(ids@.take(k as int) =~= ids@);
            match o {
                MsgChannel::ProcessControlRequest => assert(ids@[0] == o),
                MsgChannel::ProcessControlReply => assert(ids@[1] == o),
                MsgChannel::GraphicsRequest => assert(ids@[2] == o),
                MsgChannel::GraphicsReply => assert(ids@[3] == o),
                MsgChannel::Heartbeat => assert(ids@[4] == o),
                MsgChannel::AppStatus => assert(ids@[5] == o),
                MsgChannel::TrickleUp => assert(ids@[6] == o),
                MsgChannel::TrickleDown => assert(ids@[7] == o),
            }
        }
    }
    assert(outgoing_slots@ =~= spec_flush_slots(old_slots, old_mem));
    outgoing_slots.is_empty()
}

/// The sending side of a connection: whether it was closed, and the messages
/// still waiting to be written to the shared memory.
pub struct ClientState {
    send_closed: bool,
    outgoing_slots: OutgoingSlots,
}

impl ClientState {
    /// Whether the sending side was closed.
    pub closed spec fn closed(&self) -> bool {
        self.send_closed
    }

    /// The messages waiting to be written, by channel.
    pub closed spec fn pending(&self) -> Map<MsgChannel, Seq<u8>> {
        self.outgoing_slots@
    }

    /// An open connection with nothing waiting.
    pub fn new() -> (r: Self)
        ensures
            !r.closed(),
            r.pending() == Map::<MsgChannel, Seq<u8>>::empty(),
    {
        ClientState { send_closed: false, outgoing_slots: OutgoingSlots::new() }
    }

    /// Whether the sending side was closed.
    pub fn is_closed(&self) -> (r: bool)
        ensures
            r == self.closed(),
    {
        self.send_closed
    }

    /// A new message can be taken only when nothing is waiting.
    pub fn poll_ready(&self) -> (r: bool)
        ensures
            r == (self.pending() == Map::<MsgChannel, Seq<u8>>::empty()),
    {
        self.outgoing_slots.is_empty()
    }

    /// Queues `data` for channel `c`, which must have nothing waiting.
    pub fn start_send(&mut self, c: MsgChannel, data: Vec<u8>)
        requires
            !old(self).pending().contains_key(c),
        ensures
            final(self).pending() == old(self).pending().insert(c, data@),
            final(self).closed() == old(self).closed(),
    {
        self.outgoing_slots.insert(c, data);
    }

    /// Queues `data` for channel `c` if nothing waits there; otherwise hands
    /// `data` back and changes nothing.
    pub fn try_start_send(&mut self, c: MsgChannel, data: Vec<u8>) -> (r: Option<Vec<u8>>)
        ensures
            old(self).pending().contains_key(c) ==> r == Some(data) && final(self).pending() == old(self).pending(),
            !old(self).pending().contains_key(c) ==> r is None && final(self).pending() == old(self).pending().insert(c, data@),
            final(self).closed() == old(self).closed(),
    {
        match self.outgoing_slots.remove(c) {
            Some(prev) => {
                self.outgoing_slots.insert(c, prev);
                assert(self.outgoing_slots@ =~= old(self).outgoing_slots@);
                Some(data)
            },
            None => {
                self.outgoing_slots.insert(c, data);
                assert(self.outgoing_slots@ =~= old(self).outgoing_slots@.insert(c, data@));
                None
            },
        }
    }

    /// Writes waiting messages to `mem`; the connection must still be open.
    /// Returns whether nothing is left waiting.
    pub fn poll_flush(&mut self, mem: &mut SHARED_MEM) -> (ready: bool)
        requires
            !old(self).closed(),
        ensures
            final(self).pending() == spec_flush_slots(old(self).pending(), *old(mem)),
            forall|c: MsgChannel| #[trigger] final(mem).slot(c) == spec_flush_slot(old(self).pending(), *old(mem), c),
            ready == (final(self).pending() == Map::<MsgChannel, Seq<u8>>::empty()),
            forall|c: MsgChannel|
                old(self).pending().contains_key(c) && #[trigger] old(mem).slot(c)[0] != 0
                    ==> final(self).pending().contains_key(c) && final(self).pending()[c] == old(
                    self,
                ).pending()[c] && final(mem).slot(c) == old(mem).slot(c),
            forall|c: MsgChannel| #[trigger]
                final(self).pending().contains_key(c) ==> old(self).pending().contains_key(c) && old(
                    mem,
                ).slot(c)[0] != 0,
            !final(self).closed(),
    {
        flush_connection(&mut self.outgoing_slots, mem)
    }

    /// Closes the sending side and writes waiting messages to `mem`.
    /// Returns whether nothing is left waiting.
    pub fn poll_close(&mut self, mem: &mut SHARED_MEM) -> (ready: bool)
        ensures
            final(self).pending() == spec_flush_slots(old(self).pending(), *old(mem)),
            forall|c: MsgChannel| #[trigger] final(mem).slot(c) == spec_flush_slot(old(self).pending(), *old(mem), c),
            ready == (final(self).pending() == Map::<MsgChannel, Seq<u8>>::empty()),
            forall|c: MsgChannel|
                old(self).pending().contains_key(c) && #[trigger] old(mem).slot(c)[0] != 0
                    ==> final(self).pending().contains_key(c) && final(self).pending()[c] == old(
                    self,
                ).pending()[c] && final(mem).slot(c) == old(mem).slot(c),
            forall|c: MsgChannel| #[trigger]
                final(self).pending().contains_key(c) ==> old(self).pending().contains_key(c) && old(
                    mem,
                ).slot(c)[0] != 0,
            final(self).closed(),
    {
        self.send_closed = true;
        flush_connection(&mut self.outgoing_slots, mem)
    }
}

/// A flush into memory in which every channel with a waiting message is empty
/// leaves nothing waiting, and puts each waiting message into its channel.
pub proof fn law_flush_into_empty_channels(pending: Map<MsgChannel, Seq<u8>>, mem: SHARED_MEM)
    requires
        forall|c: MsgChannel| #[trigger] pending.contains_key(c) ==> mem.slot(c)[0] == 0,
    ensures
        spec_flush_slots(pending, mem) == Map::<MsgChannel, Seq<u8>>::empty(),
        forall|c: MsgChannel| #[trigger] pending.contains_key(c) ==> spec_flush_slot(pending, mem, c) == spec_force_push(mem.slot(c), pending[c]),
{
    assert(spec_flush_slots(pending, mem) =~= Map::<MsgChannel, Seq<u8>>::empty());
}

/// A connection with a message waiting takes no other message until a flush
/// has written it out.
pub proof fn law_waiting_message_blocks_ready(pending: Map<MsgChannel, Seq<u8>>, c: MsgChannel, data: Seq<u8>)
    ensures
        pending.insert(c, data) != Map::<MsgChannel, Seq<u8>>::empty(),
{
    assert(pending.insert(c, data).contains_key(c));
}

/// A flush loses no message and writes none twice: a message whose channel
/// still holds one keeps waiting, unchanged, and that channel is left as it
/// was; a message whose channel is empty is written there, where `peek`
/// reads it back (up to its first zero byte, at most 1020 bytes), and stops
/// waiting; a channel with no message waiting is left as it was.
pub proof fn law_flush_loses_nothing(pending: Map<MsgChannel, Seq<u8>>, mem: SHARED_MEM, c: MsgChannel)
    ensures
        pending.contains_key(c) && mem.slot(c)[0] != 0 ==> {
            &&& spec_flush_slots(pending, mem).contains_key(c)
            &&& spec_flush_slots(pending, mem)[c] == pending[c]
            &&& spec_flush_slot(pending, mem, c) == mem.slot(c)
        },
        pending.contains_key(c) && mem.slot(c)[0] == 0 ==> {
            &&& !spec_flush_slots(pending, mem).contains_key(c)
            &&& MSG_CHANNEL::spec_peek(spec_flush_slot(pending, mem, c)) == Some(
                pending[c].take(
                    if c_str(pending[c]).len() < 1020 {
                        c_str(pending[c]).len() as int
                    } else {
                        1020
                    },
                ),
            )
        },
        !pending.contains_key(c) ==> !spec_flush_slots(pending, mem).contains_key(c)
            && spec_flush_slot(pending, mem, c) == mem.slot(c),
{
    lemma_channel_len(mem.spec_channel(c));
    if pending.contains_key(c) && mem.slot(c)[0] == 0 {
        law_peek_after_force_push(mem.slot(c), pending[c]);
    }
}

} // verus!

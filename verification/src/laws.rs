use vstd::prelude::*;

use crate::models::{
    control_slot, law_app_status_roundtrip, law_graphics_reply_roundtrip, law_heartbeat_roundtrip,
    law_process_control_request_roundtrip, law_trickle_down_roundtrip, law_trickle_up_roundtrip,
    status_slot, ControlMessageView, ControlMsgChannel, StatusMessageView, StatusMsgChannel,
};
use crate::shmem::{
    law_peek_after_force_push, lemma_c_str_take, lemma_channel_len, slot_body, spec_force_push,
    SHARED_MEM,
};
use crate::xml::parsed_fields;

verus! {

/// The body of `m` is read back as `m`: its numbers are numbers, and treexml
/// reads the elements that were written.
pub open spec fn status_readable(m: StatusMessageView) -> bool {
    match m {
        StatusMessageView::ProcessControlReply => true,
        StatusMessageView::GraphicsReply(v) => parsed_fields(m.spec_body()) == Some(v.spec_fields()),
        StatusMessageView::AppStatus(v) => v.numbers_valid() && parsed_fields(m.spec_body()) == Some(
            v.spec_fields(),
        ),
        StatusMessageView::TrickleUp(v) => parsed_fields(m.spec_body()) == Some(v.spec_fields()),
    }
}

/// The body of `m` is read back as `m`: its numbers are numbers, and treexml
/// reads the elements that were written.
pub open spec fn control_readable(m: ControlMessageView) -> bool {
    match m {
        ControlMessageView::ProcessControlRequest(v) => parsed_fields(m.spec_body()) == Some(v.spec_fields()),
        ControlMessageView::GraphicsRequest => true,
        ControlMessageView::Heartbeat(v) => v.numbers_valid() && parsed_fields(m.spec_body()) == Some(
            v.spec_fields(),
        ),
        ControlMessageView::TrickleDown(v) => parsed_fields(m.spec_body()) == Some(v.spec_fields()),
    }
}

/// A body fits a slot and is read back whole: it has no zero byte and is
/// no longer than the 1020 bytes a slot holds.
pub open spec fn fits_slot(body: Seq<u8>) -> bool {
    &&& body.len() <= 1020
    &&& forall|i: int| 0 <= i < body.len() ==> body[i] != 0
}

/// Position of a status channel in polling order.
pub open spec fn status_rank(c: StatusMsgChannel) -> int {
    match c {
        StatusMsgChannel::ProcessControlReply => 0,
        StatusMsgChannel::GraphicsReply => 1,
        StatusMsgChannel::AppStatus => 2,
        StatusMsgChannel::TrickleUp => 3,
    }
}

/// Position of a control channel in polling order.
pub open spec fn control_rank(c: ControlMsgChannel) -> int {
    match c {
        ControlMsgChannel::ProcessControlRequest => 0,
        ControlMsgChannel::GraphicsRequest => 1,
        ControlMsgChannel::Heartbeat => 2,
        ControlMsgChannel::TrickleDown => 3,
    }
}

/// A body that fits its slot is what `peek` reads back after it is written.
proof fn lemma_body_read_back(slot: Seq<u8>, body: Seq<u8>)
    requires
        slot.len() == 1024,
        fits_slot(body),
    ensures
        spec_force_push(slot, body)[0] != 0,
        slot_body(spec_force_push(slot, body)) == body,
{
    lemma_c_str_take(body, body.len() as int);
    assert(body.take(body.len() as int) =~= body);
    law_peek_after_force_push(slot, body);
}

/// What a read gives back of a write: a status message written to an empty
/// slot is the next one that `pull_status` takes, when no status channel
/// polled before its own holds a message, its body fits the slot, and treexml
/// reads the elements that were written.
pub proof fn law_push_then_pull_status(mem: SHARED_MEM, after: SHARED_MEM, m: StatusMessageView)
    requires
        forall|c: StatusMsgChannel|
            status_rank(c) < status_rank(m.spec_channel()) ==> #[trigger] mem.slot(status_slot(c))[0] == 0,
        fits_slot(m.spec_body()),
        status_readable(m),
        after.slot(status_slot(m.spec_channel())) == spec_force_push(
            mem.slot(status_slot(m.spec_channel())),
            m.spec_body(),
        ),
        forall|o| o != status_slot(m.spec_channel()) ==> #[trigger] after.slot(o) == mem.slot(o),
    ensures
        after.next_status() == Some(m.spec_channel()),
        after.spec_pull_status() == Some(Ok::<StatusMessageView, crate::xml::ParseError>(m)),
{
    let ch = m.spec_channel();
    lemma_channel_len(mem.spec_channel(status_slot(ch)));
    lemma_body_read_back(mem.slot(status_slot(ch)), m.spec_body());
    reveal_with_fuel(crate::shmem::first_full_status, 5);
    let all = StatusMsgChannel::spec_all();
    assert(all.drop_first() =~= seq![
        StatusMsgChannel::GraphicsReply,
        StatusMsgChannel::AppStatus,
        StatusMsgChannel::TrickleUp,
    ]);
    assert(all.drop_first().drop_first() =~= seq![
        StatusMsgChannel::AppStatus,
        StatusMsgChannel::TrickleUp,
    ]);
    assert(all.drop_first().drop_first().drop_first() =~= seq![StatusMsgChannel::TrickleUp]);
    assert(after.slot(status_slot(StatusMsgChannel::ProcessControlReply)) == mem.slot(status_slot(StatusMsgChannel::ProcessControlReply)) || ch == StatusMsgChannel::ProcessControlReply);
    assert(after.slot(status_slot(StatusMsgChannel::GraphicsReply)) == mem.slot(status_slot(StatusMsgChannel::GraphicsReply)) || ch == StatusMsgChannel::GraphicsReply);
    assert(after.slot(status_slot(StatusMsgChannel::AppStatus)) == mem.slot(status_slot(StatusMsgChannel::AppStatus)) || ch == StatusMsgChannel::AppStatus);
    match m {
        StatusMessageView::ProcessControlReply => {},
        StatusMessageView::GraphicsReply(v) => law_graphics_reply_roundtrip(v),
        StatusMessageView::AppStatus(v) => law_app_status_roundtrip(v),
        StatusMessageView::TrickleUp(v) => law_trickle_up_roundtrip(v),
    }
}

/// What a read gives back of a write: a control message written to an empty
/// slot is the next one that `pull_control` takes, when no control channel
/// polled before its own holds a message, its body fits the slot, and treexml
/// reads the elements that were written.
pub proof fn law_push_then_pull_control(mem: SHARED_MEM, after: SHARED_MEM, m: ControlMessageView)
    requires
        forall|c: ControlMsgChannel|
            control_rank(c) < control_rank(m.spec_channel()) ==> #[trigger] mem.slot(control_slot(c))[0] == 0,
        fits_slot(m.spec_body()),
        control_readable(m),
        after.slot(control_slot(m.spec_channel())) == spec_force_push(
            mem.slot(control_slot(m.spec_channel())),
            m.spec_body(),
        ),
        forall|o| o != control_slot(m.spec_channel()) ==> #[trigger] after.slot(o) == mem.slot(o),
    ensures
        after.next_control() == Some(m.spec_channel()),
        after.spec_pull_control() == Some(Ok::<ControlMessageView, crate::xml::ParseError>(m)),
{
    let ch = m.spec_channel();
    lemma_channel_len(mem.spec_channel(control_slot(ch)));
    lemma_body_read_back(mem.slot(control_slot(ch)), m.spec_body());
    reveal_with_fuel(crate::shmem::first_full_control, 5);
    let all = ControlMsgChannel::spec_all();
    assert(all.drop_first() =~= seq![
        ControlMsgChannel::GraphicsRequest,
        ControlMsgChannel::Heartbeat,
        ControlMsgChannel::TrickleDown,
    ]);
    assert(all.drop_first().drop_first() =~= seq![
        ControlMsgChannel::Heartbeat,
        ControlMsgChannel::TrickleDown,
    ]);
    assert(all.drop_first().drop_first().drop_first() =~= seq![ControlMsgChannel::TrickleDown]);
    assert(after.slot(control_slot(ControlMsgChannel::ProcessControlRequest)) == mem.slot(control_slot(ControlMsgChannel::ProcessControlRequest)) || ch == ControlMsgChannel::ProcessControlRequest);
    assert(after.slot(control_slot(ControlMsgChannel::GraphicsRequest)) == mem.slot(control_slot(ControlMsgChannel::GraphicsRequest)) || ch == ControlMsgChannel::GraphicsRequest);
    assert(after.slot(control_slot(ControlMsgChannel::Heartbeat)) == mem.slot(control_slot(ControlMsgChannel::Heartbeat)) || ch == ControlMsgChannel::Heartbeat);
    match m {
        ControlMessageView::ProcessControlRequest(v) => law_process_control_request_roundtrip(v),
        ControlMessageView::GraphicsRequest => {},
        ControlMessageView::Heartbeat(v) => law_heartbeat_roundtrip(v),
        ControlMessageView::TrickleDown(v) => law_trickle_down_roundtrip(v),
    }
}

/// The next status message is taken from the first status channel, in the
/// polling order (process-control reply, graphics reply, app status, trickle
/// up), whose slot holds a message; there is none only where every status
/// slot is empty.
pub proof fn law_next_status_in_polling_order(mem: SHARED_MEM)
    ensures
        mem.next_status() matches Some(c) ==> mem.slot(status_slot(c))[0] != 0 && forall|d: StatusMsgChannel|
            status_rank(d) < status_rank(c) ==> #[trigger] mem.slot(status_slot(d))[0] == 0,
        mem.next_status() is None ==> forall|d: StatusMsgChannel| #[trigger] mem.slot(status_slot(d))[0] == 0,
{
    reveal_with_fuel(crate::shmem::first_full_status, 5);
    let all = StatusMsgChannel::spec_all();
    assert(all.drop_first() =~= seq![
        StatusMsgChannel::GraphicsReply,
        StatusMsgChannel::AppStatus,
        StatusMsgChannel::TrickleUp,
    ]);
    assert(all.drop_first().drop_first() =~= seq![
        StatusMsgChannel::AppStatus,
        StatusMsgChannel::TrickleUp,
    ]);
    assert(all.drop_first().drop_first().drop_first() =~= seq![StatusMsgChannel::TrickleUp]);
    assert(all.drop_first().drop_first().drop_first().drop_first() =~= Seq::<StatusMsgChannel>::empty());
    assert forall|d: StatusMsgChannel| mem.next_status() is None implies #[trigger] mem.slot(status_slot(d))[0] == 0 by {
        match d {
            StatusMsgChannel::ProcessControlReply => {},
            StatusMsgChannel::GraphicsReply => {},
            StatusMsgChannel::AppStatus => {},
            StatusMsgChannel::TrickleUp => {},
        }
    }
    if let Some(c) = mem.next_status() {
        assert forall|d: StatusMsgChannel| status_rank(d) < status_rank(c) implies #[trigger] mem.slot(status_slot(d))[0] == 0 by {
            match d {
                StatusMsgChannel::ProcessControlReply => {},
                StatusMsgChannel::GraphicsReply => {},
                StatusMsgChannel::AppStatus => {},
                StatusMsgChannel::TrickleUp => {},
            }
        }
    }
}

/// The next control message is taken from the first control channel, in the
/// polling order (process-control request, graphics request, heartbeat,
/// trickle down), whose slot holds a message; there is none only where every
/// control slot is empty.
pub proof fn law_next_control_in_polling_order(mem: SHARED_MEM)
    ensures
        mem.next_control() matches Some(c) ==> mem.slot(control_slot(c))[0] != 0 && forall|d: ControlMsgChannel|
            control_rank(d) < control_rank(c) ==> #[trigger] mem.slot(control_slot(d))[0] == 0,
        mem.next_control() is None ==> forall|d: ControlMsgChannel| #[trigger] mem.slot(control_slot(d))[0] == 0,
{
    reveal_with_fuel(crate::shmem::first_full_control, 5);
    let all = ControlMsgChannel::spec_all();
    assert(all.drop_first() =~= seq![
        ControlMsgChannel::GraphicsRequest,
        ControlMsgChannel::Heartbeat,
        ControlMsgChannel::TrickleDown,
    ]);
    assert(all.drop_first().drop_first() =~= seq![
        ControlMsgChannel::Heartbeat,
        ControlMsgChannel::TrickleDown,
    ]);
    assert(all.drop_first().drop_first().drop_first() =~= seq![ControlMsgChannel::TrickleDown]);
    assert(all.drop_first().drop_first().drop_first().drop_first() =~= Seq::<ControlMsgChannel>::empty());
    assert forall|d: ControlMsgChannel| mem.next_control() is None implies #[trigger] mem.slot(control_slot(d))[0] == 0 by {
        match d {
            ControlMsgChannel::ProcessControlRequest => {},
            ControlMsgChannel::GraphicsRequest => {},
            ControlMsgChannel::Heartbeat => {},
            ControlMsgChannel::TrickleDown => {},
        }
    }
    if let Some(c) = mem.next_control() {
        assert forall|d: ControlMsgChannel| control_rank(d) < control_rank(c) implies #[trigger] mem.slot(control_slot(d))[0] == 0 by {
            match d {
                ControlMsgChannel::ProcessControlRequest => {},
                ControlMsgChannel::GraphicsRequest => {},
                ControlMsgChannel::Heartbeat => {},
                ControlMsgChannel::TrickleDown => {},
            }
        }
    }
}

} // verus!

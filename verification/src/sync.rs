//! Real-time sync events and who receives them.
//!
//! The server fans out `SyncEvent`s to every connected device except the
//! one that originated the event.

use vstd::prelude::*;

verus! {

broadcast use vstd::string::group_string_axioms;

/// A change to the vault that connected devices are told about.
#[derive(Debug, Clone)]
pub enum SyncEvent {
    FileChanged { path: String, etag: String, size: i64, origin_device: String },
    FileDeleted { path: String, origin_device: String },
    FileConflict {
        path: String,
        active_etag: String,
        losing_etag: String,
        conflict_id: String,
        origin_device: String,
    },
}

/// The device an event came from (empty when it came from no device).
pub open spec fn origin_of(e: SyncEvent) -> Seq<char> {
    match e {
        SyncEvent::FileChanged { origin_device, .. } => origin_device@,
        SyncEvent::FileDeleted { origin_device, .. } => origin_device@,
        SyncEvent::FileConflict { origin_device, .. } => origin_device@,
    }
}

/// A connected device receives an event unless the event came from it.
pub open spec fn delivers(e: SyncEvent, device_id: Seq<char>) -> bool {
    origin_of(e) != device_id
}

impl SyncEvent {
    pub fn origin(&self) -> (r: &str)
        ensures
            r@ == origin_of(*self),
            match *self {
                SyncEvent::FileChanged { origin_device, .. } => r@ == origin_device@,
                SyncEvent::FileDeleted { origin_device, .. } => r@ == origin_device@,
                SyncEvent::FileConflict { origin_device, .. } => r@ == origin_device@,
            },
    {
        match self {
            SyncEvent::FileChanged { origin_device, .. } => origin_device.as_str(),
            SyncEvent::FileDeleted { origin_device, .. } => origin_device.as_str(),
            SyncEvent::FileConflict { origin_device, .. } => origin_device.as_str(),
        }
    }
}

/// Whether the socket of `device_id` forwards `event` (skipping the echo to
/// its origin).
pub fn should_forward(event: &SyncEvent, device_id: &str) -> (r: bool)
    ensures
        r == delivers(*event, device_id@),
        match *event {
            SyncEvent::FileChanged { origin_device, .. } => r == (origin_device@ != device_id@),
            SyncEvent::FileDeleted { origin_device, .. } => r == (origin_device@ != device_id@),
            SyncEvent::FileConflict { origin_device, .. } => r == (origin_device@ != device_id@),
        },
{
    !crate::text::str_eq(event.origin(), device_id)
}

/// The device an event came from is the one named in its `origin_device`
/// field, whatever the kind of event; a device is sent every event except
/// the ones it caused.
pub proof fn lemma_origin_is_origin_device(e: SyncEvent, device_id: Seq<char>)
    ensures
        e matches SyncEvent::FileChanged { origin_device, .. } ==> origin_of(e) == origin_device@
            && (delivers(e, device_id) <==> device_id != origin_device@),
        e matches SyncEvent::FileDeleted { origin_device, .. } ==> origin_of(e) == origin_device@
            && (delivers(e, device_id) <==> device_id != origin_device@),
        e matches SyncEvent::FileConflict { origin_device, .. } ==> origin_of(e) == origin_device@
            && (delivers(e, device_id) <==> device_id != origin_device@),
{
}

/// No device is ever sent back an event it caused itself.
pub proof fn lemma_no_echo(e: SyncEvent)
    ensures
        !delivers(e, origin_of(e)),
{
}

/// An event with an empty origin (server-side restores, "keep both" copies,
/// admin resolutions) reaches every device.
pub proof fn lemma_empty_origin_reaches_all(e: SyncEvent, device_id: Seq<char>)
    requires
        origin_of(e).len() == 0,
        device_id.len() > 0,
    ensures
        delivers(e, device_id),
{
}

} // verus!

verus! {

/// What a device's socket gets from the event channel.
#[derive(Debug, Clone)]
pub enum Received {
    /// The next event.
    Event(SyncEvent),
    /// The socket fell behind and this many events were dropped.
    Lagged(u64),
    /// The channel is closed.
    Closed,
}

/// What the socket does with what it got.
#[derive(Debug, Clone)]
pub enum SocketAction {
    /// Send this event to the device.
    Send(SyncEvent),
    /// Nothing to send; wait for the next one.
    Skip,
    /// Stop forwarding.
    Stop,
}

/// The forwarding rule: an event goes out unless the device caused it; a
/// lag is skipped; a closed channel ends the socket.
pub open spec fn socket_action(device_id: Seq<char>, r: Received) -> SocketAction {
    match r {
        Received::Event(e) => if delivers(e, device_id) {
            SocketAction::Send(e)
        } else {
            SocketAction::Skip
        },
        Received::Lagged(_) => SocketAction::Skip,
        Received::Closed => SocketAction::Stop,
    }
}

/// One step of a device's socket.
pub fn socket_step(r: Received, device_id: &str) -> (a: SocketAction)
    ensures
        a == socket_action(device_id@, r),
        match r {
            Received::Event(SyncEvent::FileChanged { path, etag, size, origin_device }) => if origin_device@ == device_id@ {
                a is Skip
            } else {
                a == SocketAction::Send(SyncEvent::FileChanged { path, etag, size, origin_device })
            },
            Received::Event(SyncEvent::FileDeleted { path, origin_device }) => if origin_device@ == device_id@ {
                a is Skip
            } else {
                a == SocketAction::Send(SyncEvent::FileDeleted { path, origin_device })
            },
            Received::Event(
                SyncEvent::FileConflict { path, active_etag, losing_etag, conflict_id, origin_device },
            ) => if origin_device@ == device_id@ {
                a is Skip
            } else {
                a == SocketAction::Send(
                    SyncEvent::FileConflict { path, active_etag, losing_etag, conflict_id, origin_device },
                )
            },
            Received::Lagged(_) => a is Skip,
            Received::Closed => a is Stop,
        },
{
    match r {
        Received::Event(e) => if should_forward(&e, device_id) {
            SocketAction::Send(e)
        } else {
            SocketAction::Skip
        },
        Received::Lagged(_) => SocketAction::Skip,
        Received::Closed => SocketAction::Stop,
    }
}

/// The events a socket sends for what it receives, step by step.
pub open spec fn sent_events(device_id: Seq<char>, rs: Seq<Received>) -> Seq<SyncEvent>
    decreases rs.len(),
{
    if rs.len() == 0 {
        Seq::empty()
    } else {
        match socket_action(device_id, rs[0]) {
            SocketAction::Send(e) => seq![e] + sent_events(device_id, rs.drop_first()),
            SocketAction::Skip => sent_events(device_id, rs.drop_first()),
            SocketAction::Stop => Seq::empty(),
        }
    }
}

/// The events received before the channel closed, in order.
pub open spec fn events_before_close(rs: Seq<Received>) -> Seq<SyncEvent>
    decreases rs.len(),
{
    if rs.len() == 0 {
        Seq::empty()
    } else {
        match rs[0] {
            Received::Event(e) => seq![e] + events_before_close(rs.drop_first()),
            Received::Lagged(_) => events_before_close(rs.drop_first()),
            Received::Closed => Seq::empty(),
        }
    }
}

/// A socket sends exactly the events received before the channel closed
/// that did not come from its device, in the order they were received.
pub proof fn lemma_socket_forwards_in_order(device_id: Seq<char>, rs: Seq<Received>)
    ensures
        sent_events(device_id, rs) == events_before_close(rs).filter(
            |e: SyncEvent| delivers(e, device_id),
        ),
    decreases rs.len(),
{
    let p = |e: SyncEvent| delivers(e, device_id);
    if rs.len() == 0 {
        reveal(Seq::filter);
        assert(events_before_close(rs).filter(p) =~= Seq::<SyncEvent>::empty());
    } else {
        lemma_socket_forwards_in_order(device_id, rs.drop_first());
        match rs[0] {
            Received::Event(e) => {
                let rest = events_before_close(rs.drop_first());
                rest.lemma_filter_prepend(e, p);
                assert(Seq::<SyncEvent>::empty() + rest.filter(p) =~= rest.filter(p));
            },
            Received::Lagged(_) => {},
            Received::Closed => {
                reveal(Seq::filter);
                assert(Seq::<SyncEvent>::empty().filter(p) =~= Seq::<SyncEvent>::empty());
            },
        }
    }
}

} // verus!

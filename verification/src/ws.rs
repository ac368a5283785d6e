//! The websocket link's state: whether a connection is pending, open or
//! gone, which event a read gives, and what is owed back to the peer.
//! The socket itself is driven by the caller, who hands each outcome here.

use vstd::prelude::*;

verus! {

/// What the link reports to the bot.
#[derive(Debug)]
pub enum WsPacketEvent {
    Connect,
    Receive(Vec<u8>),
    Disconnect,
    NoEvent,
}

/// What a read from the socket gave.
#[derive(Debug)]
pub enum WsReadOutcome {
    /// A binary message with this payload.
    Binary(Vec<u8>),
    /// A text message; these are its UTF-8 bytes.
    Text(Vec<u8>),
    /// The peer closed the connection.
    Close,
    /// A ping with this payload.
    Ping(Vec<u8>),
    /// A pong.
    Pong,
    /// A raw frame.
    Frame,
    /// Nothing to read yet: the read would block or timed out.
    Idle,
    /// Any other failure of the read.
    Failed,
}

/// The event that a read outcome is reported as, and the pong payload owed.
pub struct WsReadStep {
    pub event: WsPacketEvent,
    pub pong: Option<Vec<u8>>,
}

/// The state of a link: whether it holds a socket, whether its first
/// connection attempt is still to be made, and whether it counts as connected.
pub struct WsLinkView {
    pub has_socket: bool,
    pub pending_connect: bool,
    pub connected: bool,
}

pub struct WsLink {
    has_socket: bool,
    pending_connect: bool,
    connected: bool,
}

impl View for WsLink {
    type V = WsLinkView;

    closed spec fn view(&self) -> WsLinkView {
        WsLinkView {
            has_socket: self.has_socket,
            pending_connect: self.pending_connect,
            connected: self.connected,
        }
    }
}

/// Whether a link in state `v` is read from when the next event is asked for.
pub open spec fn reads(v: WsLinkView) -> bool {
    !v.pending_connect && v.connected
}

/// The state after a read that gave `outcome`.
pub open spec fn state_after_read(v: WsLinkView, outcome: WsReadOutcome) -> WsLinkView {
    match outcome {
        WsReadOutcome::Close | WsReadOutcome::Failed => WsLinkView { connected: false, ..v },
        _ => v,
    }
}

/// The state after a connection attempt that succeeded where `ok` holds.
pub open spec fn state_after_connect(v: WsLinkView, ok: bool) -> WsLinkView {
    if ok {
        WsLinkView { has_socket: true, pending_connect: false, connected: true }
    } else {
        WsLinkView { pending_connect: false, ..v }
    }
}

/// The state after a write that succeeded where `ok` holds.
pub open spec fn state_after_send(v: WsLinkView, ok: bool) -> WsLinkView {
    if ok {
        v
    } else {
        WsLinkView { connected: false, ..v }
    }
}

/// The state after the link is torn down.
pub open spec fn state_after_disconnect(v: WsLinkView) -> WsLinkView {
    WsLinkView { has_socket: false, connected: false, ..v }
}

/// A link is read from only while it is connected: not before its first
/// connection attempt, not after the peer closed, a read or a write failed,
/// or it was torn down; a successful connection makes it read again.
pub proof fn law_link_reads_only_when_connected(v: WsLinkView, outcome: WsReadOutcome)
    ensures
        !reads(WsLinkView { has_socket: false, pending_connect: true, connected: false }),
        (outcome is Close || outcome is Failed) ==> !reads(state_after_read(v, outcome)),
        !reads(state_after_send(v, false)),
        !reads(state_after_disconnect(v)),
        reads(state_after_connect(v, true)),
{
}

/// One operation on a link, as the caller drives it.
pub enum LinkOp {
    /// A connection attempt that succeeded where the flag holds.
    Connect(bool),
    /// A read that gave this outcome.
    Read(WsReadOutcome),
    /// A write that succeeded where the flag holds.
    Send(bool),
    /// Tearing the link down.
    Disconnect,
}

/// The state after `op`.
pub open spec fn state_after_op(v: WsLinkView, op: LinkOp) -> WsLinkView {
    match op {
        LinkOp::Connect(ok) => state_after_connect(v, ok),
        LinkOp::Read(outcome) => state_after_read(v, outcome),
        LinkOp::Send(ok) => state_after_send(v, ok),
        LinkOp::Disconnect => state_after_disconnect(v),
    }
}

/// The state after `ops`, in order.
pub open spec fn state_after_ops(v: WsLinkView, ops: Seq<LinkOp>) -> WsLinkView
    decreases ops.len(),
{
    if ops.len() == 0 {
        v
    } else {
        state_after_ops(state_after_op(v, ops[0]), ops.drop_first())
    }
}

/// Whether `op` ends a connection: a teardown, a failed write, or a read
/// that found the connection closed or broken.
pub open spec fn ends_connection(op: LinkOp) -> bool {
    match op {
        LinkOp::Disconnect => true,
        LinkOp::Send(ok) => !ok,
        LinkOp::Read(outcome) => outcome is Close || outcome is Failed,
        LinkOp::Connect(_) => false,
    }
}

/// Whether some connection attempt in `ops` succeeded and nothing after it
/// ended the connection.
pub open spec fn connected_by(ops: Seq<LinkOp>) -> bool {
    exists|i: int|
        0 <= i < ops.len() && ops[i] == LinkOp::Connect(true) && forall|j: int|
            i < j < ops.len() ==> !ends_connection(#[trigger] ops[j])
}

proof fn lemma_connected_after_ops(v: WsLinkView, ops: Seq<LinkOp>)
    ensures
        state_after_ops(v, ops).connected <==> (connected_by(ops) || (v.connected && forall|j: int|
            0 <= j < ops.len() ==> !ends_connection(#[trigger] ops[j]))),
    decreases ops.len(),
{
    if ops.len() > 0 {
        let rest = ops.drop_first();
        let v1 = state_after_op(v, ops[0]);
        lemma_connected_after_ops(v1, rest);
        assert forall|j: int| 0 <= j < rest.len() implies rest[j] == ops[j + 1] by {}
        if connected_by(rest) {
            let i = choose|i: int|
                0 <= i < rest.len() && rest[i] == LinkOp::Connect(true) && forall|j: int|
                    i < j < rest.len() ==> !ends_connection(#[trigger] rest[j]);
            assert(ops[i + 1] == LinkOp::Connect(true));
            assert forall|j: int| i + 1 < j < ops.len() implies !ends_connection(#[trigger] ops[j]) by {
                assert(ops[j] == rest[j - 1]);
            }
            assert(connected_by(ops));
        }
        if connected_by(ops) {
            let i = choose|i: int|
                0 <= i < ops.len() && ops[i] == LinkOp::Connect(true) && forall|j: int|
                    i < j < ops.len() ==> !ends_connection(#[trigger] ops[j]);
            if i > 0 {
                assert(rest[i - 1] == LinkOp::Connect(true));
                assert forall|j: int| i - 1 < j < rest.len() implies !ends_connection(#[trigger] rest[j]) by {
                    assert(rest[j] == ops[j + 1]);
                }
                assert(connected_by(rest));
            } else {
                assert(v1.connected);
                assert forall|j: int| 0 <= j < rest.len() implies !ends_connection(#[trigger] rest[j]) by {
                    assert(rest[j] == ops[j + 1]);
                }
            }
        }
        if v.connected && forall|j: int| 0 <= j < ops.len() ==> !ends_connection(#[trigger] ops[j]) {
            assert(!ends_connection(ops[0]));
            assert(v1.connected);
            assert forall|j: int| 0 <= j < rest.len() implies !ends_connection(#[trigger] rest[j]) by {
                assert(rest[j] == ops[j + 1]);
            }
        }
        if v1.connected && forall|j: int| 0 <= j < rest.len() ==> !ends_connection(#[trigger] rest[j]) {
            if !(ops[0] == LinkOp::Connect(true)) {
                assert(v.connected && !ends_connection(ops[0]));
                assert forall|j: int| 0 <= j < ops.len() implies !ends_connection(#[trigger] ops[j]) by {
                    if j > 0 {
                        assert(ops[j] == rest[j - 1]);
                    }
                }
            } else {
                assert forall|j: int| 0 < j < ops.len() implies !ends_connection(#[trigger] ops[j]) by {
                    assert(ops[j] == rest[j - 1]);
                }
                assert(connected_by(ops));
            }
        }
    }
}

/// A new link, after any operations, counts as connected exactly where some
/// connection attempt succeeded and nothing since tore the link down, failed
/// a write, or read a close or a failure.
pub proof fn law_connected_iff_connected_since(ops: Seq<LinkOp>)
    ensures
        state_after_ops(
            WsLinkView { has_socket: false, pending_connect: true, connected: false },
            ops,
        ).connected <==> connected_by(ops),
{
    lemma_connected_after_ops(
        WsLinkView { has_socket: false, pending_connect: true, connected: false },
        ops,
    );
}

/// Only a teardown drops the socket, and only a successful connection gives
/// one: a failed write or any read keeps it, so a link whose write failed
/// still writes to its socket until it is torn down.
pub proof fn law_only_teardown_drops_socket(v: WsLinkView, op: LinkOp)
    ensures
        state_after_op(v, op).has_socket == match op {
            LinkOp::Disconnect => false,
            LinkOp::Connect(ok) => ok || v.has_socket,
            _ => v.has_socket,
        },
        state_after_send(v, false).has_socket == v.has_socket,
{
}

/// A new link, after any operations, holds a socket exactly where some
/// connection attempt succeeded and no teardown came after it.
pub proof fn law_socket_held_since_connect(ops: Seq<LinkOp>)
    ensures
        state_after_ops(
            WsLinkView { has_socket: false, pending_connect: true, connected: false },
            ops,
        ).has_socket <==> exists|i: int|
            0 <= i < ops.len() && ops[i] == LinkOp::Connect(true) && forall|j: int|
                i < j < ops.len() ==> #[trigger] ops[j] != LinkOp::Disconnect,
{
    lemma_socket_after_ops(
        WsLinkView { has_socket: false, pending_connect: true, connected: false },
        ops,
    );
}

proof fn lemma_socket_after_ops(v: WsLinkView, ops: Seq<LinkOp>)
    ensures
        state_after_ops(v, ops).has_socket <==> ((exists|i: int|
            0 <= i < ops.len() && ops[i] == LinkOp::Connect(true) && forall|j: int|
                i < j < ops.len() ==> #[trigger] ops[j] != LinkOp::Disconnect) || (v.has_socket
            && forall|j: int| 0 <= j < ops.len() ==> #[trigger] ops[j] != LinkOp::Disconnect)),
    decreases ops.len(),
{
    if ops.len() > 0 {
        let rest = ops.drop_first();
        let v1 = state_after_op(v, ops[0]);
        lemma_socket_after_ops(v1, rest);
        assert forall|j: int| 0 <= j < rest.len() implies rest[j] == ops[j + 1] by {}
        if exists|i: int|
            0 <= i < rest.len() && rest[i] == LinkOp::Connect(true) && forall|j: int|
                i < j < rest.len() ==> #[trigger] rest[j] != LinkOp::Disconnect {
            let i = choose|i: int|
                0 <= i < rest.len() && rest[i] == LinkOp::Connect(true) && forall|j: int|
                    i < j < rest.len() ==> #[trigger] rest[j] != LinkOp::Disconnect;
            assert(ops[i + 1] == LinkOp::Connect(true));
            assert forall|j: int| i + 1 < j < ops.len() implies #[trigger] ops[j] != LinkOp::Disconnect by {
                assert(ops[j] == rest[j - 1]);
            }
        }
        if exists|i: int|
            0 <= i < ops.len() && ops[i] == LinkOp::Connect(true) && forall|j: int|
                i < j < ops.len() ==> #[trigger] ops[j] != LinkOp::Disconnect {
            let i = choose|i: int|
                0 <= i < ops.len() && ops[i] == LinkOp::Connect(true) && forall|j: int|
                    i < j < ops.len() ==> #[trigger] ops[j] != LinkOp::Disconnect;
            if i > 0 {
                assert(rest[i - 1] == LinkOp::Connect(true));
                assert forall|j: int| i - 1 < j < rest.len() implies #[trigger] rest[j] != LinkOp::Disconnect by {
                    assert(rest[j] == ops[j + 1]);
                }
            } else {
                assert(v1.has_socket);
                assert forall|j: int| 0 <= j < rest.len() implies #[trigger] rest[j] != LinkOp::Disconnect by {
                    assert(rest[j] == ops[j + 1]);
                }
            }
        }
        if v.has_socket && forall|j: int| 0 <= j < ops.len() ==> #[trigger] ops[j] != LinkOp::Disconnect {
            assert(ops[0] != LinkOp::Disconnect);
            assert(v1.has_socket);
            assert forall|j: int| 0 <= j < rest.len() implies #[trigger] rest[j] != LinkOp::Disconnect by {
                assert(rest[j] == ops[j + 1]);
            }
        }
        if v1.has_socket && forall|j: int| 0 <= j < rest.len() ==> #[trigger] rest[j] != LinkOp::Disconnect {
            if ops[0] == LinkOp::Connect(true) {
                assert forall|j: int| 0 < j < ops.len() implies #[trigger] ops[j] != LinkOp::Disconnect by {
                    assert(ops[j] == rest[j - 1]);
                }
            } else {
                assert(v.has_socket && ops[0] != LinkOp::Disconnect);
                assert forall|j: int| 0 <= j < ops.len() implies #[trigger] ops[j] != LinkOp::Disconnect by {
                    if j > 0 {
                        assert(ops[j] == rest[j - 1]);
                    }
                }
            }
        }
    }
}

/// What a read reports agrees with what it does to the link: from a
/// connected link, a read reports a disconnect exactly where it leaves the
/// link unconnected; it answers with a pong only for a ping, with the
/// ping's payload; and a message it receives carries the payload as read.
pub proof fn law_read_report_matches_state(v: WsLinkView, outcome: WsReadOutcome, step: WsReadStep)
    requires
        v.connected,
        is_read_step(outcome, step),
    ensures
        step.event is Disconnect <==> !state_after_read(v, outcome).connected,
        step.pong is Some <==> outcome is Ping,
        outcome matches WsReadOutcome::Ping(d) ==> step.pong->Some_0@ == d@,
        step.event is Receive <==> (outcome is Binary || outcome is Text),
        outcome matches WsReadOutcome::Binary(d) ==> step.event->Receive_0@ == d@,
        outcome matches WsReadOutcome::Text(d) ==> step.event->Receive_0@ == d@,
        state_after_read(v, outcome).has_socket == v.has_socket,
{
}

/// Every step keeps that a connected link holds a socket.
pub proof fn law_connected_link_holds_socket(v: WsLinkView, outcome: WsReadOutcome, ok: bool)
    requires
        v.connected ==> v.has_socket,
    ensures
        state_after_connect(v, ok).connected ==> state_after_connect(v, ok).has_socket,
        state_after_read(v, outcome).connected ==> state_after_read(v, outcome).has_socket,
        state_after_send(v, ok).connected ==> state_after_send(v, ok).has_socket,
        !state_after_disconnect(v).connected,
{
}

/// Whether `step` is what a read that gave `outcome` is reported as: a
/// message's payload is received, a close or failure is a disconnect, a
/// ping is answered by a pong with its payload, and the rest is no event.
pub open spec fn is_read_step(outcome: WsReadOutcome, step: WsReadStep) -> bool {
    match outcome {
        WsReadOutcome::Binary(d) | WsReadOutcome::Text(d) => (step.event matches WsPacketEvent::Receive(
            e,
        ) && e@ == d@) && step.pong is None,
        WsReadOutcome::Close | WsReadOutcome::Failed => step.event is Disconnect
            && step.pong is None,
        WsReadOutcome::Ping(d) => step.event is NoEvent && (step.pong matches Some(p) && p@ == d@),
        _ => step.event is NoEvent && step.pong is None,
    }
}

/// What `String::from_utf8_lossy` gives back for `bytes`.
pub uninterp spec fn utf8_lossy(bytes: Seq<u8>) -> Seq<char>;

/// Calls `String::from_utf8_lossy` and takes the result as an owned string.
/// Claimed, as its documentation says: the result is a function of the
/// bytes; it is their decoding where they are valid UTF-8; where they are
/// not, invalid sequences are replaced by U+FFFD, so the result holds one.
/// Not claimed: where the replacement characters stand.
#[verifier::external_body]
fn string_from_utf8_lossy(bytes: &[u8]) -> (s: String)
    ensures
        s@ == utf8_lossy(bytes@),
        vstd::utf8::valid_utf8(bytes@) ==> s@ == vstd::utf8::decode_utf8(bytes@),
        !vstd::utf8::valid_utf8(bytes@) ==> s@.contains('\u{FFFD}'),
{
    String::from_utf8_lossy(bytes).into_owned()
}

impl WsLink {
    #[verifier::type_invariant]
    spec fn inv(self) -> bool {
        &&& self.connected ==> self.has_socket
        &&& self.connected ==> !self.pending_connect
    }

    /// A link whose connection is still to be made.
    pub fn new() -> (l: WsLink)
        ensures
            l@ == (WsLinkView { has_socket: false, pending_connect: true, connected: false }),
    {
        WsLink { has_socket: false, pending_connect: true, connected: false }
    }

    /// Records the outcome of a connection attempt and gives it back.
    pub fn connect_finished(&mut self, ok: bool) -> (r: bool)
        ensures
            r == ok,
            final(self)@ == state_after_connect(old(self)@, ok),
    {
        proof {
            use_type_invariant(&*self);
        }
        if ok {
            self.pending_connect = false;
            self.has_socket = true;
            self.connected = true;
        } else {
            self.pending_connect = false;
        }
        ok
    }

    /// Whether the next event is read from the socket; where it is not, the
    /// next event is `WsPacketEvent::NoEvent`.
    pub fn wants_read(&self) -> (r: bool)
        ensures
            r == reads(self@),
            r ==> self@.has_socket,
    {
        proof {
            use_type_invariant(self);
        }
        !self.pending_connect && self.connected
    }

    /// Records what a read gave and says how it is reported.
    pub fn read_finished(&mut self, outcome: WsReadOutcome) -> (step: WsReadStep)
        ensures
            final(self)@ == state_after_read(old(self)@, outcome),
            is_read_step(outcome, step),
    {
        proof {
            use_type_invariant(&*self);
        }
        match outcome {
            WsReadOutcome::Binary(d) => WsReadStep { event: WsPacketEvent::Receive(d), pong: None },
            WsReadOutcome::Text(d) => WsReadStep { event: WsPacketEvent::Receive(d), pong: None },
            WsReadOutcome::Close => {
                self.connected = false;
                WsReadStep { event: WsPacketEvent::Disconnect, pong: None }
            },
            WsReadOutcome::Ping(d) => WsReadStep { event: WsPacketEvent::NoEvent, pong: Some(d) },
            WsReadOutcome::Pong | WsReadOutcome::Frame | WsReadOutcome::Idle => WsReadStep {
                event: WsPacketEvent::NoEvent,
                pong: None,
            },
            WsReadOutcome::Failed => {
                self.connected = false;
                WsReadStep { event: WsPacketEvent::Disconnect, pong: None }
            },
        }
    }

    /// Whether a message can be written: the link holds a socket.
    pub fn can_send(&self) -> (r: bool)
        ensures
            r == self@.has_socket,
    {
        self.has_socket
    }

    /// The text message that carries `data`, decoded as UTF-8 with invalid
    /// sequences replaced; none where the link holds no socket.
    pub fn text_frame(&self, data: &[u8]) -> (r: Option<String>)
        ensures
            r is Some <==> self@.has_socket,
            r matches Some(s) ==> s@ == utf8_lossy(data@),
            r matches Some(s) ==> (vstd::utf8::valid_utf8(data@) ==> s@ == vstd::utf8::decode_utf8(
                data@,
            )),
            r matches Some(s) ==> (!vstd::utf8::valid_utf8(data@) ==> s@.contains('\u{FFFD}')),
    {
        if self.has_socket {
            Some(string_from_utf8_lossy(data))
        } else {
            None
        }
    }

    /// Records the outcome of a write and gives it back.
    pub fn send_finished(&mut self, ok: bool) -> (r: bool)
        ensures
            r == ok,
            final(self)@ == state_after_send(old(self)@, ok),
    {
        proof {
            use_type_invariant(&*self);
        }
        if !ok {
            self.connected = false;
        }
        ok
    }

    /// Tears the link down: no socket, not connected.
    pub fn disconnect(&mut self)
        ensures
            final(self)@ == state_after_disconnect(old(self)@),
    {
        self.connected = false;
        self.has_socket = false;
    }

    /// Whether the link counts as connected; a connected link holds a
    /// socket and is read from.
    pub fn is_connected(&self) -> (r: bool)
        ensures
            r == self@.connected,
            r ==> self@.has_socket,
            r ==> reads(self@),
    {
        proof {
            use_type_invariant(self);
        }
        self.connected
    }
}

} // verus!

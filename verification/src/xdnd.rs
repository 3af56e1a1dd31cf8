//! The source-side XDND protocol engine.
//!
//! A dedicated thread owns one [`DragSource`] and feeds it the events
//! of its display connection; every decision of the protocol — when to
//! enter, position, drop or leave an exchange, when to claim the drag
//! selection and how to answer a pull for the payload — is taken here,
//! as a transition on [`XDNDState`] plus the messages to put on the
//! wire. The thread only performs what it is handed back.
//!
//! The machine has three states: idle (`exchange_started` false),
//! entered (`exchange_started` set, `status_received` clear) and
//! awaiting drop (both set). `status_received` and `target_window` are
//! meaningful only while `exchange_started` holds, and resetting to
//! the initial state is the only way to leave an exchange.

use vstd::prelude::*;

use crate::atom::{atoms_wf, XDNDAtoms};
use crate::event::{
    encode_xdnd_drop, encode_xdnd_enter, encode_xdnd_leave, encode_xdnd_position,
    selection_notify_reply, spec_uri_list, spec_xdnd_drop, spec_xdnd_enter, spec_xdnd_leave,
    spec_xdnd_position, SelectionReply, SelectionRequestInfo, WireClientMessage,
};
use crate::{valid_path, DragItem, MAX_FIELD_VALUE, XDND_PROTOCOL_VERSION};

verus! {

/// The mutable protocol state of one drag exchange.
#[derive(Clone, Copy, Debug, PartialEq, Eq, Structural)]
pub struct XDNDState {
    pub exchange_started: bool,
    pub status_received: bool,
    pub last_position_timestamp: u64,
    pub target_window: u64,
}

impl XDNDState {
    /// The idle state: no exchange, no status, cleared target and
    /// timestamp.
    pub open spec fn initial() -> Self {
        XDNDState {
            exchange_started: false,
            status_received: false,
            last_position_timestamp: 0,
            target_window: 0,
        }
    }

    /// Returns the idle state.
    pub fn new() -> (r: Self)
        ensures
            r == Self::initial(),
    {
        XDNDState {
            exchange_started: false,
            status_received: false,
            last_position_timestamp: 0,
            target_window: 0,
        }
    }
}

impl Default for XDNDState {
    fn default() -> (r: Self)
        ensures
            r == Self::initial(),
    {
        Self::new()
    }
}

/// The drag source: the session's atom table, the hidden source
/// window, the exchange state, whether the pointer is currently over
/// the source's own window, and the paths of the current drag request.
pub struct DragSource {
    pub atoms: XDNDAtoms,
    pub source_window: u64,
    pub state: XDNDState,
    pub cursor_in_source: bool,
    pub paths: Vec<Vec<u8>>,
}

/// The mathematical value of a [`DragSource`].
pub struct SourceView {
    pub atoms: XDNDAtoms,
    pub source_window: u64,
    pub state: XDNDState,
    pub cursor_in_source: bool,
    pub paths: Seq<Seq<u8>>,
}

impl View for DragSource {
    type V = SourceView;

    open spec fn view(&self) -> SourceView {
        SourceView {
            atoms: self.atoms,
            source_window: self.source_window,
            state: self.state,
            cursor_in_source: self.cursor_in_source,
            paths: self.paths.deep_view(),
        }
    }
}

impl SourceView {
    /// Identifiers and timestamps fit the wire fields, and every held
    /// path can be marshaled.
    pub open spec fn wf(self) -> bool {
        &&& atoms_wf(self.atoms)
        &&& self.source_window <= MAX_FIELD_VALUE
        &&& self.state.last_position_timestamp <= MAX_FIELD_VALUE
        &&& self.state.target_window <= MAX_FIELD_VALUE
        &&& forall|i: int| 0 <= i < self.paths.len() ==> valid_path(#[trigger] self.paths[i])
    }
}

/// What a pointer-motion event asks the thread to do next.
#[derive(Clone, Copy, Debug, PartialEq, Eq, Structural)]
pub enum MotionOutcome {
    /// Nothing: the pointer is over the source itself, or no window
    /// was located.
    Ignore,
    /// Not in an exchange: read the located window's `XdndAware`
    /// property and report it back through
    /// [`DragSource::on_probe_result`].
    Probe { target: u64 },
    /// The exchange target changed: send `leave` to the old target
    /// (the state has been reset), then probe the new one as above.
    LeaveAndProbe { leave: WireClientMessage, target: u64 },
    /// Still over the exchange target: send this `position` message.
    Position { msg: WireClientMessage },
}

/// What a probe result asks the thread to do next.
#[derive(Clone, Copy, Debug, PartialEq, Eq, Structural)]
pub enum ProbeOutcome {
    /// The window is not a usable target: no transition.
    Ignore,
    /// Claim ownership of `selection` at `claim_time`, then send this
    /// `enter` message.
    Enter { selection: u64, claim_time: u64, enter: WireClientMessage },
}

/// Rejections of a drag payload.
#[derive(Clone, Copy, Debug, PartialEq, Eq, Structural)]
pub enum PayloadError {
    /// The file list is empty: nothing meaningful to drag.
    EmptyList,
    /// A path is empty, not absolute, or holds a NUL byte.
    InvalidPath,
}

/// One event of the responder thread's loop, as handed to the
/// [`DragSource`] handlers.
#[derive(Clone, Copy, Debug)]
pub enum SourceEvent {
    Motion { located: Option<u64>, root_x: i32, root_y: i32, time: u64 },
    ProbeResult { target: u64, version: Option<u8>, time: u64 },
    ClientMessage { message_type: u64, data1: i64 },
    ButtonRelease,
    EnterSource,
    LeaveSource,
    SelectionRequest { req: SelectionRequestInfo },
}

/// The event's identifiers and coordinates fit the wire fields.
pub open spec fn event_wf(e: SourceEvent) -> bool {
    match e {
        SourceEvent::Motion { located, root_x, root_y, time } => {
            &&& match located {
                Some(w) => w <= MAX_FIELD_VALUE,
                None => true,
            }
            &&& 0 <= root_x < 0x8000
            &&& 0 <= root_y < 0x8000
            &&& time <= MAX_FIELD_VALUE
        },
        SourceEvent::ProbeResult { target, version, time } => {
            &&& target <= MAX_FIELD_VALUE
            &&& time <= MAX_FIELD_VALUE
        },
        _ => true,
    }
}

/// The target advertises a protocol version the source can speak:
/// the property is present and its version does not exceed 5.
pub open spec fn probe_accepts(version: Option<u8>) -> bool {
    match version {
        Some(ver) => ver as u32 <= XDND_PROTOCOL_VERSION,
        None => false,
    }
}

/// State after a pointer-motion event over `located`.
pub open spec fn motion_step(
    v: SourceView,
    located: Option<u64>,
    root_x: i32,
    root_y: i32,
    time: u64,
) -> SourceView {
    if v.cursor_in_source {
        v
    } else {
        match located {
            None => v,
            Some(target) => {
                if v.state.exchange_started && target != v.state.target_window {
                    SourceView { state: XDNDState::initial(), ..v }
                } else if !v.state.exchange_started {
                    v
                } else {
                    SourceView {
                        state: XDNDState { last_position_timestamp: time, ..v.state },
                        ..v
                    }
                }
            },
        }
    }
}

/// Actions requested by a pointer-motion event over `located`.
pub open spec fn motion_out(
    v: SourceView,
    located: Option<u64>,
    root_x: i32,
    root_y: i32,
    time: u64,
) -> MotionOutcome {
    if v.cursor_in_source {
        MotionOutcome::Ignore
    } else {
        match located {
            None => MotionOutcome::Ignore,
            Some(target) => {
                if v.state.exchange_started && target != v.state.target_window {
                    MotionOutcome::LeaveAndProbe {
                        leave: spec_xdnd_leave(v.atoms, v.source_window, v.state.target_window),
                        target,
                    }
                } else if !v.state.exchange_started {
                    MotionOutcome::Probe { target }
                } else {
                    MotionOutcome::Position {
                        msg: spec_xdnd_position(
                            v.atoms,
                            v.source_window,
                            target,
                            time,
                            root_x,
                            root_y,
                        ),
                    }
                }
            },
        }
    }
}

/// State after the `XdndAware` probe of `target` came back. Entering
/// an exchange starts it afresh: `status_received` and the position
/// timestamp are meaningful only within the exchange being entered,
/// so both are cleared.
pub open spec fn probe_step(v: SourceView, target: u64, version: Option<u8>, time: u64)
    -> SourceView {
    if !v.state.exchange_started && probe_accepts(version) {
        SourceView {
            state: XDNDState {
                exchange_started: true,
                status_received: false,
                last_position_timestamp: 0,
                target_window: target,
            },
            ..v
        }
    } else {
        v
    }
}

/// Actions requested by the probe result.
pub open spec fn probe_out(v: SourceView, target: u64, version: Option<u8>, time: u64)
    -> ProbeOutcome {
    match version {
        Some(ver) => {
            if !v.state.exchange_started && ver as u32 <= XDND_PROTOCOL_VERSION {
                ProbeOutcome::Enter {
                    selection: v.atoms.xdnd_selection,
                    claim_time: time,
                    enter: spec_xdnd_enter(v.atoms, v.source_window, target, ver),
                }
            } else {
                ProbeOutcome::Ignore
            }
        },
        None => ProbeOutcome::Ignore,
    }
}

/// The acceptance bit of a status message's second data field.
pub open spec fn status_accepted(data1: i64) -> bool {
    (data1 as u64) & 1u64 == 1u64
}

/// State after a client message: a status message records that status
/// was received, and a rejection resets the machine to idle.
pub open spec fn client_message_step(v: SourceView, message_type: u64, data1: i64)
    -> SourceView {
    if message_type == v.atoms.xdnd_status {
        if !status_accepted(data1) {
            SourceView { state: XDNDState::initial(), ..v }
        } else {
            SourceView { state: XDNDState { status_received: true, ..v.state }, ..v }
        }
    } else {
        v
    }
}

/// The message a client message asks the thread to send: `leave` to
/// the current target, on a rejection during an active exchange.
pub open spec fn client_message_out(v: SourceView, message_type: u64, data1: i64)
    -> Option<WireClientMessage> {
    if message_type == v.atoms.xdnd_status && !status_accepted(data1) && v.state.exchange_started {
        Some(spec_xdnd_leave(v.atoms, v.source_window, v.state.target_window))
    } else {
        None
    }
}

/// A button release emits "drop" exactly when an exchange is active
/// and the target's status has been received.
pub open spec fn emits_drop(v: SourceView) -> bool {
    v.state.exchange_started && v.state.status_received
}

/// The message a button release asks the thread to send.
pub open spec fn button_release_out(v: SourceView) -> Option<WireClientMessage> {
    if emits_drop(v) {
        Some(spec_xdnd_drop(
            v.atoms,
            v.source_window,
            v.state.target_window,
            v.state.last_position_timestamp,
        ))
    } else {
        None
    }
}

/// The paths of a drag request.
pub open spec fn item_paths(item: DragItem) -> Seq<Seq<u8>> {
    match item {
        DragItem::Files(ps) => ps.deep_view(),
    }
}

impl DragSource {
    /// A fresh source for a session: idle, pointer not over the
    /// source, no payload.
    pub fn new(atoms: XDNDAtoms, source_window: u64) -> (r: DragSource)
        requires
            atoms_wf(atoms),
            source_window <= MAX_FIELD_VALUE,
        ensures
            r@ == (SourceView {
                atoms: atoms,
                source_window: source_window,
                state: XDNDState::initial(),
                cursor_in_source: false,
                paths: Seq::<Seq<u8>>::empty(),
            }),
            r@.wf(),
    {
        let r = DragSource {
            atoms,
            source_window,
            state: XDNDState::new(),
            cursor_in_source: false,
            paths: Vec::new(),
        };
        proof {
            assert(r.paths.deep_view() =~= Seq::<Seq<u8>>::empty());
        }
        r
    }

    /// Supplies the payload of the next drag gesture. Rejects an empty
    /// list, and any path that is empty, not absolute or holds a NUL
    /// byte; on rejection nothing changes.
    pub fn set_drag_item(&mut self, item: DragItem) -> (r: Result<(), PayloadError>)
        requires
            old(self)@.wf(),
        ensures
            final(self)@.wf(),
            final(self)@.atoms == old(self)@.atoms,
            final(self)@.source_window == old(self)@.source_window,
            final(self)@.state == old(self)@.state,
            final(self)@.cursor_in_source == old(self)@.cursor_in_source,
            r == Ok::<(), PayloadError>(()) <==> (item_paths(item).len() >= 1
                && (forall|i: int| 0 <= i < item_paths(item).len()
                    ==> valid_path(#[trigger] item_paths(item)[i]))),
            r is Ok ==> final(self)@.paths == item_paths(item),
            r == Err::<(), PayloadError>(PayloadError::EmptyList) <==> item_paths(item).len()
                == 0,
            r is Err ==> final(self)@.paths == old(self)@.paths,
    {
        let DragItem::Files(ps) = item;
        proof {
            assert(item_paths(item) == ps.deep_view());
        }
        if ps.len() == 0 {
            proof {
                assert(self.paths == old(self).paths);
                assert(self@.paths == old(self)@.paths);
            }
            return Err(PayloadError::EmptyList);
        }
        let ghost gps = ps.deep_view();
        let mut i: usize = 0;
        while i < ps.len()
            invariant
                i <= ps.len(),
                *self == *old(self),
                old(self)@.wf(),
                gps == ps.deep_view(),
                gps == item_paths(item),
                gps.len() == ps.len(),
                forall|j: int| 0 <= j < i ==> valid_path(#[trigger] gps[j]),
            decreases ps.len() - i,
        {
            if !crate::check_valid_path(&ps[i]) {
                proof {
                    assert(gps[i as int] == ps@[i as int]@);
                    assert(!valid_path(gps[i as int]));
                    assert(self.paths == old(self).paths);
                    assert(self@.paths == old(self)@.paths);
                }
                return Err(PayloadError::InvalidPath);
            }
            proof {
                assert(gps[i as int] == ps@[i as int]@);
            }
            i = i + 1;
        }
        self.paths = ps;
        proof {
            assert(self.paths.deep_view() =~= gps);
            assert(self@.paths == gps);
        }
        Ok(())
    }

    /// Pointer motion outside the source's own window: locate the
    /// window under the pointer (`located`), switch or keep the
    /// target, and ask for a probe or a position message.
    pub fn on_motion(&mut self, located: Option<u64>, root_x: i32, root_y: i32, time: u64)
        -> (r: MotionOutcome)
        requires
            old(self)@.wf(),
            match located {
                Some(w) => w <= MAX_FIELD_VALUE,
                None => true,
            },
            0 <= root_x < 0x8000,
            0 <= root_y < 0x8000,
            time <= MAX_FIELD_VALUE,
        ensures
            final(self)@ == motion_step(old(self)@, located, root_x, root_y, time),
            r == motion_out(old(self)@, located, root_x, root_y, time),
            final(self)@.wf(),
    {
        if self.cursor_in_source {
            proof {
                assert(self.paths == old(self).paths);
                assert(self@.paths == old(self)@.paths);
            }
            return MotionOutcome::Ignore;
        }
        let r = match located {
            None => MotionOutcome::Ignore,
            Some(target) => {
                if self.state.exchange_started && target != self.state.target_window {
                    let leave = encode_xdnd_leave(
                        &self.atoms,
                        self.source_window,
                        self.state.target_window,
                    );
                    self.state = XDNDState::new();
                    MotionOutcome::LeaveAndProbe { leave, target }
                } else if !self.state.exchange_started {
                    MotionOutcome::Probe { target }
                } else {
                    let msg = encode_xdnd_position(
                        &self.atoms,
                        self.source_window,
                        target,
                        time,
                        root_x,
                        root_y,
                    );
                    self.state.last_position_timestamp = time;
                    MotionOutcome::Position { msg }
                }
            },
        };
        proof {
            assert(self.paths == old(self).paths);
            assert(self@.paths == old(self)@.paths);
        }
        r
    }

    /// The answer to a probe of `target`'s `XdndAware` property:
    /// `version` is the advertised protocol version, if the property
    /// was present. The "enter" message is emitted, and the exchange
    /// entered, exactly when the machine is idle and a version at most
    /// 5 is advertised; otherwise nothing changes.
    pub fn on_probe_result(&mut self, target: u64, version: Option<u8>, time: u64)
        -> (r: ProbeOutcome)
        requires
            old(self)@.wf(),
            target <= MAX_FIELD_VALUE,
            time <= MAX_FIELD_VALUE,
        ensures
            final(self)@ == probe_step(old(self)@, target, version, time),
            r == probe_out(old(self)@, target, version, time),
            final(self)@.wf(),
            !(r == ProbeOutcome::Ignore) <==> (!old(self)@.state.exchange_started
                && probe_accepts(version)),
            !(r == ProbeOutcome::Ignore) ==> final(self)@.state == (XDNDState {
                exchange_started: true,
                status_received: false,
                last_position_timestamp: 0,
                target_window: target,
            }),
            r == ProbeOutcome::Ignore ==> final(self)@ == old(self)@,
    {
        let r = match version {
            None => ProbeOutcome::Ignore,
            Some(ver) => {
                if !self.state.exchange_started && (ver as u32) <= XDND_PROTOCOL_VERSION {
                    let enter = encode_xdnd_enter(&self.atoms, self.source_window, target, ver);
                    self.state = XDNDState {
                        exchange_started: true,
                        status_received: false,
                        last_position_timestamp: 0,
                        target_window: target,
                    };
                    ProbeOutcome::Enter {
                        selection: self.atoms.xdnd_selection,
                        claim_time: time,
                        enter,
                    }
                } else {
                    ProbeOutcome::Ignore
                }
            },
        };
        proof {
            assert(self.paths == old(self).paths);
            assert(self@.paths == old(self)@.paths);
        }
        r
    }

    /// A client message from the session. A status message from the
    /// target records `status_received`; if its acceptance bit is
    /// unset, the machine emits "leave" to the current target (when an
    /// exchange is active) and resets fully to the initial state.
    pub fn on_client_message(&mut self, message_type: u64, data1: i64)
        -> (r: Option<WireClientMessage>)
        requires
            old(self)@.wf(),
        ensures
            final(self)@ == client_message_step(old(self)@, message_type, data1),
            r == client_message_out(old(self)@, message_type, data1),
            final(self)@.wf(),
            (message_type == old(self)@.atoms.xdnd_status && !status_accepted(data1))
                ==> final(self)@.state == XDNDState::initial(),
    {
        let r = if message_type == self.atoms.xdnd_status {
            let accepted = (#[verifier::truncate] (data1 as u64)) & 1u64 == 1u64;
            if !accepted {
                let out = if self.state.exchange_started {
                    Some(encode_xdnd_leave(
                        &self.atoms,
                        self.source_window,
                        self.state.target_window,
                    ))
                } else {
                    None
                };
                self.state = XDNDState::new();
                out
            } else {
                self.state.status_received = true;
                None
            }
        } else {
            None
        };
        proof {
            assert(self.paths == old(self).paths);
            assert(self@.paths == old(self)@.paths);
        }
        r
    }

    /// A release of the drag button: the "drop" message, carrying the
    /// last position timestamp, is emitted exactly when the exchange
    /// is active and the target's status has been received. The state
    /// is not reset here; only a later leave or reset clears it.
    pub fn on_button_release(&self) -> (r: Option<WireClientMessage>)
        requires
            self@.wf(),
        ensures
            r == button_release_out(self@),
            r is Some <==> emits_drop(self@),
    {
        if self.state.exchange_started && self.state.status_received {
            Some(encode_xdnd_drop(
                &self.atoms,
                self.source_window,
                self.state.target_window,
                self.state.last_position_timestamp,
            ))
        } else {
            None
        }
    }

    /// The pointer entered the source's own window: suppress hit
    /// testing until it leaves.
    pub fn on_enter_source(&mut self)
        requires
            old(self)@.wf(),
        ensures
            final(self)@ == (SourceView { cursor_in_source: true, ..old(self)@ }),
            final(self)@.wf(),
    {
        self.cursor_in_source = true;
        proof {
            assert(self.paths == old(self).paths);
            assert(self@.paths == old(self)@.paths);
        }
    }

    /// The pointer left the source's own window.
    pub fn on_leave_source(&mut self)
        requires
            old(self)@.wf(),
        ensures
            final(self)@ == (SourceView { cursor_in_source: false, ..old(self)@ }),
            final(self)@.wf(),
    {
        self.cursor_in_source = false;
        proof {
            assert(self.paths == old(self).paths);
            assert(self@.paths == old(self)@.paths);
        }
    }

    /// A target pulls the payload: while an exchange is active, answer
    /// with the URI list of the dragged paths and the request's fields
    /// echoed verbatim; otherwise stay silent.
    pub fn on_selection_request(&self, req: &SelectionRequestInfo) -> (r: Option<SelectionReply>)
        requires
            self@.wf(),
        ensures
            r is Some <==> self@.state.exchange_started,
            r matches Some(reply) ==> {
                &&& reply.requestor == req.requestor
                &&& reply.selection == req.selection
                &&& reply.target == req.target
                &&& reply.property == req.property
                &&& reply.time == req.time
                &&& reply.data@ == spec_uri_list(self@.paths)
            },
    {
        if self.state.exchange_started {
            Some(selection_notify_reply(req, &self.paths))
        } else {
            None
        }
    }
}

/// One step of the responder loop, on the machine's value alone.
pub open spec fn step(v: SourceView, e: SourceEvent) -> SourceView {
    match e {
        SourceEvent::Motion { located, root_x, root_y, time } => motion_step(
            v,
            located,
            root_x,
            root_y,
            time,
        ),
        SourceEvent::ProbeResult { target, version, time } => probe_step(v, target, version, time),
        SourceEvent::ClientMessage { message_type, data1 } => client_message_step(
            v,
            message_type,
            data1,
        ),
        SourceEvent::ButtonRelease => v,
        SourceEvent::EnterSource => SourceView { cursor_in_source: true, ..v },
        SourceEvent::LeaveSource => SourceView { cursor_in_source: false, ..v },
        SourceEvent::SelectionRequest { .. } => v,
    }
}

/// The machine's value after a whole sequence of events.
pub open spec fn run(v: SourceView, evs: Seq<SourceEvent>) -> SourceView
    decreases evs.len(),
{
    if evs.len() == 0 {
        v
    } else {
        run(step(v, evs.first()), evs.drop_first())
    }
}

/// A status message from the target, under the session's atom table.
pub open spec fn is_status_event(atoms: XDNDAtoms, e: SourceEvent) -> bool {
    e matches SourceEvent::ClientMessage { message_type, .. } && message_type == atoms.xdnd_status
}

/// No step changes the session's atom table, source window or payload.
pub proof fn lemma_step_preserves_config(v: SourceView, e: SourceEvent)
    ensures
        step(v, e).atoms == v.atoms,
        step(v, e).source_window == v.source_window,
        step(v, e).paths == v.paths,
        v.wf() && event_wf(e) ==> step(v, e).wf(),
{
}

/// Law: a well-formed machine stays well formed over any run of
/// well-formed events.
pub proof fn lemma_run_preserves_wf(v: SourceView, evs: Seq<SourceEvent>)
    requires
        v.wf(),
        forall|i: int| 0 <= i < evs.len() ==> event_wf(#[trigger] evs[i]),
    ensures
        run(v, evs).wf(),
    decreases evs.len(),
{
    if evs.len() != 0 {
        assert(evs[0] == evs.first());
        lemma_step_preserves_config(v, evs.first());
        assert(forall|i: int| 0 <= i < evs.drop_first().len()
            ==> event_wf(#[trigger] evs.drop_first()[i]));
        lemma_run_preserves_wf(step(v, evs.first()), evs.drop_first());
    }
}

/// Law: a drop is only ever emitted after a status message. Over any
/// event sequence holding no status message, the machine never sets
/// `status_received`, so a button release at its end produces no
/// "drop" message.
pub proof fn lemma_no_status_no_drop(v: SourceView, evs: Seq<SourceEvent>)
    requires
        !v.state.status_received,
        forall|i: int| 0 <= i < evs.len() ==> !is_status_event(v.atoms, #[trigger] evs[i]),
    ensures
        !run(v, evs).state.status_received,
        !emits_drop(run(v, evs)),
        button_release_out(run(v, evs)) is None,
    decreases evs.len(),
{
    if evs.len() != 0 {
        let e = evs.first();
        let v1 = step(v, e);
        assert(e == evs[0]);
        lemma_step_preserves_config(v, e);
        assert(!v1.state.status_received);
        assert(forall|i: int| 0 <= i < evs.drop_first().len()
            ==> !is_status_event(v1.atoms, #[trigger] evs.drop_first()[i]));
        lemma_no_status_no_drop(v1, evs.drop_first());
    }
}

/// Law: when the pointer moves from the active target straight onto a
/// different XDND-aware window, the machine emits "leave" to the old
/// target, passes through the initial (idle) state, and only then
/// emits "enter" to the new target.
pub proof fn lemma_target_switch(
    v: SourceView,
    new_target: u64,
    ver: u8,
    root_x: i32,
    root_y: i32,
    motion_time: u64,
    probe_time: u64,
)
    requires
        v.state.exchange_started,
        !v.cursor_in_source,
        new_target != v.state.target_window,
        ver as u32 <= XDND_PROTOCOL_VERSION,
    ensures
        motion_out(v, Some(new_target), root_x, root_y, motion_time)
            == (MotionOutcome::LeaveAndProbe {
            leave: spec_xdnd_leave(v.atoms, v.source_window, v.state.target_window),
            target: new_target,
        }),
        motion_step(v, Some(new_target), root_x, root_y, motion_time).state
            == XDNDState::initial(),
        probe_out(
            motion_step(v, Some(new_target), root_x, root_y, motion_time),
            new_target,
            Some(ver),
            probe_time,
        ) == (ProbeOutcome::Enter {
            selection: v.atoms.xdnd_selection,
            claim_time: probe_time,
            enter: spec_xdnd_enter(v.atoms, v.source_window, new_target, ver),
        }),
        probe_step(
            motion_step(v, Some(new_target), root_x, root_y, motion_time),
            new_target,
            Some(ver),
            probe_time,
        ).state == (XDNDState {
            exchange_started: true,
            status_received: false,
            last_position_timestamp: 0,
            target_window: new_target,
        }),
{
}

/// Law: a status message whose acceptance bit is unset, received while
/// an exchange is active, emits "leave" to the current target and
/// resets the state fully to its defaults.
pub proof fn lemma_rejection_resets(v: SourceView, data1: i64)
    requires
        v.state.exchange_started,
        !status_accepted(data1),
    ensures
        client_message_step(v, v.atoms.xdnd_status, data1).state == XDNDState::initial(),
        client_message_out(v, v.atoms.xdnd_status, data1)
            == Some(spec_xdnd_leave(v.atoms, v.source_window, v.state.target_window)),
{
}

} // verus!

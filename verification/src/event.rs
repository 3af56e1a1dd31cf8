//! Outbound XDND wire messages.
//!
//! Every protocol message the source emits is a 32-bit-format client
//! message: five signed long data fields addressed to the window
//! believed to be the drop target. This module fixes the exact field
//! layout of the "enter", "position", "drop" and "leave" messages, and
//! builds the reply to a selection request: the dragged paths written
//! as a URI list together with the property-notify fields echoed
//! verbatim from the request.

use vstd::prelude::*;

use crate::atom::{atoms_wf, XDNDAtoms};
use crate::MAX_FIELD_VALUE;

verus! {

/// A client message ready to be put on the wire: the destination
/// window, the message-type atom, the field format (always 32 here)
/// and the five long data fields.
#[derive(Clone, Copy, Debug, PartialEq, Eq, Structural)]
pub struct WireClientMessage {
    pub window: u64,
    pub message_type: u64,
    pub format: i32,
    pub data0: i64,
    pub data1: i64,
    pub data2: i64,
    pub data3: i64,
    pub data4: i64,
}

/// The "enter" message: source window, the negotiated protocol version
/// shifted into the high byte of the second field, and the single
/// supported data-type atom.
pub open spec fn spec_xdnd_enter(atoms: XDNDAtoms, source: u64, target: u64, version: u8)
    -> WireClientMessage {
    WireClientMessage {
        window: target,
        message_type: atoms.xdnd_enter,
        format: 32,
        data0: source as i64,
        data1: ((version as int) * 0x100_0000) as i64,
        data2: atoms.types[0] as i64,
        data3: 0,
        data4: 0,
    }
}

/// The "position" message: source window, the root-relative pointer
/// position packed as a 16:16 pair, the motion timestamp, and the
/// "copy" action atom.
pub open spec fn spec_xdnd_position(
    atoms: XDNDAtoms,
    source: u64,
    target: u64,
    time: u64,
    root_x: i32,
    root_y: i32,
) -> WireClientMessage {
    WireClientMessage {
        window: target,
        message_type: atoms.xdnd_position,
        format: 32,
        data0: source as i64,
        data1: 0,
        data2: ((root_x as int) * 0x1_0000 + root_y as int) as i64,
        data3: time as i64,
        data4: atoms.xdnd_action_copy as i64,
    }
}

/// The "drop" message: source window and the timestamp of the last
/// position message.
pub open spec fn spec_xdnd_drop(atoms: XDNDAtoms, source: u64, target: u64, time: u64)
    -> WireClientMessage {
    WireClientMessage {
        window: target,
        message_type: atoms.xdnd_drop,
        format: 32,
        data0: source as i64,
        data1: 0,
        data2: time as i64,
        data3: 0,
        data4: 0,
    }
}

/// The "leave" message: the source window alone.
pub open spec fn spec_xdnd_leave(atoms: XDNDAtoms, source: u64, target: u64)
    -> WireClientMessage {
    WireClientMessage {
        window: target,
        message_type: atoms.xdnd_leave,
        format: 32,
        data0: source as i64,
        data1: 0,
        data2: 0,
        data3: 0,
        data4: 0,
    }
}

/// Builds the "enter" message for `target`, advertising `version` as
/// the negotiated protocol version.
pub fn encode_xdnd_enter(atoms: &XDNDAtoms, source: u64, target: u64, version: u8)
    -> (r: WireClientMessage)
    requires
        atoms_wf(*atoms),
        source <= MAX_FIELD_VALUE,
    ensures
        r == spec_xdnd_enter(*atoms, source, target, version),
{
    WireClientMessage {
        window: target,
        message_type: atoms.xdnd_enter,
        format: 32,
        data0: source as i64,
        data1: (version as i64) * 0x100_0000,
        data2: atoms.types[0] as i64,
        data3: 0,
        data4: 0,
    }
}

/// Builds the "position" message carrying the root-relative pointer
/// position and the motion timestamp.
pub fn encode_xdnd_position(
    atoms: &XDNDAtoms,
    source: u64,
    target: u64,
    time: u64,
    root_x: i32,
    root_y: i32,
) -> (r: WireClientMessage)
    requires
        atoms_wf(*atoms),
        source <= MAX_FIELD_VALUE,
        time <= MAX_FIELD_VALUE,
        0 <= root_x < 0x8000,
        0 <= root_y < 0x8000,
    ensures
        r == spec_xdnd_position(*atoms, source, target, time, root_x, root_y),
{
    WireClientMessage {
        window: target,
        message_type: atoms.xdnd_position,
        format: 32,
        data0: source as i64,
        data1: 0,
        data2: (root_x as i64) * 0x1_0000 + (root_y as i64),
        data3: time as i64,
        data4: atoms.xdnd_action_copy as i64,
    }
}

/// Builds the "drop" message carrying the last position timestamp.
pub fn encode_xdnd_drop(atoms: &XDNDAtoms, source: u64, target: u64, time: u64)
    -> (r: WireClientMessage)
    requires
        atoms_wf(*atoms),
        source <= MAX_FIELD_VALUE,
        time <= MAX_FIELD_VALUE,
    ensures
        r == spec_xdnd_drop(*atoms, source, target, time),
{
    WireClientMessage {
        window: target,
        message_type: atoms.xdnd_drop,
        format: 32,
        data0: source as i64,
        data1: 0,
        data2: time as i64,
        data3: 0,
        data4: 0,
    }
}

/// Builds the "leave" message.
pub fn encode_xdnd_leave(atoms: &XDNDAtoms, source: u64, target: u64)
    -> (r: WireClientMessage)
    requires
        atoms_wf(*atoms),
        source <= MAX_FIELD_VALUE,
    ensures
        r == spec_xdnd_leave(*atoms, source, target),
{
    WireClientMessage {
        window: target,
        message_type: atoms.xdnd_leave,
        format: 32,
        data0: source as i64,
        data1: 0,
        data2: 0,
        data3: 0,
        data4: 0,
    }
}

/// The fields of a selection request that the responder reads.
#[derive(Clone, Copy, Debug, PartialEq, Eq, Structural)]
pub struct SelectionRequestInfo {
    pub requestor: u64,
    pub selection: u64,
    pub target: u64,
    pub property: u64,
    pub time: u64,
}

/// The responder's answer: the bytes to write into `property` on
/// `requestor`, and the notify fields echoed from the request.
#[derive(Debug)]
pub struct SelectionReply {
    pub requestor: u64,
    pub selection: u64,
    pub target: u64,
    pub property: u64,
    pub time: u64,
    pub data: Vec<u8>,
}

/// The bytes of `file://`.
pub open spec fn uri_prefix() -> Seq<u8> {
    seq![102u8, 105u8, 108u8, 101u8, 58u8, 47u8, 47u8]
}

/// One line of the URI list: `file://<path>` terminated by CRLF.
pub open spec fn spec_uri_line(p: Seq<u8>) -> Seq<u8> {
    uri_prefix() + p + seq![13u8, 10u8]
}

/// The whole property payload: one URI line per path, in order, and
/// nothing else.
pub open spec fn spec_uri_list(paths: Seq<Seq<u8>>) -> Seq<u8>
    decreases paths.len(),
{
    if paths.len() == 0 {
        Seq::empty()
    } else {
        spec_uri_line(paths.first()) + spec_uri_list(paths.drop_first())
    }
}

/// Appending a path extends the URI list by one line.
pub proof fn lemma_uri_list_snoc(paths: Seq<Seq<u8>>, p: Seq<u8>)
    ensures
        spec_uri_list(paths.push(p)) == spec_uri_list(paths) + spec_uri_line(p),
    decreases paths.len(),
{
    if paths.len() == 0 {
        assert(paths.push(p).first() == p);
        assert(paths.push(p).drop_first() =~= Seq::<Seq<u8>>::empty());
        assert(paths.push(p).drop_first() == Seq::<Seq<u8>>::empty());
        assert(spec_uri_list(Seq::<Seq<u8>>::empty()) == Seq::<u8>::empty());
        assert(spec_uri_list(paths.push(p)) == spec_uri_line(p) + Seq::<u8>::empty());
        assert(spec_uri_line(p) + Seq::<u8>::empty() =~= spec_uri_list(paths) + spec_uri_line(p));
    } else {
        assert(paths.push(p).first() == paths.first());
        assert(paths.push(p).drop_first() =~= paths.drop_first().push(p));
        assert(paths.push(p).drop_first() == paths.drop_first().push(p));
        lemma_uri_list_snoc(paths.drop_first(), p);
        assert(spec_uri_list(paths.push(p)) == spec_uri_line(paths.first())
            + (spec_uri_list(paths.drop_first()) + spec_uri_line(p)));
        assert(spec_uri_line(paths.first()) + (spec_uri_list(paths.drop_first()) + spec_uri_line(p))
            =~= (spec_uri_line(paths.first()) + spec_uri_list(paths.drop_first())) + spec_uri_line(p));
        assert(spec_uri_list(paths) == spec_uri_line(paths.first()) + spec_uri_list(paths.drop_first()));
    }
}

/// Writes the path list as a URI list: one `file://` line per path,
/// CRLF line ends.
pub fn build_uri_list(paths: &Vec<Vec<u8>>) -> (r: Vec<u8>)
    ensures
        r@ == spec_uri_list(paths.deep_view()),
{
    let ghost all = paths.deep_view();
    let mut out: Vec<u8> = Vec::new();
    let mut i: usize = 0;
    while i < paths.len()
        invariant
            i <= paths.len(),
            all == paths.deep_view(),
            out@ == spec_uri_list(all.take(i as int)),
        decreases paths.len() - i,
    {
        out.push(102u8);  // f
        out.push(105u8);  // i
        out.push(108u8);  // l
        out.push(101u8);  // e
        out.push(58u8);  // :
        out.push(47u8);  // /
        out.push(47u8);  // /
        let p = &paths[i];
        let mut j: usize = 0;
        while j < p.len()
            invariant
                j <= p.len(),
                i < paths.len(),
                all == paths.deep_view(),
                p@ == paths@[i as int]@,
                out@ == spec_uri_list(all.take(i as int)) + uri_prefix()
                    + p@.subrange(0, j as int),
            decreases p.len() - j,
        {
            out.push(p[j]);
            assert(out@ =~= spec_uri_list(all.take(i as int)) + uri_prefix()
                + p@.subrange(0, j + 1 as int));
            j = j + 1;
        }
        out.push(13u8);
        out.push(10u8);
        proof {
            assert(p@.subrange(0, p@.len() as int) =~= p@);
            assert(all[i as int] == p@);
            lemma_uri_list_snoc(all.take(i as int), all[i as int]);
            assert(all.take(i as int).push(all[i as int]) =~= all.take(i + 1 as int));
            assert(out@ =~= spec_uri_list(all.take(i as int)) + spec_uri_line(all[i as int]));
        }
        i = i + 1;
    }
    proof {
        assert(all.take(paths.len() as int) =~= all);
    }
    out
}

/// Answers a selection request while an exchange is active: the URI
/// list for the dragged paths, and the request's own fields echoed
/// into the notify reply.
pub fn selection_notify_reply(req: &SelectionRequestInfo, paths: &Vec<Vec<u8>>)
    -> (r: SelectionReply)
    ensures
        r.requestor == req.requestor,
        r.selection == req.selection,
        r.target == req.target,
        r.property == req.property,
        r.time == req.time,
        r.data@ == spec_uri_list(paths.deep_view()),
{
    SelectionReply {
        requestor: req.requestor,
        selection: req.selection,
        target: req.target,
        property: req.property,
        time: req.time,
        data: build_uri_list(paths),
    }
}

} // verus!

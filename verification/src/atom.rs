//! The session-scoped table of resolved XDND protocol atoms.
//!
//! The XDND protocol addresses its message types, its selection and its
//! data format by interned names. Interning happens once per session on
//! the display connection; the resolved identifiers are then immutable
//! for the lifetime of the drag thread. This module fixes the set of
//! names and holds their resolved values; the caller that owns the
//! display connection resolves each name of [`atom_names`] in order and
//! builds the table with [`XDNDAtoms::new`].

use vstd::prelude::*;

use crate::MAX_FIELD_VALUE;

verus! {

/// The number of protocol names the table resolves.
pub const ATOM_NAME_COUNT: usize = 9;

/// The predefined ATOM type of the core protocol. It is the "generic
/// atom type" used as the type of the `XdndAware` window property; a
/// predefined atom is never interned.
pub const XA_ATOM: u64 = 4;

/// Resolved atoms for every protocol name the drag source uses.
#[derive(Clone, Copy, Debug)]
pub struct XDNDAtoms {
    pub xdnd_aware: u64,
    pub xdnd_enter: u64,
    pub xdnd_selection: u64,
    pub xdnd_position: u64,
    pub xdnd_action_copy: u64,
    pub xdnd_leave: u64,
    pub xdnd_status: u64,
    pub xdnd_drop: u64,
    /// The predefined ATOM type ([`XA_ATOM`]), the type of the
    /// `XdndAware` property; not resolved by name.
    pub xa_atom: u64,
    /// The supported data formats, most preferred first. A single
    /// format is offered: the URI-list text type.
    pub types: [u64; 1],
}

/// Every atom of the table fits a signed long message field.
pub open spec fn atoms_wf(a: XDNDAtoms) -> bool {
    &&& a.xdnd_aware <= MAX_FIELD_VALUE
    &&& a.xdnd_enter <= MAX_FIELD_VALUE
    &&& a.xdnd_selection <= MAX_FIELD_VALUE
    &&& a.xdnd_position <= MAX_FIELD_VALUE
    &&& a.xdnd_action_copy <= MAX_FIELD_VALUE
    &&& a.xdnd_leave <= MAX_FIELD_VALUE
    &&& a.xdnd_status <= MAX_FIELD_VALUE
    &&& a.xdnd_drop <= MAX_FIELD_VALUE
    &&& a.xa_atom <= MAX_FIELD_VALUE
    &&& a.types[0] <= MAX_FIELD_VALUE
}

impl XDNDAtoms {
    /// Builds the table from resolved values, given in the order of
    /// [`atom_names`], with the predefined [`XA_ATOM`] passed for
    /// `xa_atom`.
    pub fn new(
        xdnd_aware: u64,
        xdnd_enter: u64,
        xdnd_selection: u64,
        xdnd_position: u64,
        xdnd_action_copy: u64,
        xdnd_leave: u64,
        xdnd_status: u64,
        xdnd_drop: u64,
        xa_atom: u64,
        uri_list: u64,
    ) -> (r: Self)
        ensures
            r.xdnd_aware == xdnd_aware,
            r.xdnd_enter == xdnd_enter,
            r.xdnd_selection == xdnd_selection,
            r.xdnd_position == xdnd_position,
            r.xdnd_action_copy == xdnd_action_copy,
            r.xdnd_leave == xdnd_leave,
            r.xdnd_status == xdnd_status,
            r.xdnd_drop == xdnd_drop,
            r.xa_atom == xa_atom,
            r.types[0] == uri_list,
    {
        XDNDAtoms {
            xdnd_aware,
            xdnd_enter,
            xdnd_selection,
            xdnd_position,
            xdnd_action_copy,
            xdnd_leave,
            xdnd_status,
            xdnd_drop,
            xa_atom,
            types: [uri_list],
        }
    }
}

/// The protocol names to intern, in the argument order of
/// [`XDNDAtoms::new`].
pub fn atom_names() -> (r: Vec<&'static str>)
    ensures
        r@.len() == ATOM_NAME_COUNT,
        r@[0]@ == "XdndAware"@,
        r@[1]@ == "XdndEnter"@,
        r@[2]@ == "XdndSelection"@,
        r@[3]@ == "XdndPosition"@,
        r@[4]@ == "XdndActionCopy"@,
        r@[5]@ == "XdndLeave"@,
        r@[6]@ == "XdndStatus"@,
        r@[7]@ == "XdndDrop"@,
        r@[8]@ == "text/uri-list"@,
{
    let mut r: Vec<&'static str> = Vec::new();
    r.push("XdndAware");
    r.push("XdndEnter");
    r.push("XdndSelection");
    r.push("XdndPosition");
    r.push("XdndActionCopy");
    r.push("XdndLeave");
    r.push("XdndStatus");
    r.push("XdndDrop");
    r.push("text/uri-list");
    r
}

} // verus!

//! Drag-source library: the platform-independent core of a native
//! drag-and-drop initiator.
//!
//! The library models the drag payload, the XDND inter-client protocol
//! (atom table, wire message layout, the source-side state machine and
//! the selection responder), the window-tree hit test used to find the
//! drop target under the pointer, and the Windows OLE data-transfer
//! contract (file-list payload layout and format negotiation).
//! Everything that talks to a display server or to COM lives outside
//! this crate and drives these verified functions.

use vstd::prelude::*;

pub mod atom;
pub mod event;
pub mod ole;
pub mod utils;
pub mod xdnd;

verus! {

/// The XDND protocol version this source implements and advertises.
pub const XDND_PROTOCOL_VERSION: u32 = 5;

/// Largest window, atom or timestamp value that can be written into a
/// signed long field of a 32-bit-format client message without wrapping.
pub const MAX_FIELD_VALUE: u64 = 0x7fff_ffff_ffff_ffff;

/// A path is carried as the bytes of its operating-system form.
/// A path can be marshaled into a drag payload when it is non-empty,
/// absolute (starts with `/`) and free of NUL bytes.
pub open spec fn valid_path(p: Seq<u8>) -> bool {
    &&& p.len() >= 1
    &&& p[0] == 47u8
    &&& forall|i: int| 0 <= i < p.len() ==> p[i] != 0u8
}

/// Checks [`valid_path`] on a concrete path.
pub fn check_valid_path(p: &Vec<u8>) -> (r: bool)
    ensures
        r == valid_path(p@),
{
    if p.len() < 1 {
        return false;
    }
    if p[0] != 47u8 {
        return false;
    }
    let mut i: usize = 0;
    while i < p.len()
        invariant
            i <= p.len(),
            p@.len() >= 1,
            p@[0] == 47u8,
            forall|j: int| 0 <= j < i ==> p@[j] != 0u8,
        decreases p.len() - i,
    {
        if p[i] == 0u8 {
            return false;
        }
        i = i + 1;
    }
    true
}

/// What is being dragged: an ordered list of absolute file paths.
pub enum DragItem {
    Files(Vec<Vec<u8>>),
}

/// Cursor hint supplied by the host for the drag gesture: either raw
/// image bytes or the path of an image file. The X11 engine does not
/// consume it; backends that can render a custom drag cursor may.
pub enum Image {
    Raw(Vec<u8>),
    File(Vec<u8>),
}

} // verus!

//! The Windows OLE data-transfer contract.
//!
//! The drag payload crosses to the shell as one memory block: a
//! fixed 20-byte file-list header (the offset of the path list and a
//! wide-character flag) followed by the paths encoded as UTF-16 code
//! units, each path terminated by a NUL unit and the whole list by a
//! second NUL. This module builds and parses that block, decides the
//! single format the data object negotiates (file-drop list, global
//! memory, content aspect), and takes the drop-source's
//! continue/cancel/complete decisions. The caller owns the actual
//! memory handle and the blocking system drag loop.

use vstd::arithmetic::div_mod::lemma_fundamental_div_mod;
use vstd::prelude::*;

verus! {

/// The clipboard format of a file-drop list.
pub const CF_HDROP: u16 = 15;

/// The transfer medium: a global memory handle.
pub const TYMED_HGLOBAL: u32 = 1;

/// The content aspect of a data-transfer query.
pub const DVASPECT_CONTENT: u32 = 1;

/// The primary-mouse-button bit of a key-state word.
pub const MK_LBUTTON: u32 = 1;

/// Success.
pub const S_OK: u32 = 0;

/// The drag gesture completed: the button was released.
pub const DRAGDROP_S_DROP: u32 = 0x0004_0100;

/// The drag gesture was cancelled by the escape key.
pub const DRAGDROP_S_CANCEL: u32 = 0x0004_0101;

/// Keep the default drag cursors.
pub const DRAGDROP_S_USEDEFAULTCURSORS: u32 = 0x0004_0102;

/// The canonical "wrong format" result.
pub const DV_E_FORMATETC: u32 = 0x8004_0064;

/// An optional operation that is never attempted.
pub const E_NOTIMPL: u32 = 0x8000_4001;

/// Advisory notifications are not supported.
pub const OLE_E_ADVISENOTSUPPORTED: u32 = 0x8004_0003;

/// The fixed size of the file-list header: a 4-byte offset, an 8-byte
/// drop point, a 4-byte non-client flag and a 4-byte wide flag.
pub const DROPFILES_HEADER_SIZE: usize = 20;

/// A path encoded as UTF-16 units can be marshaled when it is
/// non-empty and free of NUL units.
pub open spec fn valid_wide_path(p: Seq<u16>) -> bool {
    &&& p.len() >= 1
    &&& forall|i: int| 0 <= i < p.len() ==> p[i] != 0u16
}

/// The paths concatenated, each followed by one NUL unit.
pub open spec fn spec_file_list_cat(paths: Seq<Seq<u16>>) -> Seq<u16>
    decreases paths.len(),
{
    if paths.len() == 0 {
        Seq::empty()
    } else {
        paths.first() + seq![0u16] + spec_file_list_cat(paths.drop_first())
    }
}

/// The whole path-list section: NUL-separated paths closed by the
/// second NUL of the double terminator.
pub open spec fn spec_file_list(paths: Seq<Seq<u16>>) -> Seq<u16> {
    spec_file_list_cat(paths).push(0u16)
}

/// The index of the first NUL unit, or the length if there is none.
pub open spec fn first_zero(buf: Seq<u16>) -> int
    decreases buf.len(),
{
    if buf.len() == 0 {
        0
    } else if buf.first() == 0u16 {
        0
    } else {
        1 + first_zero(buf.drop_first())
    }
}

/// Splits a path-list section back into its paths: units up to each
/// NUL form a path, and a NUL where a path would start closes the
/// list, which must end exactly there.
pub open spec fn spec_decode_file_list(buf: Seq<u16>) -> Option<Seq<Seq<u16>>>
    decreases buf.len(),
{
    if buf.len() == 0 {
        None
    } else if buf.first() == 0u16 {
        if buf.len() == 1 {
            Some(Seq::empty())
        } else {
            None
        }
    } else {
        let k = first_zero(buf);
        if !(0 < k < buf.len()) {
            None
        } else {
            match spec_decode_file_list(buf.subrange(k + 1, buf.len() as int)) {
                None => None,
                Some(rest) => Some(seq![buf.subrange(0, k)] + rest),
            }
        }
    }
}

/// `first_zero` finds exactly the position of the first NUL.
pub proof fn lemma_first_zero_at(buf: Seq<u16>, k: int)
    requires
        0 <= k <= buf.len(),
        forall|m: int| 0 <= m < k ==> buf[m] != 0u16,
        k < buf.len() ==> buf[k] == 0u16,
    ensures
        first_zero(buf) == k,
    decreases k,
{
    if k == 0 {
    } else {
        assert(buf.first() == buf[0]);
        assert(buf[0] != 0u16);
        let d = buf.drop_first();
        assert(forall|m: int| 0 <= m < k - 1 ==> d[m] == buf[m + 1] && buf[m + 1] != 0u16);
        assert(k - 1 < d.len() ==> d[k - 1] == buf[k]);
        lemma_first_zero_at(d, k - 1);
    }
}

/// Appending a path extends the list section by that path and a NUL.
pub proof fn lemma_file_list_cat_snoc(paths: Seq<Seq<u16>>, p: Seq<u16>)
    ensures
        spec_file_list_cat(paths.push(p)) == spec_file_list_cat(paths) + p + seq![0u16],
    decreases paths.len(),
{
    if paths.len() == 0 {
        assert(paths.push(p).first() == p);
        assert(paths.push(p).drop_first() =~= Seq::<Seq<u16>>::empty());
        assert(paths.push(p).drop_first() == Seq::<Seq<u16>>::empty());
        assert(spec_file_list_cat(Seq::<Seq<u16>>::empty()) == Seq::<u16>::empty());
        assert(spec_file_list_cat(paths.push(p)) =~= spec_file_list_cat(paths) + p + seq![0u16]);
    } else {
        assert(paths.push(p).first() == paths.first());
        assert(paths.push(p).drop_first() =~= paths.drop_first().push(p));
        assert(paths.push(p).drop_first() == paths.drop_first().push(p));
        lemma_file_list_cat_snoc(paths.drop_first(), p);
        assert(spec_file_list_cat(paths.push(p)) == paths.first() + seq![0u16]
            + (spec_file_list_cat(paths.drop_first()) + p + seq![0u16]));
        assert(paths.first() + seq![0u16] + (spec_file_list_cat(paths.drop_first()) + p
            + seq![0u16]) =~= spec_file_list_cat(paths) + p + seq![0u16]);
    }
}

/// The first NUL of a clean path followed by a NUL and anything else
/// sits right after the path.
pub proof fn lemma_first_zero_of_prefixed(p: Seq<u16>, rest: Seq<u16>)
    requires
        forall|i: int| 0 <= i < p.len() ==> p[i] != 0u16,
    ensures
        first_zero(p + seq![0u16] + rest) == p.len(),
{
    let buf = p + seq![0u16] + rest;
    assert(forall|m: int| 0 <= m < p.len() ==> buf[m] == p[m]);
    assert(buf[p.len() as int] == 0u16);
    lemma_first_zero_at(buf, p.len() as int);
}

/// Law: decoding an encoded path list yields the original paths.
/// Holds for every non-empty ordered list of marshalable paths (and
/// for the empty list as well).
pub proof fn lemma_file_list_round_trip(paths: Seq<Seq<u16>>)
    requires
        forall|i: int| 0 <= i < paths.len() ==> valid_wide_path(#[trigger] paths[i]),
    ensures
        spec_decode_file_list(spec_file_list(paths)) == Some(paths),
    decreases paths.len(),
{
    let buf = spec_file_list(paths);
    if paths.len() == 0 {
        assert(spec_file_list_cat(paths) == Seq::<u16>::empty());
        assert(buf =~= seq![0u16]);
        assert(buf == seq![0u16]);
        assert(spec_decode_file_list(buf) == Some(Seq::<Seq<u16>>::empty()));
        assert(Seq::<Seq<u16>>::empty() =~= paths);
    } else {
        let p0 = paths.first();
        let rest = paths.drop_first();
        let tail = spec_file_list(rest);
        assert(valid_wide_path(paths[0]));
        assert(p0 == paths[0]);
        assert(buf =~= p0 + seq![0u16] + tail);
        assert(buf == p0 + seq![0u16] + tail);
        lemma_first_zero_of_prefixed(p0, tail);
        let k = first_zero(buf);
        assert(k == p0.len());
        assert(buf.first() == p0[0]);
        assert(buf.first() != 0u16);
        assert(tail.len() >= 1);
        assert(buf.len() == p0.len() + 1 + tail.len());
        assert(0 < k < buf.len());
        assert(buf.subrange(0, k) =~= p0);
        assert(buf.subrange(k + 1, buf.len() as int) =~= tail);
        assert(forall|i: int| 0 <= i < rest.len()
            ==> valid_wide_path(#[trigger] rest[i]) == valid_wide_path(paths[i + 1]));
        lemma_file_list_round_trip(rest);
        assert(spec_decode_file_list(buf) == Some(seq![p0] + rest));
        assert(seq![p0] + rest =~= paths);
    }
}

/// Encodes the paths as the NUL-separated, double-NUL-terminated
/// UTF-16 list.
pub fn encode_file_list(paths: &Vec<Vec<u16>>) -> (r: Vec<u16>)
    ensures
        r@ == spec_file_list(paths.deep_view()),
{
    let ghost all = paths.deep_view();
    let mut out: Vec<u16> = Vec::new();
    let mut i: usize = 0;
    while i < paths.len()
        invariant
            i <= paths.len(),
            all == paths.deep_view(),
            out@ == spec_file_list_cat(all.take(i as int)),
        decreases paths.len() - i,
    {
        let p = &paths[i];
        let mut j: usize = 0;
        while j < p.len()
            invariant
                j <= p.len(),
                i < paths.len(),
                all == paths.deep_view(),
                p@ == paths@[i as int]@,
                out@ == spec_file_list_cat(all.take(i as int)) + p@.subrange(0, j as int),
            decreases p.len() - j,
        {
            out.push(p[j]);
            assert(out@ =~= spec_file_list_cat(all.take(i as int))
                + p@.subrange(0, j + 1 as int));
            j = j + 1;
        }
        out.push(0u16);
        proof {
            assert(p@.subrange(0, p@.len() as int) =~= p@);
            assert(all[i as int] == p@);
            lemma_file_list_cat_snoc(all.take(i as int), all[i as int]);
            assert(all.take(i as int).push(all[i as int]) =~= all.take(i + 1 as int));
            assert(out@ =~= spec_file_list_cat(all.take(i + 1 as int)));
        }
        i = i + 1;
    }
    proof {
        assert(all.take(paths@.len() as int) =~= all);
    }
    out.push(0u16);
    out
}

/// Glues already-decoded paths onto the decoding of the remaining
/// units.
pub open spec fn glue_decoded(acc: Seq<Seq<u16>>, tail: Option<Seq<Seq<u16>>>)
    -> Option<Seq<Seq<u16>>> {
    match tail {
        None => None,
        Some(t) => Some(acc + t),
    }
}

/// Decodes a NUL-separated, double-NUL-terminated UTF-16 list back
/// into its paths; `None` on any malformed buffer.
pub fn decode_file_list(buffer: &Vec<u16>) -> (r: Option<Vec<Vec<u16>>>)
    ensures
        match r {
            Some(ps) => spec_decode_file_list(buffer@) == Some(ps.deep_view()),
            None => spec_decode_file_list(buffer@) is None,
        },
{
    let ghost whole = buffer@;
    let mut acc: Vec<Vec<u16>> = Vec::new();
    let mut i: usize = 0;
    proof {
        assert(whole.subrange(0, whole.len() as int) =~= whole);
        assert(acc.deep_view() =~= Seq::<Seq<u16>>::empty());
    }
    loop
        invariant
            i <= buffer.len(),
            whole == buffer@,
            spec_decode_file_list(whole) == glue_decoded(
                acc.deep_view(),
                spec_decode_file_list(whole.subrange(i as int, whole.len() as int)),
            ),
        decreases buffer.len() - i,
    {
        if i >= buffer.len() {
            proof {
                assert(whole.subrange(i as int, whole.len() as int).len() == 0);
            }
            return None;
        }
        if buffer[i] == 0u16 {
            if i + 1 == buffer.len() {
                proof {
                    assert(whole.subrange(i as int, whole.len() as int) =~= seq![0u16]);
                    assert(spec_decode_file_list(seq![0u16]) == Some(Seq::<Seq<u16>>::empty()));
                    assert(acc.deep_view() + Seq::<Seq<u16>>::empty() =~= acc.deep_view());
                }
                return Some(acc);
            } else {
                proof {
                    let tail = whole.subrange(i as int, whole.len() as int);
                    assert(tail.first() == 0u16);
                    assert(tail.len() > 1);
                }
                return None;
            }
        }
        let start = i;
        let mut path: Vec<u16> = Vec::new();
        while i < buffer.len() && buffer[i] != 0u16
            invariant
                start <= i <= buffer.len(),
                whole == buffer@,
                start < whole.len(),
                whole[start as int] != 0u16,
                path@ == whole.subrange(start as int, i as int),
                forall|m: int| start <= m < i ==> whole[m] != 0u16,
                spec_decode_file_list(whole) == glue_decoded(
                    acc.deep_view(),
                    spec_decode_file_list(whole.subrange(start as int, whole.len() as int)),
                ),
            decreases buffer.len() - i,
        {
            path.push(buffer[i]);
            assert(path@ =~= whole.subrange(start as int, i + 1 as int));
            i = i + 1;
        }
        let ghost tail = whole.subrange(start as int, whole.len() as int);
        proof {
            assert(forall|m: int| 0 <= m < i - start ==> tail[m] == whole[m + start]
                && whole[m + start] != 0u16);
        }
        if i >= buffer.len() {
            proof {
                lemma_first_zero_at(tail, tail.len() as int);
                assert(tail.first() != 0u16);
                assert(spec_decode_file_list(tail) is None);
            }
            return None;
        }
        proof {
            assert(whole[i as int] == 0u16);
            assert(tail[i - start] == 0u16);
            lemma_first_zero_at(tail, i - start);
            assert(tail.first() != 0u16);
            assert(0 < i - start < tail.len());
            assert(tail.subrange(0, i - start) =~= whole.subrange(start as int, i as int));
            assert(tail.subrange(i - start + 1, tail.len() as int) =~= whole.subrange(
                i + 1 as int,
                whole.len() as int,
            ));
        }
        let ghost acc_before = acc.deep_view();
        let ghost pview = path@;
        acc.push(path);
        proof {
            assert(acc@.last().deep_view() =~= pview);
            assert(acc@.last().deep_view() == pview);
            assert(acc.deep_view() =~= acc_before.push(pview));
            let inner = spec_decode_file_list(whole.subrange(i + 1 as int, whole.len() as int));
            match inner {
                None => {
                    assert(spec_decode_file_list(tail) is None);
                },
                Some(rest) => {
                    assert(spec_decode_file_list(tail) == Some(seq![pview] + rest));
                    assert(acc_before + (seq![pview] + rest) =~= acc_before.push(pview) + rest);
                },
            }
        }
        i = i + 1;
    }
}


/// The fixed header bytes: the path-list offset (the header size,
/// little endian), the unused drop point and non-client flag cleared,
/// and the wide-character flag set.
pub open spec fn spec_dropfiles_header() -> Seq<u8> {
    seq![
        20u8, 0u8, 0u8, 0u8,
        0u8, 0u8, 0u8, 0u8,
        0u8, 0u8, 0u8, 0u8,
        0u8, 0u8, 0u8, 0u8,
        1u8, 0u8, 0u8, 0u8,
    ]
}

/// UTF-16 units as little-endian byte pairs.
pub open spec fn spec_le_bytes(units: Seq<u16>) -> Seq<u8>
    decreases units.len(),
{
    if units.len() == 0 {
        Seq::empty()
    } else {
        seq![(units.first() % 256) as u8, (units.first() / 256) as u8]
            + spec_le_bytes(units.drop_first())
    }
}

/// The whole memory block: header, then the encoded path list.
pub open spec fn spec_dropfiles(paths: Seq<Seq<u16>>) -> Seq<u8> {
    spec_dropfiles_header() + spec_le_bytes(spec_file_list(paths))
}

/// Two bytes per unit.
pub proof fn lemma_le_bytes_len(units: Seq<u16>)
    ensures
        spec_le_bytes(units).len() == 2 * units.len(),
    decreases units.len(),
{
    if units.len() > 0 {
        lemma_le_bytes_len(units.drop_first());
    }
}

/// Appending a unit appends its two bytes.
pub proof fn lemma_le_bytes_snoc(units: Seq<u16>, u: u16)
    ensures
        spec_le_bytes(units.push(u)) == spec_le_bytes(units) + seq![
            (u % 256) as u8,
            (u / 256) as u8,
        ],
    decreases units.len(),
{
    if units.len() == 0 {
        assert(units.push(u).first() == u);
        assert(units.push(u).drop_first() =~= Seq::<u16>::empty());
        assert(units.push(u).drop_first() == Seq::<u16>::empty());
        assert(spec_le_bytes(Seq::<u16>::empty()) == Seq::<u8>::empty());
        assert(spec_le_bytes(units) == Seq::<u8>::empty());
        assert(spec_le_bytes(units.push(u)) == seq![(u % 256) as u8, (u / 256) as u8]
            + Seq::<u8>::empty());
        assert(seq![(u % 256) as u8, (u / 256) as u8] + Seq::<u8>::empty() =~= spec_le_bytes(
            units,
        ) + seq![(u % 256) as u8, (u / 256) as u8]);
    } else {
        assert(units.push(u).first() == units.first());
        assert(units.push(u).drop_first() =~= units.drop_first().push(u));
        assert(units.push(u).drop_first() == units.drop_first().push(u));
        lemma_le_bytes_snoc(units.drop_first(), u);
        let head = seq![(units.first() % 256) as u8, (units.first() / 256) as u8];
        let pair = seq![(u % 256) as u8, (u / 256) as u8];
        assert(spec_le_bytes(units.push(u)) == head + (spec_le_bytes(units.drop_first())
            + pair));
        assert(head + (spec_le_bytes(units.drop_first()) + pair) =~= (head + spec_le_bytes(
            units.drop_first(),
        )) + pair);
        assert(spec_le_bytes(units) == head + spec_le_bytes(units.drop_first()));
    }
}

/// Rereading the byte pairs restores the units.
pub proof fn lemma_units_of_le_bytes(units: Seq<u16>)
    ensures
        spec_units_of(spec_le_bytes(units)) == units,
    decreases units.len(),
{
    if units.len() == 0 {
        assert(spec_units_of(spec_le_bytes(units)) =~= units);
    } else {
        let u = units.first();
        let bs = spec_le_bytes(units);
        lemma_le_bytes_len(units.drop_first());
        assert(bs.len() == 2 + spec_le_bytes(units.drop_first()).len());
        assert(bs[0] == (u % 256) as u8);
        assert(bs[1] == (u / 256) as u8);
        assert(bs.subrange(2, bs.len() as int) =~= spec_le_bytes(units.drop_first()));
        lemma_units_of_le_bytes(units.drop_first());
        lemma_fundamental_div_mod(u as int, 256);
        assert(((bs[0] as int) + 256 * (bs[1] as int)) as u16 == u);
        assert(spec_units_of(bs) =~= units);
    }
}

/// Bytes reassembled into UTF-16 units, two at a time; a trailing odd
/// byte is dropped.
pub open spec fn spec_units_of(bytes: Seq<u8>) -> Seq<u16>
    decreases bytes.len(),
{
    if bytes.len() < 2 {
        Seq::empty()
    } else {
        seq![((bytes[0] as int) + 256 * (bytes[1] as int)) as u16]
            + spec_units_of(bytes.subrange(2, bytes.len() as int))
    }
}

/// Appending a byte pair appends its unit, provided the bytes pair up
/// evenly.
pub proof fn lemma_units_of_snoc(bytes: Seq<u8>, lo: u8, hi: u8)
    requires
        bytes.len() % 2 == 0,
    ensures
        spec_units_of(bytes + seq![lo, hi]) == spec_units_of(bytes).push(
            ((lo as int) + 256 * (hi as int)) as u16,
        ),
    decreases bytes.len(),
{
    let ext = bytes + seq![lo, hi];
    if bytes.len() == 0 {
        assert(ext[0] == lo);
        assert(ext[1] == hi);
        assert(ext.subrange(2, ext.len() as int) =~= Seq::<u8>::empty());
        assert(ext.subrange(2, ext.len() as int) == Seq::<u8>::empty());
        assert(spec_units_of(Seq::<u8>::empty()) == Seq::<u16>::empty());
        assert(spec_units_of(bytes) == Seq::<u16>::empty());
        assert(spec_units_of(ext) == seq![((lo as int) + 256 * (hi as int)) as u16]
            + Seq::<u16>::empty());
        assert(seq![((lo as int) + 256 * (hi as int)) as u16] + Seq::<u16>::empty()
            =~= spec_units_of(bytes).push(((lo as int) + 256 * (hi as int)) as u16));
    } else {
        assert(ext[0] == bytes[0]);
        assert(ext[1] == bytes[1]);
        assert(ext.subrange(2, ext.len() as int) =~= bytes.subrange(2, bytes.len() as int)
            + seq![lo, hi]);
        assert(ext.subrange(2, ext.len() as int) == bytes.subrange(2, bytes.len() as int)
            + seq![lo, hi]);
        lemma_units_of_snoc(bytes.subrange(2, bytes.len() as int), lo, hi);
        let u = ((lo as int) + 256 * (hi as int)) as u16;
        let head = seq![((bytes[0] as int) + 256 * (bytes[1] as int)) as u16];
        assert(spec_units_of(ext) == head + spec_units_of(
            bytes.subrange(2, bytes.len() as int),
        ).push(u));
        assert(head + spec_units_of(bytes.subrange(2, bytes.len() as int)).push(u) =~= (head
            + spec_units_of(bytes.subrange(2, bytes.len() as int))).push(u));
        assert(spec_units_of(bytes) == head + spec_units_of(
            bytes.subrange(2, bytes.len() as int),
        ));
    }
}

/// Reads a file-list memory block: checks the header's offset field
/// against the fixed header size and the wide flag, then decodes the
/// path list.
pub open spec fn spec_parse_dropfiles(bytes: Seq<u8>) -> Option<Seq<Seq<u16>>> {
    if bytes.len() < 20 {
        None
    } else if !(bytes[0] == 20u8 && bytes[1] == 0u8 && bytes[2] == 0u8 && bytes[3] == 0u8) {
        None
    } else if bytes[16] != 1u8 {
        None
    } else if (bytes.len() - 20) % 2 != 0 {
        None
    } else {
        spec_decode_file_list(spec_units_of(bytes.subrange(20, bytes.len() as int)))
    }
}

/// Law: a built memory block parses back to the identical ordered
/// path list, and its data-offset field always equals the fixed
/// header size.
pub proof fn lemma_dropfiles_round_trip(paths: Seq<Seq<u16>>)
    requires
        paths.len() >= 1,
        forall|i: int| 0 <= i < paths.len() ==> valid_wide_path(#[trigger] paths[i]),
    ensures
        spec_parse_dropfiles(spec_dropfiles(paths)) == Some(paths),
        spec_dropfiles(paths)[0] == DROPFILES_HEADER_SIZE as u8,
{
    let units = spec_file_list(paths);
    let bytes = spec_dropfiles(paths);
    lemma_le_bytes_len(units);
    assert(bytes.len() == 20 + 2 * units.len());
    assert(bytes[0] == 20u8);
    assert(bytes[1] == 0u8);
    assert(bytes[2] == 0u8);
    assert(bytes[3] == 0u8);
    assert(bytes[16] == 1u8);
    assert(bytes.subrange(20, bytes.len() as int) =~= spec_le_bytes(units));
    lemma_units_of_le_bytes(units);
    lemma_file_list_round_trip(paths);
}

/// Builds the file-list memory block for the paths: the fixed header
/// followed by the UTF-16 path list, ready to be copied into one
/// global allocation.
pub fn dropfiles_buffer(paths: &Vec<Vec<u16>>) -> (r: Vec<u8>)
    ensures
        r@ == spec_dropfiles(paths.deep_view()),
        r@.len() >= 20,
        r@[0] == DROPFILES_HEADER_SIZE as u8,
        r@[1] == 0u8,
        r@[2] == 0u8,
        r@[3] == 0u8,
        r@[16] == 1u8,
{
    let units = encode_file_list(paths);
    let mut out: Vec<u8> = Vec::new();
    out.push(20u8);
    out.push(0u8);
    out.push(0u8);
    out.push(0u8);
    let mut z: usize = 0;
    while z < 12
        invariant
            z <= 12,
            out@.len() == 4 + z,
            out@[0] == 20u8,
            out@[1] == 0u8,
            out@[2] == 0u8,
            out@[3] == 0u8,
            forall|m: int| 4 <= m < out@.len() ==> out@[m] == 0u8,
        decreases 12 - z,
    {
        out.push(0u8);
        z = z + 1;
    }
    out.push(1u8);
    out.push(0u8);
    out.push(0u8);
    out.push(0u8);
    proof {
        assert(out@ =~= spec_dropfiles_header());
    }
    let mut k: usize = 0;
    proof {
        assert(units@.take(0) =~= Seq::<u16>::empty());
    }
    while k < units.len()
        invariant
            k <= units.len(),
            units@ == spec_file_list(paths.deep_view()),
            out@ == spec_dropfiles_header() + spec_le_bytes(units@.take(k as int)),
        decreases units.len() - k,
    {
        let u = units[k];
        out.push((u % 256) as u8);
        out.push((u / 256) as u8);
        proof {
            lemma_le_bytes_snoc(units@.take(k as int), units@[k as int]);
            assert(units@.take(k as int).push(units@[k as int]) =~= units@.take(k + 1 as int));
            assert(out@ =~= spec_dropfiles_header() + spec_le_bytes(units@.take(k + 1 as int)));
        }
        k = k + 1;
    }
    proof {
        assert(units@.take(units@.len() as int) =~= units@);
    }
    out
}

/// Parses a file-list memory block back into its UTF-16 paths;
/// `None` when the header or the list is malformed.
pub fn parse_dropfiles(bytes: &Vec<u8>) -> (r: Option<Vec<Vec<u16>>>)
    ensures
        match r {
            Some(ps) => spec_parse_dropfiles(bytes@) == Some(ps.deep_view()),
            None => spec_parse_dropfiles(bytes@) is None,
        },
{
    if bytes.len() < 20 {
        return None;
    }
    if !(bytes[0] == 20u8 && bytes[1] == 0u8 && bytes[2] == 0u8 && bytes[3] == 0u8) {
        return None;
    }
    if bytes[16] != 1u8 {
        return None;
    }
    if (bytes.len() - 20) % 2 != 0 {
        return None;
    }
    let ghost whole = bytes@;
    let mut units: Vec<u16> = Vec::new();
    let mut k: usize = 20;
    proof {
        assert(whole.subrange(20, 20) =~= Seq::<u8>::empty());
        assert(spec_units_of(whole.subrange(20, 20)) =~= Seq::<u16>::empty());
    }
    while k < bytes.len()
        invariant
            20 <= k <= bytes.len(),
            (k - 20) % 2 == 0,
            (bytes@.len() - 20) % 2 == 0,
            whole == bytes@,
            units@ == spec_units_of(whole.subrange(20, k as int)),
        decreases bytes.len() - k,
    {
        let lo = bytes[k];
        let hi = bytes[k + 1];
        units.push((lo as u16) + 256u16 * (hi as u16));
        proof {
            assert(whole.subrange(20, k as int).len() % 2 == 0);
            lemma_units_of_snoc(whole.subrange(20, k as int), whole[k as int], whole[k + 1]);
            assert(whole.subrange(20, k as int) + seq![whole[k as int], whole[k + 1]]
                =~= whole.subrange(20, k + 2 as int));
            assert(units@ =~= spec_units_of(whole.subrange(20, k + 2 as int)));
        }
        k = k + 2;
    }
    proof {
        assert(whole.subrange(20, whole.len() as int) =~= whole.subrange(20, k as int));
    }
    decode_file_list(&units)
}

/// One data-transfer format query: the clipboard format, the content
/// aspect and the transfer medium asked for.
#[derive(Clone, Copy, Debug, PartialEq, Eq, Structural)]
pub struct FormatQuery {
    pub cf_format: u16,
    pub aspect: u32,
    pub tymed: u32,
}

/// The single format the data object negotiates: a file-drop list in
/// global memory, content aspect.
pub open spec fn supported_format(q: FormatQuery) -> bool {
    &&& q.tymed == TYMED_HGLOBAL
    &&& q.cf_format == CF_HDROP
    &&& q.aspect == DVASPECT_CONTENT
}

/// Failures of the data-transfer object.
#[derive(Clone, Copy, Debug, PartialEq, Eq, Structural)]
pub enum DataTransferError {
    /// Any query outside the single negotiated format.
    WrongFormat,
    /// An optional operation that is never attempted.
    NotImplemented,
    /// Advisory notifications are not supported.
    AdviseNotSupported,
}

impl DataTransferError {
    /// The canonical result code of the failure.
    pub fn hresult(&self) -> (r: u32)
        ensures
            r == match *self {
                DataTransferError::WrongFormat => DV_E_FORMATETC,
                DataTransferError::NotImplemented => E_NOTIMPL,
                DataTransferError::AdviseNotSupported => OLE_E_ADVISENOTSUPPORTED,
            },
    {
        match *self {
            DataTransferError::WrongFormat => DV_E_FORMATETC,
            DataTransferError::NotImplemented => E_NOTIMPL,
            DataTransferError::AdviseNotSupported => OLE_E_ADVISENOTSUPPORTED,
        }
    }
}

/// A granted transfer: the medium and the memory handle, which the
/// target borrows for the duration of the drag call.
#[derive(Clone, Copy, Debug, PartialEq, Eq, Structural)]
pub struct StgMedium {
    pub tymed: u32,
    pub hglobal: u64,
}

/// The data-transfer object: it owns exactly one global memory block,
/// identified here by its handle value, and serves it in exactly one
/// format.
#[derive(Clone, Copy, Debug, PartialEq, Eq, Structural)]
pub struct DataObject {
    pub handle: u64,
}

impl DataObject {
    /// Wraps a memory handle.
    pub fn new(handle: u64) -> (r: Self)
        ensures
            r.handle == handle,
    {
        DataObject { handle }
    }

    /// A query is supported exactly when it asks for the (global
    /// memory, file-drop list, content aspect) triple; a missing
    /// query is not.
    pub fn is_supported_format(q: Option<&FormatQuery>) -> (r: bool)
        ensures
            r == match q {
                Some(f) => supported_format(*f),
                None => false,
            },
    {
        match q {
            Some(f) => {
                if f.tymed != TYMED_HGLOBAL {
                    false
                } else if f.cf_format != CF_HDROP {
                    false
                } else if f.aspect != DVASPECT_CONTENT {
                    false
                } else {
                    true
                }
            },
            None => false,
        }
    }

    /// Hands out the stored memory handle for the exact negotiated
    /// format, and the wrong-format result for every other query.
    pub fn get_data(&self, q: Option<&FormatQuery>) -> (r: Result<StgMedium, DataTransferError>)
        ensures
            r == if (q matches Some(f) && supported_format(*f)) {
                Ok::<StgMedium, DataTransferError>(StgMedium {
                    tymed: TYMED_HGLOBAL,
                    hglobal: self.handle,
                })
            } else {
                Err::<StgMedium, DataTransferError>(DataTransferError::WrongFormat)
            },
    {
        if Self::is_supported_format(q) {
            Ok(StgMedium { tymed: TYMED_HGLOBAL, hglobal: self.handle })
        } else {
            Err(DataTransferError::WrongFormat)
        }
    }

    /// Transfers into caller-provided storage are never served.
    pub fn get_data_here(&self, q: Option<&FormatQuery>) -> (r: Result<(), DataTransferError>)
        ensures
            r == Err::<(), DataTransferError>(DataTransferError::WrongFormat),
    {
        Err(DataTransferError::WrongFormat)
    }

    /// Answers whether a query would succeed: success for the exact
    /// negotiated format, the wrong-format result otherwise.
    pub fn query_get_data(&self, q: Option<&FormatQuery>) -> (r: u32)
        ensures
            r == if (q matches Some(f) && supported_format(*f)) {
                S_OK
            } else {
                DV_E_FORMATETC
            },
    {
        if Self::is_supported_format(q) {
            S_OK
        } else {
            DV_E_FORMATETC
        }
    }

    /// Canonical-format negotiation is never attempted.
    pub fn get_canonical_format_etc(&self) -> (r: u32)
        ensures
            r == E_NOTIMPL,
    {
        E_NOTIMPL
    }

    /// Replacing the payload is never attempted.
    pub fn set_data(&self) -> (r: Result<(), DataTransferError>)
        ensures
            r == Err::<(), DataTransferError>(DataTransferError::NotImplemented),
    {
        Err(DataTransferError::NotImplemented)
    }

    /// Format enumeration is never attempted.
    pub fn enum_format_etc(&self) -> (r: Result<(), DataTransferError>)
        ensures
            r == Err::<(), DataTransferError>(DataTransferError::NotImplemented),
    {
        Err(DataTransferError::NotImplemented)
    }

    /// Advisory registration is not supported.
    pub fn d_advise(&self) -> (r: Result<u32, DataTransferError>)
        ensures
            r == Err::<u32, DataTransferError>(DataTransferError::AdviseNotSupported),
    {
        Err(DataTransferError::AdviseNotSupported)
    }

    /// Advisory deregistration is not supported.
    pub fn d_unadvise(&self) -> (r: Result<(), DataTransferError>)
        ensures
            r == Err::<(), DataTransferError>(DataTransferError::AdviseNotSupported),
    {
        Err(DataTransferError::AdviseNotSupported)
    }

    /// Advisory enumeration is not supported.
    pub fn enum_d_advise(&self) -> (r: Result<(), DataTransferError>)
        ensures
            r == Err::<(), DataTransferError>(DataTransferError::AdviseNotSupported),
    {
        Err(DataTransferError::AdviseNotSupported)
    }
}

/// What the drag loop should do after a continue query.
#[derive(Clone, Copy, Debug, PartialEq, Eq, Structural)]
pub enum DragUpdate {
    /// The escape key was pressed: cancel the gesture.
    Cancel,
    /// The primary button was released: complete the drop.
    Complete,
    /// Keep dragging.
    Proceed,
}

impl DragUpdate {
    /// The result code the system drag loop expects.
    pub fn hresult(&self) -> (r: u32)
        ensures
            r == match *self {
                DragUpdate::Cancel => DRAGDROP_S_CANCEL,
                DragUpdate::Complete => DRAGDROP_S_DROP,
                DragUpdate::Proceed => S_OK,
            },
    {
        match *self {
            DragUpdate::Cancel => DRAGDROP_S_CANCEL,
            DragUpdate::Complete => DRAGDROP_S_DROP,
            DragUpdate::Proceed => S_OK,
        }
    }
}

/// The drop-source callback: decides, on every continue query of the
/// system drag loop, whether the gesture goes on.
#[derive(Clone, Copy, Debug, PartialEq, Eq, Structural)]
pub struct DropSource {
}

impl DropSource {
    /// A fresh drop source.
    pub fn new() -> (r: Self)
        ensures
            r == (DropSource {  }),
    {
        DropSource {  }
    }

    /// Escape cancels; a released primary button completes the drop;
    /// anything else continues with default cursor feedback.
    pub fn query_continue_drag(&self, escape_pressed: bool, key_state: u32) -> (r: DragUpdate)
        ensures
            r == if escape_pressed {
                DragUpdate::Cancel
            } else if key_state & MK_LBUTTON == 0 {
                DragUpdate::Complete
            } else {
                DragUpdate::Proceed
            },
    {
        if escape_pressed {
            DragUpdate::Cancel
        } else if key_state & MK_LBUTTON == 0 {
            DragUpdate::Complete
        } else {
            DragUpdate::Proceed
        }
    }

    /// Always keeps the default drag cursors.
    pub fn give_feedback(&self, _effect: u32) -> (r: u32)
        ensures
            r == DRAGDROP_S_USEDEFAULTCURSORS,
    {
        DRAGDROP_S_USEDEFAULTCURSORS
    }
}

} // verus!

//! Window-tree hit testing and target capability checks.
//!
//! The windowing system offers no "window under point" query across
//! client hierarchies, so the locator walks a snapshot of the window
//! tree itself: children of each candidate are scanned from topmost
//! (last in stacking order) to bottommost, the first child whose
//! screen bounding box contains the pointer is descended into with the
//! coordinates translated by its origin, and the deepest containing
//! window wins. The snapshot is rebuilt by the caller on every
//! relevant motion event, since stacking order and positions are not
//! cached anywhere.

use vstd::prelude::*;

verus! {

/// A window's bounding box, relative to its parent's origin.
#[derive(Clone, Copy, Debug, PartialEq, Eq, Structural)]
pub struct WindowRect {
    pub x: i32,
    pub y: i32,
    pub width: i32,
    pub height: i32,
}

/// One window of the snapshot: its identifier, its box, and the
/// indices of its children, bottom-to-top in stacking order.
#[derive(Debug)]
pub struct WindowNode {
    pub id: u64,
    pub rect: WindowRect,
    pub children: Vec<usize>,
}

/// A snapshot of a window tree. Nodes are stored parent before child
/// (the order a top-down enumeration produces), so every child index
/// is larger than its parent's.
#[derive(Debug)]
pub struct WindowTree {
    pub nodes: Vec<WindowNode>,
}

impl WindowTree {
    /// Every child index is in range and larger than its parent's
    /// index.
    pub open spec fn wf(self) -> bool {
        forall|i: int, j: int|
            0 <= i < self.nodes@.len() && 0 <= j < self.nodes@[i].children@.len() ==> {
                let c = (#[trigger] self.nodes@[i].children@[j]) as int;
                i < c < self.nodes@.len()
            }
    }
}

/// The point `(px, py)` lies inside `rect` placed at origin
/// `(ox, oy)`.
pub open spec fn rect_contains(rect: WindowRect, ox: int, oy: int, px: int, py: int) -> bool {
    &&& ox + rect.x <= px < ox + rect.x + rect.width
    &&& oy + rect.y <= py < oy + rect.y + rect.height
}

/// The topmost child in `children` (scanning from the top of the
/// stacking order) whose box, placed at the parent's origin, contains
/// the point.
pub open spec fn spec_topmost_hit(
    t: WindowTree,
    children: Seq<usize>,
    px: int,
    py: int,
    ox: int,
    oy: int,
) -> Option<usize>
    decreases children.len(),
{
    if children.len() == 0 {
        None
    } else {
        let c = children.last();
        if c < t.nodes@.len() && rect_contains(t.nodes@[c as int].rect, ox, oy, px, py) {
            Some(c)
        } else {
            spec_topmost_hit(t, children.drop_last(), px, py, ox, oy)
        }
    }
}

/// The deepest window containing the point, found by descending from
/// `w` through topmost containing children, translating the origin at
/// each step. A window without a containing child is its own answer.
pub open spec fn spec_locate(t: WindowTree, w: int, px: int, py: int, ox: int, oy: int) -> int
    decreases t.nodes@.len() - w,
{
    if !(0 <= w < t.nodes@.len()) {
        w
    } else {
        match spec_topmost_hit(t, t.nodes@[w].children@, px, py, ox, oy) {
            None => w,
            Some(c) => if w < c < t.nodes@.len() {
                spec_locate(
                    t,
                    c as int,
                    px,
                    py,
                    ox + t.nodes@[c as int].rect.x,
                    oy + t.nodes@[c as int].rect.y,
                )
            } else {
                w
            },
        }
    }
}

/// A hit reported by [`spec_topmost_hit`] is one of the children.
pub proof fn lemma_topmost_hit_is_child(
    t: WindowTree,
    children: Seq<usize>,
    px: int,
    py: int,
    ox: int,
    oy: int,
)
    ensures
        spec_topmost_hit(t, children, px, py, ox, oy) matches Some(c) ==> exists|j: int|
            0 <= j < children.len() && children[j] == c,
    decreases children.len(),
{
    if children.len() > 0 {
        let c = children.last();
        if c < t.nodes@.len() && rect_contains(t.nodes@[c as int].rect, ox, oy, px, py) {
            assert(children[children.len() - 1] == c);
        } else {
            lemma_topmost_hit_is_child(t, children.drop_last(), px, py, ox, oy);
            match spec_topmost_hit(t, children.drop_last(), px, py, ox, oy) {
                Some(d) => {
                    let j = choose|j: int|
                        0 <= j < children.drop_last().len() && children.drop_last()[j] == d;
                    assert(children[j] == d);
                },
                None => {},
            }
        }
    }
}

/// Checks [`rect_contains`] on concrete coordinates.
fn rect_contains_at(rect: &WindowRect, ox: i64, oy: i64, px: i64, py: i64) -> (r: bool)
    requires
        -0x4000_0000_0000_0000 < ox < 0x4000_0000_0000_0000,
        -0x4000_0000_0000_0000 < oy < 0x4000_0000_0000_0000,
    ensures
        r == rect_contains(*rect, ox as int, oy as int, px as int, py as int),
{
    px >= ox + (rect.x as i64) && px < ox + (rect.x as i64) + (rect.width as i64)
        && py >= oy + (rect.y as i64) && py < oy + (rect.y as i64) + (rect.height as i64)
}

/// Scans `node`'s children from the top of the stacking order and
/// returns the first whose box contains the point.
fn topmost_hit(tree: &WindowTree, node: usize, px: i64, py: i64, ox: i64, oy: i64)
    -> (r: Option<usize>)
    requires
        node < tree.nodes@.len(),
        -0x4000_0000_0000_0000 < ox < 0x4000_0000_0000_0000,
        -0x4000_0000_0000_0000 < oy < 0x4000_0000_0000_0000,
    ensures
        r == spec_topmost_hit(
            *tree,
            tree.nodes@[node as int].children@,
            px as int,
            py as int,
            ox as int,
            oy as int,
        ),
{
    let children = &tree.nodes[node].children;
    let ghost cs = children@;
    let mut j: usize = children.len();
    proof {
        assert(cs.take(children@.len() as int) =~= cs);
    }
    while j > 0
        invariant
            j <= cs.len(),
            cs == children@,
            children@ == tree.nodes@[node as int].children@,
            node < tree.nodes@.len(),
            -0x4000_0000_0000_0000 < ox < 0x4000_0000_0000_0000,
            -0x4000_0000_0000_0000 < oy < 0x4000_0000_0000_0000,
            spec_topmost_hit(*tree, cs, px as int, py as int, ox as int, oy as int)
                == spec_topmost_hit(
                *tree,
                cs.take(j as int),
                px as int,
                py as int,
                ox as int,
                oy as int,
            ),
        decreases j,
    {
        let c = children[j - 1];
        proof {
            assert(cs.take(j as int).last() == cs[j - 1]);
            assert(cs.take(j as int).drop_last() =~= cs.take(j - 1));
        }
        if c < tree.nodes.len() {
            let hit = rect_contains_at(&tree.nodes[c].rect, ox, oy, px, py);
            if hit {
                return Some(c);
            }
        }
        j = j - 1;
    }
    proof {
        assert(cs.take(0) =~= Seq::<usize>::empty());
    }
    None
}

/// Finds the deepest window under the absolute pointer position,
/// starting from `starting_window` whose origin is at
/// `(origin_x, origin_y)`, and returns its identifier.
pub fn get_window_pointer_is_over(
    tree: &WindowTree,
    starting_window: usize,
    p_root_x: i32,
    p_root_y: i32,
    origin_x: i64,
    origin_y: i64,
) -> (r: u64)
    requires
        tree.wf(),
        starting_window < tree.nodes@.len(),
        tree.nodes@.len() <= 0x10000,
        -0x8000_0000 <= origin_x <= 0x8000_0000,
        -0x8000_0000 <= origin_y <= 0x8000_0000,
    ensures
        ({
            let w = spec_locate(
                *tree,
                starting_window as int,
                p_root_x as int,
                p_root_y as int,
                origin_x as int,
                origin_y as int,
            );
            &&& 0 <= w < tree.nodes@.len()
            &&& r == tree.nodes@[w].id
        }),
{
    let px: i64 = p_root_x as i64;
    let py: i64 = p_root_y as i64;
    let mut w: usize = starting_window;
    let mut ox: i64 = origin_x;
    let mut oy: i64 = origin_y;
    loop
        invariant
            tree.wf(),
            w < tree.nodes@.len(),
            tree.nodes@.len() <= 0x10000,
            px == p_root_x as int,
            py == p_root_y as int,
            -0x8000_0000 - (w as int) * 0x8000_0000 <= ox
                <= 0x8000_0000 + (w as int) * 0x8000_0000,
            -0x8000_0000 - (w as int) * 0x8000_0000 <= oy
                <= 0x8000_0000 + (w as int) * 0x8000_0000,
            spec_locate(
                *tree,
                starting_window as int,
                p_root_x as int,
                p_root_y as int,
                origin_x as int,
                origin_y as int,
            ) == spec_locate(*tree, w as int, px as int, py as int, ox as int, oy as int),
        decreases tree.nodes@.len() - w,
    {
        proof {
            assert((w as int) * 0x8000_0000 <= 0x10000 * 0x8000_0000) by (nonlinear_arith)
                requires w as int <= 0x10000;
        }
        match topmost_hit(tree, w, px, py, ox, oy) {
            None => {
                return tree.nodes[w].id;
            },
            Some(c) => {
                proof {
                    lemma_topmost_hit_is_child(
                        *tree,
                        tree.nodes@[w as int].children@,
                        px as int,
                        py as int,
                        ox as int,
                        oy as int,
                    );
                    let j = choose|j: int|
                        0 <= j < tree.nodes@[w as int].children@.len()
                            && tree.nodes@[w as int].children@[j] == c;
                    assert({
                        let cc = (tree.nodes@[w as int].children@[j]) as int;
                        (w as int) < cc < tree.nodes@.len()
                    });
                    assert(((w as int) + 1) * 0x8000_0000 <= (c as int) * 0x8000_0000)
                        by (nonlinear_arith)
                        requires (w as int) + 1 <= c as int;
                }
                ox = ox + (tree.nodes[c].rect.x as i64);
                oy = oy + (tree.nodes[c].rect.y as i64);
                w = c;
            },
        }
    }
}

/// The advertised XDND version of a candidate target: the first byte
/// of its `XdndAware` property value, provided the property is
/// present, non-empty, and advertises no more than
/// `supported_version`.
pub open spec fn spec_aware_version(property: Option<Seq<u8>>, supported_version: u32)
    -> Option<u8> {
    match property {
        Some(data) => if data.len() >= 1 && (data[0] as u32) <= supported_version {
            Some(data[0])
        } else {
            None
        },
        None => None,
    }
}

/// Decides whether a candidate target advertises a usable protocol
/// version: `property` is the value of its `XdndAware` window
/// property, if the window has one. Returns the version to negotiate,
/// or `None` when the window is not a valid target.
pub fn has_correct_xdnd_aware_property(property: Option<&Vec<u8>>, supported_version: u32)
    -> (r: Option<u8>)
    ensures
        r == spec_aware_version(
            match property {
                Some(d) => Some(d@),
                None => None,
            },
            supported_version,
        ),
        r is Some <==> (property matches Some(d) && d@.len() >= 1
            && (d@[0] as u32) <= supported_version),
        r matches Some(ver) ==> (property matches Some(d) && d@[0] == ver),
{
    match property {
        Some(data) => {
            if data.len() >= 1 {
                let ver = data[0];
                if (ver as u32) <= supported_version {
                    Some(ver)
                } else {
                    None
                }
            } else {
                None
            }
        },
        None => None,
    }
}

} // verus!

//! The two-pass layout engine.
//!
//! A widget tree is measured bottom-up — every node computes its desired
//! size from its layout strategy, its constraint and its children — and then
//! arranged top-down: every node receives a slot rectangle from its parent
//! and places itself inside it according to its margin and alignment, then
//! hands slots to its children. A run of the engine is short-circuited by
//! dirty tracking: with no dirty widgets and the first run done, the tree is
//! left untouched.

use vstd::prelude::*;
use crate::fixed::{iclamp, imax, imin, sat64, sat_i128, tdiv, tdiv_i128, Fx};
use crate::geometry::{Rectangle, Size};

verus! {

/// Whether a widget takes part in layout and painting.
#[derive(Clone, Copy, PartialEq, Eq, Structural, Debug)]
pub enum Visibility {
    /// Laid out and painted.
    Visible,
    /// Laid out but not painted.
    Hidden,
    /// Neither laid out nor painted: takes no space.
    Collapsed,
}

/// How a widget places itself inside the slot its parent grants.
#[derive(Clone, Copy, PartialEq, Eq, Structural, Debug)]
pub enum Alignment {
    Start,
    Center,
    End,
    /// Fills the whole slot.
    Stretch,
}

/// Space around a widget or inside a container.
#[derive(Clone, Copy, PartialEq, Eq, Structural, Debug)]
pub struct Thickness {
    pub left: Fx,
    pub top: Fx,
    pub right: Fx,
    pub bottom: Fx,
}

/// Minimum and maximum extent a widget may take.
#[derive(Clone, Copy, PartialEq, Eq, Structural, Debug)]
pub struct Constraint {
    pub min_width: Fx,
    pub min_height: Fx,
    pub max_width: Fx,
    pub max_height: Fx,
}

/// The layout strategy of one node, fixed at construction.
#[derive(Clone, Copy, PartialEq, Eq, Structural, Debug)]
pub enum LayoutKind {
    /// A fixed desired size; children share the node's final rectangle.
    Fixed { width: Fx, height: Fx },
    /// Wraps the largest child, plus padding on every side.
    Padding { padding: Thickness },
    /// Stacks children along one axis with spacing between them.
    Stack { vertical: bool, spacing: Fx },
}

/// One widget of the retained tree.
pub struct Node {
    pub layout: LayoutKind,
    pub h_align: Alignment,
    pub v_align: Alignment,
    pub margin: Thickness,
    pub constraint: Constraint,
    pub visibility: Visibility,
    /// Cache written by the measure pass.
    pub desired: Size,
    /// Final rectangle written by the arrange pass.
    pub bounds: Rectangle,
    pub children: Vec<Node>,
}

/// Desired raw width of a node: its strategy's natural width clamped by its
/// constraint; a collapsed node wants no space at all.
pub open spec fn desired_w(node: Node) -> int
    decreases node, 0nat, 0nat,
{
    if node.visibility is Collapsed {
        0
    } else {
        let natural = match node.layout {
            LayoutKind::Fixed { width, height } => width.raw as int,
            LayoutKind::Padding { padding } => sat64(
                kids_max_w(node.children@) + padding.left.raw + padding.right.raw,
            ),
            LayoutKind::Stack { vertical, spacing } => if vertical {
                kids_max_w(node.children@)
            } else {
                kids_sum_w(node.children@, spacing.raw as int)
            },
        };
        iclamp(natural, node.constraint.min_width.raw as int, node.constraint.max_width.raw as int)
    }
}

/// Desired raw height; see `desired_w`.
pub open spec fn desired_h(node: Node) -> int
    decreases node, 0nat, 0nat,
{
    if node.visibility is Collapsed {
        0
    } else {
        let natural = match node.layout {
            LayoutKind::Fixed { width, height } => height.raw as int,
            LayoutKind::Padding { padding } => sat64(
                kids_max_h(node.children@) + padding.top.raw + padding.bottom.raw,
            ),
            LayoutKind::Stack { vertical, spacing } => if vertical {
                kids_sum_h(node.children@, spacing.raw as int)
            } else {
                kids_max_h(node.children@)
            },
        };
        iclamp(
            natural,
            node.constraint.min_height.raw as int,
            node.constraint.max_height.raw as int,
        )
    }
}

/// Width a child takes from its parent: its desired width plus its margins.
pub open spec fn child_ext_w(c: Node) -> int
    decreases c, 1nat, 0nat,
{
    imax(0, sat64(desired_w(c) + c.margin.left.raw + c.margin.right.raw))
}

/// Height a child takes from its parent; see `child_ext_w`.
pub open spec fn child_ext_h(c: Node) -> int
    decreases c, 1nat, 0nat,
{
    imax(0, sat64(desired_h(c) + c.margin.top.raw + c.margin.bottom.raw))
}

/// The widest child extent.
pub open spec fn kids_max_w(s: Seq<Node>) -> int
    decreases s, 2nat, s.len(),
{
    if s.len() == 0 {
        0
    } else {
        imax(child_ext_w(s[0]), kids_max_w(s.drop_first()))
    }
}

/// The tallest child extent.
pub open spec fn kids_max_h(s: Seq<Node>) -> int
    decreases s, 2nat, s.len(),
{
    if s.len() == 0 {
        0
    } else {
        imax(child_ext_h(s[0]), kids_max_h(s.drop_first()))
    }
}

/// Stacked width of the children with spacing between consecutive ones.
pub open spec fn kids_sum_w(s: Seq<Node>, spacing: int) -> int
    decreases s, 2nat, s.len(),
{
    if s.len() == 0 {
        0
    } else if s.len() == 1 {
        child_ext_w(s[0])
    } else {
        sat64(child_ext_w(s[0]) + spacing + kids_sum_w(s.drop_first(), spacing))
    }
}

/// Stacked height of the children with spacing between consecutive ones.
pub open spec fn kids_sum_h(s: Seq<Node>, spacing: int) -> int
    decreases s, 2nat, s.len(),
{
    if s.len() == 0 {
        0
    } else if s.len() == 1 {
        child_ext_h(s[0])
    } else {
        sat64(child_ext_h(s[0]) + spacing + kids_sum_h(s.drop_first(), spacing))
    }
}

/// Relates a tree to its measured form: the same tree with every
/// desired-size cache holding the node's desired size.
pub open spec fn is_measured(orig: Node, m: Node) -> bool
    decreases orig,
{
    &&& m.layout == orig.layout
    &&& m.h_align == orig.h_align
    &&& m.v_align == orig.v_align
    &&& m.margin == orig.margin
    &&& m.constraint == orig.constraint
    &&& m.visibility == orig.visibility
    &&& m.bounds == orig.bounds
    &&& m.desired.width.raw as int == desired_w(orig)
    &&& m.desired.height.raw as int == desired_h(orig)
    &&& m.children@.len() == orig.children@.len()
    &&& forall|i: int|
        0 <= i < orig.children@.len() ==> is_measured(
            orig.children@[i],
            #[trigger] m.children@[i],
        )
}

/// Extent a measured child takes from its parent along x, read from its
/// desired-size cache.
pub open spec fn cached_ext_w(c: Node) -> int {
    imax(0, sat64(c.desired.width.raw + c.margin.left.raw + c.margin.right.raw))
}

/// Extent a measured child takes from its parent along y.
pub open spec fn cached_ext_h(c: Node) -> int {
    imax(0, sat64(c.desired.height.raw + c.margin.top.raw + c.margin.bottom.raw))
}

/// Length granted along one axis: the whole slot when stretching, else the
/// wanted length capped by the slot, never negative.
pub open spec fn align_len(a: Alignment, slot_len: int, want: int) -> int {
    if a is Stretch {
        imax(0, slot_len)
    } else {
        imax(0, imin(want, slot_len))
    }
}

/// Position along one axis within `[slot_pos, slot_pos + slot_len]`.
pub open spec fn align_pos(a: Alignment, slot_pos: int, slot_len: int, want: int) -> int {
    let len = align_len(a, slot_len, want);
    match a {
        Alignment::Start => slot_pos,
        Alignment::Stretch => slot_pos,
        Alignment::Center => sat64(slot_pos + tdiv(imax(0, slot_len - len), 2)),
        Alignment::End => sat64(slot_pos + imax(0, slot_len - len)),
    }
}

/// A slot rectangle handed down during the arrange pass, in raw counts.
pub struct Slot {
    pub x: int,
    pub y: int,
    pub w: int,
    pub h: int,
}

/// The rectangle a node takes inside its slot: the slot is shrunk by the
/// node's margin, then the node aligns its desired size inside what is left.
pub open spec fn placed_bounds(m: Node, slot: Slot) -> Slot {
    let ix = sat64(slot.x + m.margin.left.raw);
    let iy = sat64(slot.y + m.margin.top.raw);
    let iw = imax(0, sat64(slot.w - m.margin.left.raw - m.margin.right.raw));
    let ih = imax(0, sat64(slot.h - m.margin.top.raw - m.margin.bottom.raw));
    let want_w = m.desired.width.raw as int;
    let want_h = m.desired.height.raw as int;
    Slot {
        x: align_pos(m.h_align, ix, iw, want_w),
        y: align_pos(m.v_align, iy, ih, want_h),
        w: align_len(m.h_align, iw, want_w),
        h: align_len(m.v_align, ih, want_h),
    }
}

/// The content rectangle a node offers its children: its own bounds, shrunk
/// by the padding when it pads.
pub open spec fn content_of(m: Node, b: Slot) -> Slot {
    match m.layout {
        LayoutKind::Padding { padding } => Slot {
            x: sat64(b.x + padding.left.raw),
            y: sat64(b.y + padding.top.raw),
            w: imax(0, sat64(b.w - padding.left.raw - padding.right.raw)),
            h: imax(0, sat64(b.h - padding.top.raw - padding.bottom.raw)),
        },
        _ => b,
    }
}

/// Offset of stacked child `i` along the stacking axis: the extents of the
/// children before it, a spacing after each.
pub open spec fn stack_cursor(s: Seq<Node>, i: int, spacing: int, vertical: bool) -> int
    decreases i,
{
    if i <= 0 {
        0
    } else {
        sat64(
            stack_cursor(s, i - 1, spacing, vertical) + (if vertical {
                cached_ext_h(s[i - 1])
            } else {
                cached_ext_w(s[i - 1])
            }) + spacing,
        )
    }
}

/// The slot granted to child `i` of a node whose content rectangle is known.
pub open spec fn child_slot(m: Node, content: Slot, i: int) -> Slot {
    match m.layout {
        LayoutKind::Stack { vertical, spacing } => if vertical {
            Slot {
                x: content.x,
                y: sat64(content.y + stack_cursor(m.children@, i, spacing.raw as int, true)),
                w: content.w,
                h: cached_ext_h(m.children@[i]),
            }
        } else {
            Slot {
                x: sat64(content.x + stack_cursor(m.children@, i, spacing.raw as int, false)),
                y: content.y,
                w: cached_ext_w(m.children@[i]),
                h: content.h,
            }
        },
        _ => content,
    }
}

/// Relates a measured tree and a slot to the arranged tree: bounds are the
/// placed rectangle, and every child is arranged in the slot its parent
/// grants it.
pub open spec fn is_arranged(m: Node, slot: Slot, a: Node) -> bool
    decreases m,
{
    let b = placed_bounds(m, slot);
    let content = content_of(m, b);
    &&& a.layout == m.layout
    &&& a.h_align == m.h_align
    &&& a.v_align == m.v_align
    &&& a.margin == m.margin
    &&& a.constraint == m.constraint
    &&& a.visibility == m.visibility
    &&& a.desired == m.desired
    &&& a.bounds.x.raw as int == b.x
    &&& a.bounds.y.raw as int == b.y
    &&& a.bounds.width.raw as int == b.w
    &&& a.bounds.height.raw as int == b.h
    &&& a.children@.len() == m.children@.len()
    &&& forall|i: int|
        0 <= i < m.children@.len() ==> is_arranged(
            m.children@[i],
            child_slot(m, content, i),
            #[trigger] a.children@[i],
        )
}

/// The measure pass: returns the measured form of a tree.
pub fn measure_rec(node: &Node) -> (r: Node)
    ensures
        is_measured(*node, r),
    decreases *node,
{
    let mut kids: Vec<Node> = Vec::new();
    let mut i: usize = 0;
    let n = node.children.len();
    let ghost orig_kids = node.children@;
    while i < n
        invariant
            0 <= i <= n,
            n == orig_kids.len(),
            orig_kids == node.children@,
            kids@.len() == i,
            forall|k: int| 0 <= k < i ==> is_measured(orig_kids[k], #[trigger] kids@[k]),
        decreases n - i,
    {
        proof {
            assert(decreases_to!(*node => node.children));
            assert(decreases_to!(node.children => node.children@));
            assert(decreases_to!(node.children@ => node.children@[i as int]));
        }
        let m = measure_rec(&node.children[i]);
        kids.push(m);
        i = i + 1;
    }
    // Fold the children extents from the back, matching the suffix
    // recursion of the spec functions.
    let mut max_w: i64 = 0;
    let mut max_h: i64 = 0;
    let mut sum_w: i64 = 0;
    let mut sum_h: i64 = 0;
    let spacing_raw: i64 = match node.layout {
        LayoutKind::Stack { vertical, spacing } => spacing.raw,
        _ => 0,
    };
    let mut j: usize = n;
    while j > 0
        invariant
            0 <= j <= n,
            n == orig_kids.len(),
            orig_kids == node.children@,
            kids@.len() == n,
            forall|k: int| 0 <= k < n ==> is_measured(orig_kids[k], #[trigger] kids@[k]),
            max_w as int == kids_max_w(orig_kids.skip(j as int)),
            max_h as int == kids_max_h(orig_kids.skip(j as int)),
            sum_w as int == kids_sum_w(orig_kids.skip(j as int), spacing_raw as int),
            sum_h as int == kids_sum_h(orig_kids.skip(j as int), spacing_raw as int),
        decreases j,
    {
        let k = j - 1;
        let kid = &kids[k];
        let ext_w: i64 = {
            let raw = sat_i128(
                kid.desired.width.raw as i128 + kid.margin.left.raw as i128
                    + kid.margin.right.raw as i128,
            );
            if raw >= 0 {
                raw
            } else {
                0
            }
        };
        let ext_h: i64 = {
            let raw = sat_i128(
                kid.desired.height.raw as i128 + kid.margin.top.raw as i128
                    + kid.margin.bottom.raw as i128,
            );
            if raw >= 0 {
                raw
            } else {
                0
            }
        };
        proof {
            assert(is_measured(orig_kids[k as int], kids@[k as int]));
            assert(ext_w as int == child_ext_w(orig_kids[k as int]));
            assert(ext_h as int == child_ext_h(orig_kids[k as int]));
            assert(orig_kids.skip(k as int).drop_first() =~= orig_kids.skip(j as int));
            assert(orig_kids.skip(k as int)[0] == orig_kids[k as int]);
            assert(orig_kids.skip(k as int).len() == n - k);
        }
        max_w = if max_w >= ext_w {
            max_w
        } else {
            ext_w
        };
        max_h = if max_h >= ext_h {
            max_h
        } else {
            ext_h
        };
        if k == n - 1 {
            sum_w = ext_w;
            sum_h = ext_h;
        } else {
            sum_w = sat_i128(ext_w as i128 + spacing_raw as i128 + sum_w as i128);
            sum_h = sat_i128(ext_h as i128 + spacing_raw as i128 + sum_h as i128);
        }
        j = k;
    }
    proof {
        assert(orig_kids.skip(0) =~= orig_kids);
    }
    let natural_w: i64;
    let natural_h: i64;
    match node.layout {
        LayoutKind::Fixed { width, height } => {
            natural_w = width.raw;
            natural_h = height.raw;
        },
        LayoutKind::Padding { padding } => {
            natural_w = sat_i128(
                max_w as i128 + padding.left.raw as i128 + padding.right.raw as i128,
            );
            natural_h = sat_i128(
                max_h as i128 + padding.top.raw as i128 + padding.bottom.raw as i128,
            );
        },
        LayoutKind::Stack { vertical, spacing } => {
            if vertical {
                natural_w = max_w;
                natural_h = sum_h;
            } else {
                natural_w = sum_w;
                natural_h = max_h;
            }
        },
    }
    let collapsed = match node.visibility {
        Visibility::Collapsed => true,
        _ => false,
    };
    let dw: i64 = if collapsed {
        0
    } else {
        let capped = if natural_w <= node.constraint.max_width.raw {
            natural_w
        } else {
            node.constraint.max_width.raw
        };
        if capped >= node.constraint.min_width.raw {
            capped
        } else {
            node.constraint.min_width.raw
        }
    };
    let dh: i64 = if collapsed {
        0
    } else {
        let capped = if natural_h <= node.constraint.max_height.raw {
            natural_h
        } else {
            node.constraint.max_height.raw
        };
        if capped >= node.constraint.min_height.raw {
            capped
        } else {
            node.constraint.min_height.raw
        }
    };
    Node {
        layout: node.layout,
        h_align: node.h_align,
        v_align: node.v_align,
        margin: node.margin,
        constraint: node.constraint,
        visibility: node.visibility,
        desired: Size { width: Fx { raw: dw }, height: Fx { raw: dh } },
        bounds: node.bounds,
        children: kids,
    }
}

/// Computes the granted length along one axis.
fn align_len_exec(a: Alignment, slot_len: i64, want: i64) -> (r: i64)
    ensures
        r as int == align_len(a, slot_len as int, want as int),
        r >= 0,
{
    match a {
        Alignment::Stretch => if slot_len >= 0 {
            slot_len
        } else {
            0
        },
        _ => {
            let capped = if want <= slot_len {
                want
            } else {
                slot_len
            };
            if capped >= 0 {
                capped
            } else {
                0
            }
        },
    }
}

/// Computes the position along one axis.
fn align_pos_exec(a: Alignment, slot_pos: i64, slot_len: i64, want: i64) -> (r: i64)
    ensures
        r as int == align_pos(a, slot_pos as int, slot_len as int, want as int),
{
    let len = align_len_exec(a, slot_len, want);
    match a {
        Alignment::Start => slot_pos,
        Alignment::Stretch => slot_pos,
        Alignment::Center => {
            let d: i128 = slot_len as i128 - len as i128;
            let dd: i128 = if d >= 0 {
                d
            } else {
                0
            };
            let half: i128 = tdiv_i128(dd, 2);
            sat_i128(slot_pos as i128 + half)
        },
        Alignment::End => {
            let d: i128 = slot_len as i128 - len as i128;
            let dd: i128 = if d >= 0 {
                d
            } else {
                0
            };
            sat_i128(slot_pos as i128 + dd)
        },
    }
}

/// The arrange pass: returns the tree with final bounds assigned, the root
/// placed inside the given slot.
pub fn arrange_rec(m: &Node, sx: i64, sy: i64, sw: i64, sh: i64) -> (r: Node)
    ensures
        is_arranged(*m, Slot { x: sx as int, y: sy as int, w: sw as int, h: sh as int }, r),
    decreases *m,
{
    let ghost slot = Slot { x: sx as int, y: sy as int, w: sw as int, h: sh as int };
    let ix = sat_i128(sx as i128 + m.margin.left.raw as i128);
    let iy = sat_i128(sy as i128 + m.margin.top.raw as i128);
    let iw0 = sat_i128(sw as i128 - m.margin.left.raw as i128 - m.margin.right.raw as i128);
    let ih0 = sat_i128(sh as i128 - m.margin.top.raw as i128 - m.margin.bottom.raw as i128);
    let iw = if iw0 >= 0 {
        iw0
    } else {
        0
    };
    let ih = if ih0 >= 0 {
        ih0
    } else {
        0
    };
    let want_w = m.desired.width.raw;
    let want_h = m.desired.height.raw;
    let bx = align_pos_exec(m.h_align, ix, iw, want_w);
    let by = align_pos_exec(m.v_align, iy, ih, want_h);
    let bw = align_len_exec(m.h_align, iw, want_w);
    let bh = align_len_exec(m.v_align, ih, want_h);
    let ghost b = placed_bounds(*m, slot);
    proof {
        assert(bx as int == b.x && by as int == b.y && bw as int == b.w && bh as int == b.h);
    }
    let cx: i64;
    let cy: i64;
    let cw: i64;
    let ch: i64;
    match m.layout {
        LayoutKind::Padding { padding } => {
            cx = sat_i128(bx as i128 + padding.left.raw as i128);
            cy = sat_i128(by as i128 + padding.top.raw as i128);
            let cw0 = sat_i128(bw as i128 - padding.left.raw as i128 - padding.right.raw as i128);
            let ch0 = sat_i128(bh as i128 - padding.top.raw as i128 - padding.bottom.raw as i128);
            cw = if cw0 >= 0 {
                cw0
            } else {
                0
            };
            ch = if ch0 >= 0 {
                ch0
            } else {
                0
            };
        },
        _ => {
            cx = bx;
            cy = by;
            cw = bw;
            ch = bh;
        },
    }
    let ghost content = content_of(*m, b);
    proof {
        assert(cx as int == content.x && cy as int == content.y && cw as int == content.w
            && ch as int == content.h);
    }
    let vertical_stack: bool;
    let horizontal_stack: bool;
    let spacing_raw: i64;
    match m.layout {
        LayoutKind::Stack { vertical, spacing } => {
            vertical_stack = vertical;
            horizontal_stack = !vertical;
            spacing_raw = spacing.raw;
        },
        _ => {
            vertical_stack = false;
            horizontal_stack = false;
            spacing_raw = 0;
        },
    }
    let mut kids: Vec<Node> = Vec::new();
    let mut i: usize = 0;
    let n = m.children.len();
    let mut cursor: i64 = 0;
    let ghost mkids = m.children@;
    while i < n
        invariant
            0 <= i <= n,
            n == mkids.len(),
            mkids == m.children@,
            kids@.len() == i,
            cx as int == content.x,
            cy as int == content.y,
            cw as int == content.w,
            ch as int == content.h,
            content == content_of(*m, placed_bounds(*m, slot)),
            slot == (Slot { x: sx as int, y: sy as int, w: sw as int, h: sh as int }),
            vertical_stack == (m.layout matches LayoutKind::Stack { vertical, spacing } && vertical),
            horizontal_stack == (m.layout matches LayoutKind::Stack { vertical, spacing }
                && !vertical),
            (m.layout matches LayoutKind::Stack { vertical, spacing } ==> spacing_raw
                == spacing.raw),
            (vertical_stack || horizontal_stack) ==> cursor as int == stack_cursor(
                mkids,
                i as int,
                spacing_raw as int,
                vertical_stack,
            ),
            forall|k: int|
                0 <= k < i ==> is_arranged(
                    mkids[k],
                    child_slot(*m, content, k),
                    #[trigger] kids@[k],
                ),
        decreases n - i,
    {
        let kid = &m.children[i];
        let ext: i64 = if vertical_stack {
            let raw = sat_i128(
                kid.desired.height.raw as i128 + kid.margin.top.raw as i128
                    + kid.margin.bottom.raw as i128,
            );
            if raw >= 0 {
                raw
            } else {
                0
            }
        } else {
            let raw = sat_i128(
                kid.desired.width.raw as i128 + kid.margin.left.raw as i128
                    + kid.margin.right.raw as i128,
            );
            if raw >= 0 {
                raw
            } else {
                0
            }
        };
        let ksx: i64;
        let ksy: i64;
        let ksw: i64;
        let ksh: i64;
        if vertical_stack {
            ksx = cx;
            ksy = sat_i128(cy as i128 + cursor as i128);
            ksw = cw;
            ksh = ext;
        } else if horizontal_stack {
            ksx = sat_i128(cx as i128 + cursor as i128);
            ksy = cy;
            ksw = ext;
            ksh = ch;
        } else {
            ksx = cx;
            ksy = cy;
            ksw = cw;
            ksh = ch;
        }
        proof {
            let kslot = child_slot(*m, content, i as int);
            assert(ksx as int == kslot.x && ksy as int == kslot.y && ksw as int == kslot.w
                && ksh as int == kslot.h);
            assert(decreases_to!(*m => m.children));
            assert(decreases_to!(m.children => m.children@));
            assert(decreases_to!(m.children@ => m.children@[i as int]));
        }
        let a = arrange_rec(kid, ksx, ksy, ksw, ksh);
        kids.push(a);
        if vertical_stack || horizontal_stack {
            cursor = sat_i128(cursor as i128 + ext as i128 + spacing_raw as i128);
        }
        i = i + 1;
    }
    Node {
        layout: m.layout,
        h_align: m.h_align,
        v_align: m.v_align,
        margin: m.margin,
        constraint: m.constraint,
        visibility: m.visibility,
        desired: m.desired,
        bounds: Rectangle {
            x: Fx { raw: bx },
            y: Fx { raw: by },
            width: Fx { raw: bw },
            height: Fx { raw: bh },
        },
        children: kids,
    }
}

/// The layout engine: the dirty-widget list and the first-run flag that
/// force or skip a pass.
pub struct LayoutEngine {
    /// Widgets marked for relayout since the last completed pass.
    pub dirty: Vec<usize>,
    /// Forces a full pass even with no dirty widgets.
    pub first_run: bool,
}

impl LayoutEngine {
    /// A fresh engine: nothing dirty yet, but the first pass is owed.
    pub fn new() -> (r: LayoutEngine)
        ensures
            r.dirty@.len() == 0,
            r.first_run,
    {
        LayoutEngine { dirty: Vec::new(), first_run: true }
    }

    /// Marks one widget as needing relayout.
    pub fn mark_dirty(&mut self, entity: usize)
        ensures
            final(self).dirty@ == old(self).dirty@.push(entity),
            final(self).first_run == old(self).first_run,
    {
        self.dirty.push(entity);
    }

    /// One update cycle: measure then arrange, inside the window's size.
    ///
    /// With no dirty widgets and the first run done the engine does not
    /// touch the tree at all; otherwise both passes run to completion, the
    /// dirty list is cleared and the first-run flag dropped.
    pub fn run(&mut self, root: &mut Node, window: Size)
        ensures
            (old(self).dirty@.len() == 0 && !old(self).first_run) ==> (*final(root) == *old(root)
                && *final(self) == *old(self)),
            !(old(self).dirty@.len() == 0 && !old(self).first_run) ==> ({
                &&& final(self).dirty@.len() == 0
                &&& !final(self).first_run
                &&& exists|m: Node|
                    is_measured(*old(root), m) && is_arranged(
                        m,
                        Slot {
                            x: 0,
                            y: 0,
                            w: window.width.raw as int,
                            h: window.height.raw as int,
                        },
                        *final(root),
                    )
            }),
    {
        if self.dirty.len() == 0 && !self.first_run {
            return ;
        }
        let measured_root = measure_rec(root);
        let arranged_root = arrange_rec(&measured_root, 0, 0, window.width.raw, window.height.raw);
        *root = arranged_root;
        self.dirty = Vec::new();
        self.first_run = false;
        proof {
            assert(is_measured(*old(root), measured_root) && is_arranged(
                measured_root,
                Slot { x: 0, y: 0, w: window.width.raw as int, h: window.height.raw as int },
                *final(root),
            ));
        }
    }
}

} // verus!
